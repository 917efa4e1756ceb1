//! The size and place of the menu's frame on the screen.

use crate::menu::{models, ItemModel, MenuItem};
use vstd::prelude::*;
use vstd::utf8::encode_utf8;

verus! {

/// A rectangle of screen cells.
#[derive(Clone, Copy, Debug, PartialEq, Eq)]
pub struct Area {
    pub x: u16,
    pub y: u16,
    pub width: u16,
    pub height: u16,
}

/// Cells added to the widest text for the frame, the marker and the padding.
pub const FRAME_EXTRA_WIDTH: u16 = 14;

/// Rows added to the number of items for the frame and the padding.
pub const FRAME_EXTRA_HEIGHT: u16 = 4;

/// The width that a text is counted with: the length of its UTF-8 encoding.
pub open spec fn width_of(s: Seq<char>) -> nat {
    encode_utf8(s).len()
}

/// The greatest width among the labels of `items`, zero where there is none.
pub open spec fn widest_label(items: Seq<ItemModel>) -> nat
    decreases items.len(),
{
    if items.len() == 0 {
        0
    } else {
        let rest = widest_label(items.drop_last());
        let last = width_of(items.last().label);
        if last > rest {
            last
        } else {
            rest
        }
    }
}

/// The width that the content of a level needs: that of its widest label or
/// of its title, whichever is greater.
pub open spec fn content_width_of(title: Seq<char>, items: Seq<ItemModel>) -> nat {
    if width_of(title) > widest_label(items) {
        width_of(title)
    } else {
        widest_label(items)
    }
}

/// `n + extra`, reduced to sixteen bits as a screen dimension is.
pub open spec fn framed(n: nat, extra: u16) -> int {
    (n + extra) % 0x1_0000
}

/// The width that the content of a level needs.
pub fn content_width(title: &str, items: &Vec<MenuItem>) -> (r: usize)
    ensures
        r == content_width_of(title@, models(items@)),
{
    let mut best: usize = 0;
    let mut i: usize = 0;
    while i < items.len()
        invariant
            i <= items.len(),
            best == widest_label(models(items@).take(i as int)),
        decreases items.len() - i,
    {
        let w = items[i].label.as_str().as_bytes().len();
        proof {
            let now = models(items@).take(i as int + 1);
            assert(now.drop_last() =~= models(items@).take(i as int));
            assert(now.last().label == items[i as int].label@);
        }
        if w > best {
            best = w;
        }
        i += 1;
    }
    assert(models(items@).take(i as int) =~= models(items@));
    let t = title.as_bytes().len();
    if t > best {
        t
    } else {
        best
    }
}

/// A count plus what the frame adds, reduced to sixteen bits.
pub fn frame_side(n: usize, extra: u16) -> (r: u16)
    ensures
        r == framed(n as nat, extra),
{
    let low: u32 = (n % 0x1_0000) as u32;
    let sum: u32 = low + extra as u32;
    (sum % 0x1_0000) as u16
}

/// The size of the frame for a level: its content's width and its number of
/// items, each with what the frame adds.
pub fn frame_size(title: &str, items: &Vec<MenuItem>) -> (r: (u16, u16))
    ensures
        r.0 == framed(content_width_of(title@, models(items@)), FRAME_EXTRA_WIDTH),
        r.1 == framed(items@.len(), FRAME_EXTRA_HEIGHT),
{
    let width = frame_side(content_width(title, items), FRAME_EXTRA_WIDTH);
    let height = frame_side(items.len(), FRAME_EXTRA_HEIGHT);
    (width, height)
}

/// A rectangle of at most `width` by `height` cells, no larger than `r`, and
/// centred in a rectangle of the size of `r` whose corner is the origin.
pub fn auto_size_rect(width: u16, height: u16, r: Area) -> (out: Area)
    ensures
        out.width == if width <= r.width { width } else { r.width },
        out.height == if height <= r.height { height } else { r.height },
        out.x == (r.width - out.width) / 2,
        out.y == (r.height - out.height) / 2,
        out.x + out.width <= r.width,
        out.y + out.height <= r.height,
{
    let w: u16 = if width <= r.width {
        width
    } else {
        r.width
    };
    let h: u16 = if height <= r.height {
        height
    } else {
        r.height
    };
    Area { x: (r.width - w) / 2, y: (r.height - h) / 2, width: w, height: h }
}

} // verus!
