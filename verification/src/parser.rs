//! The menu definition format.
//!
//! A definition is read line by line; a line's indentation is the number of
//! white-space characters it begins with, and its form is judged without the
//! white space at its ends. A line ending in `:` with no indentation names
//! the menu (the first such line only); an indented one opens a submenu
//! block, which ends the block that was open. Any other line holding `[` is
//! an item, `"Label"[meta]: command`. Items indented by more than two
//! columns belong to the open block, and are dropped where none is open; any
//! other item stands at the root and ends the open block. A block that ends,
//! at the latest with the text, is appended to the root, so the root keeps
//! the order of the text. Every other line is skipped.

use crate::menu::{Action, ActionModel, ItemModel, MenuItem, models};
use crate::text::{
    chars_of, find_first, find_last, find_last_pair, first_index, indent, last_index, last_pair,
    skip_back, skip_front, slice_of, strip, strip_range, trim, unquote, Pattern,
};
use vstd::prelude::*;

verus! {

/// Why a menu definition could not be had.
#[derive(Debug, PartialEq, Eq)]
pub enum ParseError {
    /// The source could not be read; the reader's message is kept.
    Io(String),
}

/// What has been read of a definition so far.
pub struct Draft {
    /// The menu's name, once a line has given it.
    pub title: Option<Seq<char>>,
    /// The root items that are complete.
    pub root: Seq<ItemModel>,
    /// The submenu block that is open: its label and the items it has so far.
    pub open: Option<(Seq<char>, Seq<ItemModel>)>,
}

/// The lines of a text: what stands between its line feeds. A text with `n`
/// line feeds has `n + 1` lines, some of which may be empty.
pub open spec fn lines(s: Seq<char>) -> Seq<Seq<char>>
    decreases s.len(),
{
    if s.len() == 0 {
        seq![Seq::empty()]
    } else {
        let before = lines(s.drop_last());
        if s.last() == '\n' {
            before.push(Seq::empty())
        } else {
            before.drop_last().push(before.last().push(s.last()))
        }
    }
}

/// `ls` put together again, with a line feed between each two lines.
pub open spec fn joined(ls: Seq<Seq<char>>) -> Seq<char>
    decreases ls.len(),
{
    if ls.len() == 0 {
        Seq::empty()
    } else if ls.len() == 1 {
        ls[0]
    } else {
        joined(ls.drop_last()).push('\n') + ls.last()
    }
}

/// The lines of a text are what it splits into at its line feeds: no line
/// holds a line feed, and the lines joined by line feeds are the text.
pub proof fn lemma_lines_split(s: Seq<char>)
    ensures
        lines(s).len() >= 1,
        forall|i: int, j: int|
            0 <= i < lines(s).len() && 0 <= j < lines(s)[i].len() ==> lines(s)[i][j] != '\n',
        joined(lines(s)) == s,
    decreases s.len(),
{
    if s.len() == 0 {
        assert(joined(lines(s)) =~= s);
    } else {
        let before = lines(s.drop_last());
        lemma_lines_split(s.drop_last());
        if s.last() == '\n' {
            assert(lines(s).drop_last() =~= before);
            assert(joined(lines(s)) =~= s);
        } else if before.len() == 1 {
            assert(joined(lines(s)) =~= s);
        } else {
            assert(lines(s).drop_last() =~= before.drop_last());
            assert(joined(lines(s)) =~= joined(before).push(s.last()));
            assert(joined(lines(s)) =~= s);
        }
    }
}

/// The name that a title line gives: the trimmed line without the colons and
/// then the double quotes at its ends.
pub open spec fn heading(t: Seq<char>) -> Seq<char> {
    unquote(strip(t, Pattern::Exactly(':')))
}

/// The label that a submenu line gives. `t` is the trimmed line, which ends
/// in a colon. Without that colon, it is what stands between the first and
/// the last double quote, or all of it where it holds fewer than two quotes.
pub open spec fn submenu_label(t: Seq<char>) -> Seq<char> {
    let body = t.drop_last();
    let a = first_index(body, '"');
    let b = last_index(body, '"');
    if a < b {
        body.subrange(a + 1, b)
    } else {
        body
    }
}

/// The part of an item line before its last `]:`, or the whole line where it
/// has none.
pub open spec fn item_head(t: Seq<char>) -> Seq<char> {
    let k = last_pair(t, ']', ':');
    if k >= 0 {
        t.subrange(0, k)
    } else {
        t
    }
}

/// The part of an item line after its last `]:`, empty where it has none.
pub open spec fn item_tail(t: Seq<char>) -> Seq<char> {
    let k = last_pair(t, ']', ':');
    if k >= 0 {
        t.subrange(k + 2, t.len() as int)
    } else {
        Seq::empty()
    }
}

/// The label of an item line: its head up to the first `[`, without the
/// double quotes at its ends.
pub open spec fn item_label(t: Seq<char>) -> Seq<char> {
    let head = item_head(t);
    unquote(head.subrange(0, first_index(head, '[')))
}

/// The command of an item line: its tail, trimmed.
pub open spec fn item_command(t: Seq<char>) -> Seq<char> {
    trim(item_tail(t))
}

/// The item that the trimmed item line `t` defines.
pub open spec fn item_of(t: Seq<char>) -> ItemModel {
    ItemModel { label: item_label(t), action: ActionModel::Execute(item_command(t)) }
}

/// The draft with its open block, if any, ended and appended to the root.
pub open spec fn close(d: Draft) -> Draft {
    match d.open {
        Some((label, children)) => Draft {
            title: d.title,
            root: d.root.push(ItemModel { label, action: ActionModel::OpenSubmenu(children) }),
            open: None,
        },
        None => d,
    }
}

/// The draft after one more line.
pub open spec fn step(d: Draft, line: Seq<char>) -> Draft {
    let t = trim(line);
    if t.len() == 0 {
        d
    } else if t.last() == ':' {
        if indent(line) == 0 {
            if d.title is None {
                Draft { title: Some(heading(t)), root: d.root, open: d.open }
            } else {
                d
            }
        } else {
            Draft {
                title: d.title,
                root: close(d).root,
                open: Some((submenu_label(t), Seq::empty())),
            }
        }
    } else if first_index(t, '[') < t.len() {
        if indent(line) > 2 {
            match d.open {
                Some((label, children)) => Draft {
                    title: d.title,
                    root: d.root,
                    open: Some((label, children.push(item_of(t)))),
                },
                None => d,
            }
        } else {
            Draft { title: d.title, root: close(d).root.push(item_of(t)), open: None }
        }
    } else {
        d
    }
}

/// The draft after all of `ls`, read in order from `d`.
pub open spec fn run(d: Draft, ls: Seq<Seq<char>>) -> Draft
    decreases ls.len(),
{
    if ls.len() == 0 {
        d
    } else {
        step(run(d, ls.drop_last()), ls.last())
    }
}

/// The draft before any line.
pub open spec fn blank() -> Draft {
    Draft { title: None, root: Seq::empty(), open: None }
}

/// The name of a menu whose definition gives none.
pub open spec fn default_title() -> Seq<char> {
    "Menu Principal"@
}

/// The title that the definition `text` gives.
pub open spec fn parsed_title(text: Seq<char>) -> Seq<char> {
    match run(blank(), lines(text)).title {
        Some(t) => t,
        None => default_title(),
    }
}

/// The root items that the definition `text` gives.
pub open spec fn parsed_items(text: Seq<char>) -> Seq<ItemModel> {
    close(run(blank(), lines(text))).root
}

/// Whether `r` is what reading the definition `text` gives.
pub open spec fn is_parse_of(
    text: Seq<char>,
    r: Result<(String, Vec<MenuItem>), ParseError>,
) -> bool {
    r matches Ok(menu) && menu.0@ == parsed_title(text) && models(menu.1@) == parsed_items(text)
}

/// Whether every item of `items` is a command.
pub open spec fn all_commands(items: Seq<ItemModel>) -> bool {
    forall|i: int| 0 <= i < items.len() ==> (#[trigger] items[i]).action is Execute
}

/// Whether `items` is at most two levels deep: each item is a command or a
/// submenu of commands.
pub open spec fn shallow(items: Seq<ItemModel>) -> bool {
    forall|i: int|
        0 <= i < items.len() ==> match (#[trigger] items[i]).action {
            ActionModel::Execute(_) => true,
            ActionModel::OpenSubmenu(children) => all_commands(children),
        }
}

/// Whether a draft is at most two levels deep, its open block included.
pub open spec fn shallow_draft(d: Draft) -> bool {
    &&& shallow(d.root)
    &&& d.open matches Some(block) ==> all_commands(block.1)
}

/// Ending the open block keeps a draft at most two levels deep.
pub proof fn lemma_close_shallow(d: Draft)
    requires
        shallow_draft(d),
    ensures
        shallow_draft(close(d)),
{
}

/// Reading a line keeps a draft at most two levels deep.
pub proof fn lemma_step_shallow(d: Draft, line: Seq<char>)
    requires
        shallow_draft(d),
    ensures
        shallow_draft(step(d, line)),
{
    lemma_close_shallow(d);
}

/// Reading lines keeps a draft at most two levels deep.
pub proof fn lemma_run_shallow(d: Draft, ls: Seq<Seq<char>>)
    requires
        shallow_draft(d),
    ensures
        shallow_draft(run(d, ls)),
    decreases ls.len(),
{
    if ls.len() > 0 {
        lemma_run_shallow(d, ls.drop_last());
        lemma_step_shallow(run(d, ls.drop_last()), ls.last());
    }
}

/// A menu read from a definition is at most two levels deep: root items and
/// one level of submenus.
pub proof fn lemma_parsed_shallow(text: Seq<char>)
    ensures
        shallow(parsed_items(text)),
{
    lemma_run_shallow(blank(), lines(text));
    lemma_close_shallow(run(blank(), lines(text)));
}

struct Builder {
    title: Option<String>,
    root: Vec<MenuItem>,
    open: Option<(String, Vec<MenuItem>)>,
}

impl Builder {
    spec fn view(&self) -> Draft {
        Draft {
            title: match self.title {
                Some(t) => Some(t@),
                None => None,
            },
            root: models(self.root@),
            open: match self.open {
                Some((label, children)) => Some((label@, models(children@))),
                None => None,
            },
        }
    }
}

/// Ends the open block, if any, and appends it to the root.
fn close_block(b: Builder) -> (r: Builder)
    ensures
        r@ == close(b@),
{
    let Builder { title, root, open } = b;
    let mut root = root;
    match open {
        Some((label, children)) => {
            let ghost before = root@;
            let item = MenuItem { label, action: Action::OpenSubmenu(children) };
            root.push(item);
            assert(models(root@) =~= models(before).push(item@));
            Builder { title, root, open: None }
        },
        None => Builder { title, root, open: None },
    }
}

/// Reads the item that the trimmed line `a..b` defines.
fn read_item(text: &str, chars: &Vec<char>, a: usize, b: usize) -> (r: MenuItem)
    requires
        chars@ == text@,
        a <= b <= chars.len(),
    ensures
        r@ == item_of(chars@.subrange(a as int, b as int)),
{
    let ghost t = chars@.subrange(a as int, b as int);
    let (head_end, tail_start) = match find_last_pair(chars, a, b, ']', ':') {
        Some(k) => (k, k + 2),
        None => (b, b),
    };
    assert(chars@.subrange(a as int, head_end as int) =~= item_head(t));
    assert(chars@.subrange(tail_start as int, b as int) =~= item_tail(t));
    let bracket = find_first(chars, a, head_end, '[');
    assert(chars@.subrange(a as int, bracket as int) =~= item_head(t).subrange(
        0,
        first_index(item_head(t), '['),
    ));
    let (l0, l1) = strip_range(chars, a, bracket, Pattern::Exactly('"'));
    let (c0, c1) = strip_range(chars, tail_start, b, Pattern::Space);
    MenuItem { label: slice_of(text, l0, l1), action: Action::Execute(slice_of(text, c0, c1)) }
}

/// Reads the label of the trimmed submenu line `a..b`.
fn read_submenu_label(text: &str, chars: &Vec<char>, a: usize, b: usize) -> (r: String)
    requires
        chars@ == text@,
        a < b <= chars.len(),
    ensures
        r@ == submenu_label(chars@.subrange(a as int, b as int)),
{
    let ghost t = chars@.subrange(a as int, b as int);
    let end = b - 1;
    assert(chars@.subrange(a as int, end as int) =~= t.drop_last());
    let first = find_first(chars, a, end, '"');
    match find_last(chars, a, end, '"') {
        Some(last) => {
            if first < last {
                assert(chars@.subrange(first as int + 1, last as int) =~= t.drop_last().subrange(
                    first - a + 1,
                    last - a,
                ));
                slice_of(text, first + 1, last)
            } else {
                slice_of(text, a, end)
            }
        },
        None => slice_of(text, a, end),
    }
}

/// Reads the line `lo..hi` into the builder.
fn feed(b: Builder, text: &str, chars: &Vec<char>, lo: usize, hi: usize) -> (r: Builder)
    requires
        chars@ == text@,
        lo <= hi <= chars.len(),
    ensures
        r@ == step(b@, chars@.subrange(lo as int, hi as int)),
{
    let ghost line = chars@.subrange(lo as int, hi as int);
    let start = skip_front(chars, lo, hi, Pattern::Space);
    let end = skip_back(chars, start, hi, Pattern::Space);
    let ghost t = chars@.subrange(start as int, end as int);
    assert(t == trim(line));
    assert(start - lo == indent(line));
    if start == end {
        return b;
    }
    let depth = start - lo;
    if chars[end - 1] == ':' {
        if depth == 0 {
            if b.title.is_none() {
                let (c0, c1) = strip_range(chars, start, end, Pattern::Exactly(':'));
                let (q0, q1) = strip_range(chars, c0, c1, Pattern::Exactly('"'));
                Builder { title: Some(slice_of(text, q0, q1)), root: b.root, open: b.open }
            } else {
                b
            }
        } else {
            let closed = close_block(b);
            let label = read_submenu_label(text, chars, start, end);
            let children: Vec<MenuItem> = Vec::new();
            assert(models(children@) =~= Seq::<ItemModel>::empty());
            Builder { title: closed.title, root: closed.root, open: Some((label, children)) }
        }
    } else if find_first(chars, start, end, '[') < end {
        let item = read_item(text, chars, start, end);
        if depth > 2 {
            let Builder { title, root, open } = b;
            match open {
                Some((label, children)) => {
                    let mut children = children;
                    let ghost before = children@;
                    children.push(item);
                    assert(models(children@) =~= models(before).push(item@));
                    Builder { title, root, open: Some((label, children)) }
                },
                None => Builder { title, root, open: None },
            }
        } else {
            let closed = close_block(b);
            let Builder { title, root, open } = closed;
            let mut root = root;
            let ghost before = root@;
            root.push(item);
            assert(models(root@) =~= models(before).push(item@));
            Builder { title, root, open: None }
        }
    } else {
        b
    }
}

/// Reads a menu definition: its title and its root items.
///
/// Every text is a definition: lines that fit no form are skipped, so the
/// result is always `Ok`.
pub fn parse(text: &str) -> (r: Result<(String, Vec<MenuItem>), ParseError>)
    ensures
        is_parse_of(text@, r),
        r matches Ok(menu) && shallow(models(menu.1@)),
{
    let chars = chars_of(text);
    let root: Vec<MenuItem> = Vec::new();
    let mut b = Builder { title: None, root, open: None };
    assert(b@.root =~= blank().root);
    let mut start: usize = 0;
    let mut i: usize = 0;
    proof {
        assert(chars@.take(0) =~= Seq::<char>::empty());
        assert(lines(chars@.take(0)) =~= seq![Seq::<char>::empty()]);
        assert(lines(chars@.take(0)).drop_last() =~= Seq::<Seq<char>>::empty());
        assert(chars@.subrange(0, 0) =~= Seq::<char>::empty());
    }
    while i < chars.len()
        invariant
            chars@ == text@,
            start <= i <= chars.len(),
            b@ == run(blank(), lines(chars@.take(i as int)).drop_last()),
            lines(chars@.take(i as int)).len() >= 1,
            lines(chars@.take(i as int)).last() == chars@.subrange(start as int, i as int),
        decreases chars.len() - i,
    {
        let ghost before = lines(chars@.take(i as int));
        let ghost now = chars@.take(i as int + 1);
        proof {
            assert(now.drop_last() =~= chars@.take(i as int));
            assert(now.last() == chars@[i as int]);
            lemma_lines_split(now);
        }
        if chars[i] == '\n' {
            b = feed(b, text, &chars, start, i);
            start = i + 1;
            proof {
                assert(lines(now) == before.push(Seq::empty()));
                assert(lines(now).drop_last() =~= before);
                assert(chars@.subrange(start as int, i as int + 1) =~= Seq::<char>::empty());
            }
        } else {
            proof {
                assert(lines(now).drop_last() =~= before.drop_last());
                assert(chars@.subrange(start as int, i as int + 1) =~= before.last().push(
                    chars@[i as int],
                ));
            }
        }
        i += 1;
    }
    b = feed(b, text, &chars, start, i);
    assert(chars@.take(i as int) =~= text@);
    proof {
        lemma_parsed_shallow(text@);
    }
    let closed = close_block(b);
    let title = match closed.title {
        Some(t) => t,
        None => String::from_str("Menu Principal"),
    };
    Ok((title, closed.root))
}

/// Reads a menu definition from what a reader of the source handed back:
/// the text, or the message of its failure.
pub fn parse_read(source: Result<String, String>) -> (r: Result<
    (String, Vec<MenuItem>),
    ParseError,
>)
    ensures
        match source {
            Ok(text) => is_parse_of(text@, r),
            Err(message) => r == Err::<(String, Vec<MenuItem>), ParseError>(
                ParseError::Io(message),
            ),
        },
{
    match source {
        Ok(text) => parse(text.as_str()),
        Err(message) => Err(ParseError::Io(message)),
    }
}

} // verus!
