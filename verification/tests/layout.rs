use tmenu::layout::{auto_size_rect, content_width, frame_side, frame_size, Area};
use tmenu::menu::{Action, MenuItem};

fn run(label: &str) -> MenuItem {
    MenuItem { label: label.to_string(), action: Action::Execute(String::new()) }
}

fn screen(width: u16, height: u16) -> Area {
    Area { x: 0, y: 0, width, height }
}

#[test]
fn frame_is_centred_when_it_fits() {
    assert_eq!(auto_size_rect(20, 6, screen(80, 24)), Area { x: 30, y: 9, width: 20, height: 6 });
    assert_eq!(auto_size_rect(21, 7, screen(80, 24)), Area { x: 29, y: 8, width: 21, height: 7 });
}

#[test]
fn frame_is_cut_to_the_screen() {
    assert_eq!(auto_size_rect(100, 30, screen(80, 24)), Area { x: 0, y: 0, width: 80, height: 24 });
    assert_eq!(auto_size_rect(100, 6, screen(80, 24)), Area { x: 0, y: 9, width: 80, height: 6 });
    assert_eq!(auto_size_rect(5, 5, screen(0, 0)), Area { x: 0, y: 0, width: 0, height: 0 });
}

#[test]
fn frame_ignores_the_corner_of_the_screen() {
    let r = Area { x: 7, y: 3, width: 10, height: 10 };
    assert_eq!(auto_size_rect(4, 2, r), Area { x: 3, y: 4, width: 4, height: 2 });
}

#[test]
fn content_width_is_widest_of_title_and_labels() {
    assert_eq!(content_width("menu", &vec![run("ab"), run("abcdefg"), run("abc")]), 7);
    assert_eq!(content_width("a long title", &vec![run("ab")]), 12);
    assert_eq!(content_width("", &Vec::new()), 0);
    assert_eq!(content_width("x", &Vec::new()), 1);
}

#[test]
fn width_counts_encoded_bytes() {
    assert_eq!(content_width("", &vec![run("ñandú")]), 7);
    assert_eq!(content_width("日本", &vec![run("abc")]), 6);
}

#[test]
fn frame_size_adds_the_frame() {
    assert_eq!(frame_size("menu", &vec![run("abcdefg"), run("abc")]), (21, 6));
    assert_eq!(frame_size("", &Vec::new()), (14, 4));
}

#[test]
fn frame_side_keeps_sixteen_bits() {
    assert_eq!(frame_side(0, 14), 14);
    assert_eq!(frame_side(65521, 14), 65535);
    assert_eq!(frame_side(65522, 14), 0);
    assert_eq!(frame_side(65536, 4), 4);
    assert_eq!(frame_side(131071, 4), 3);
}
