use std::collections::HashMap;

use ratty::inline::{InlineAnchor, InlineObject, KittyInlineObject, RasterObject};
use ratty::placeholders::{place_anchors, placeholder_ids, refresh_kitty_placeholder_anchors};
use ratty::screen::{Cell, Color, ScreenGrid};

type Object = InlineObject<(), (), ()>;

fn image(uses_placeholders: bool) -> Object {
    InlineObject::KittyImage(KittyInlineObject {
        raster: RasterObject { width: 0, height: 0, rgba: Vec::new(), handle: None },
        uses_placeholders,
        plane: None,
    })
}

fn place(anchors: &HashMap<u32, InlineAnchor<u8>>, id: u32) -> Option<(u16, u16, u32, u32)> {
    anchors.get(&id).map(|anchor| (anchor.row, anchor.col, anchor.columns, anchor.rows))
}

fn placeholder(r: u8, g: u8, b: u8) -> String {
    format!("\x1b[38;2;{};{};{}m\u{10EEEE}", r, g, b)
}

fn parser(text: &str) -> vt100::Parser {
    let mut parser = vt100::Parser::new(4, 8, 0);
    parser.process(text.as_bytes());
    parser
}

fn cell(contents: &str, foreground: Color) -> Option<Cell> {
    Some(Cell {
        contents: contents.to_owned(),
        has_contents: !contents.is_empty(),
        wide: false,
        wide_continuation: false,
        foreground,
    })
}

#[test]
fn placeholder_objects_are_listed() {
    let mut objects: HashMap<u32, Object> = HashMap::new();
    objects.insert(1, image(true));
    objects.insert(2, image(false));
    objects.insert(3, InlineObject::RgpObject(()));
    objects.insert(4, image(true));
    let mut ids = placeholder_ids(&objects);
    ids.sort();
    assert_eq!(ids, vec![1, 4]);
}

#[test]
fn anchors_follow_placeholder_cells() {
    let mut objects: HashMap<u32, Object> = HashMap::new();
    objects.insert(0x01000203, image(true));
    let mut anchors: HashMap<u32, InlineAnchor<u8>> = HashMap::new();
    anchors.insert(9, InlineAnchor { row: 1, col: 1, columns: 1, rows: 1, style: 3 });
    let mark = placeholder(0, 2, 3);
    let screen = parser(&format!("\x1b[2;3H{mark}{mark}\x1b[3;2H{mark}"));
    assert!(refresh_kitty_placeholder_anchors(&objects, &mut anchors, screen.screen(), 7));
    assert_eq!(place(&anchors, 0x01000203), Some((1, 1, 3, 2)));
    assert_eq!(anchors[&0x01000203].style, 7);
    assert_eq!(anchors[&9].style, 3);
    assert!(!refresh_kitty_placeholder_anchors(&objects, &mut anchors, screen.screen(), 7));
    let empty = parser("");
    assert!(refresh_kitty_placeholder_anchors(&objects, &mut anchors, empty.screen(), 7));
    assert_eq!(place(&anchors, 0x01000203), None);
    assert_eq!(place(&anchors, 9), Some((1, 1, 1, 1)));
    assert!(!refresh_kitty_placeholder_anchors(&objects, &mut anchors, empty.screen(), 7));
}

#[test]
fn objects_without_placeholders_change_nothing() {
    let mut objects: HashMap<u32, Object> = HashMap::new();
    objects.insert(0x000203, image(false));
    let mut anchors: HashMap<u32, InlineAnchor<u8>> = HashMap::new();
    anchors.insert(0x000203, InlineAnchor { row: 3, col: 3, columns: 2, rows: 2, style: 0 });
    let screen = parser(&placeholder(0, 2, 3));
    assert!(!refresh_kitty_placeholder_anchors(&objects, &mut anchors, screen.screen(), 0));
    assert_eq!(place(&anchors, 0x000203), Some((3, 3, 2, 2)));
}

#[test]
fn moved_objects_are_reported() {
    let mut objects: HashMap<u32, Object> = HashMap::new();
    objects.insert(5, image(true));
    let mut anchors: HashMap<u32, InlineAnchor<u8>> = HashMap::new();
    let mark = placeholder(0, 0, 5);
    let screen = parser(&mark);
    assert!(refresh_kitty_placeholder_anchors(&objects, &mut anchors, screen.screen(), 0));
    let screen = parser(&format!("\x1b[2;2H{mark}"));
    assert!(refresh_kitty_placeholder_anchors(&objects, &mut anchors, screen.screen(), 0));
    assert_eq!(place(&anchors, 5), Some((1, 1, 1, 1)));
}

#[test]
fn last_object_of_a_tag_owns_its_cells() {
    let grid = ScreenGrid {
        cols: 2,
        lines: vec![vec![
            cell("\u{10EEEE}\u{305}", Color::Rgb(1, 2, 3)),
            cell("x", Color::Rgb(1, 2, 3)),
        ]],
    };
    let mut anchors: HashMap<u32, InlineAnchor<u8>> = HashMap::new();
    assert!(place_anchors(&[0x010203, 0xff010203], &mut anchors, &grid, 0));
    assert_eq!(place(&anchors, 0x010203), None);
    assert_eq!(place(&anchors, 0xff010203), Some((0, 0, 1, 1)));
    assert!(place_anchors(&[0xff010203, 0x010203], &mut anchors, &grid, 0));
    assert_eq!(place(&anchors, 0x010203), Some((0, 0, 1, 1)));
    assert_eq!(place(&anchors, 0xff010203), None);
}

#[test]
fn only_placeholder_cells_with_a_color_count() {
    let grid = ScreenGrid {
        cols: 2,
        lines: vec![vec![
            cell("\u{10EEEE}", Color::Idx(5)),
            cell("x\u{10EEEE}", Color::Rgb(0, 0, 5)),
        ]],
    };
    let mut anchors: HashMap<u32, InlineAnchor<u8>> = HashMap::new();
    assert!(!place_anchors(&[5], &mut anchors, &grid, 0));
    assert!(anchors.is_empty());
}

#[test]
fn refreshing_twice_changes_nothing() {
    let mut objects: HashMap<u32, Object> = HashMap::new();
    let mut text = String::new();
    for id in 1..9 {
        objects.insert(id, image(true));
        text.push_str(&placeholder(0, 0, id as u8));
    }
    let mut anchors: HashMap<u32, InlineAnchor<u8>> = HashMap::new();
    let screen = parser(&text);
    assert!(refresh_kitty_placeholder_anchors(&objects, &mut anchors, screen.screen(), 1));
    for id in 1..9 {
        assert_eq!(place(&anchors, id), Some((0, id as u16 - 1, 1, 1)));
    }
    assert!(!refresh_kitty_placeholder_anchors(&objects, &mut anchors, screen.screen(), 1));
    assert_eq!(anchors.len(), 8);
    assert!(anchors.values().all(|anchor| anchor.style == 1));
}

#[test]
fn another_style_alone_is_no_change() {
    let mut objects: HashMap<u32, Object> = HashMap::new();
    objects.insert(5, image(true));
    let mut anchors: HashMap<u32, InlineAnchor<u8>> = HashMap::new();
    let screen = parser(&placeholder(0, 0, 5));
    assert!(refresh_kitty_placeholder_anchors(&objects, &mut anchors, screen.screen(), 1));
    assert!(!refresh_kitty_placeholder_anchors(&objects, &mut anchors, screen.screen(), 2));
    assert_eq!(anchors[&5].style, 2);
}

#[test]
fn refreshing_twice_changes_nothing_for_shared_tags() {
    let mut objects: HashMap<u32, Object> = HashMap::new();
    for high in 0..16 {
        objects.insert(high * 0x0100_0000 + 5, image(true));
    }
    objects.insert(6, image(true));
    let mut anchors: HashMap<u32, InlineAnchor<u8>> = HashMap::new();
    let screen = parser(&format!("{}{}", placeholder(0, 0, 5), placeholder(0, 0, 6)));
    assert!(refresh_kitty_placeholder_anchors(&objects, &mut anchors, screen.screen(), 1));
    assert_eq!(anchors.len(), 2);
    assert_eq!(place(&anchors, 6), Some((0, 1, 1, 1)));
    let places: Vec<u32> = anchors.keys().copied().collect();
    assert!(!refresh_kitty_placeholder_anchors(&objects, &mut anchors, screen.screen(), 1));
    assert_eq!(anchors.len(), 2);
    assert!(places.iter().all(|id| anchors.contains_key(id)));
}
