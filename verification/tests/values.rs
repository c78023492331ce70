use std::io::Cursor;

use ratty::images::{decode_png, decode_texture, decode_window_icon};
use ratty::numbers::{parse_u32, push_decimal};
use ratty::text::{chars_of, normalized_name, same_text, string_of};

fn picture(format: image::ImageFormat) -> Vec<u8> {
    let pixels = vec![1, 2, 3, 255, 4, 5, 6, 255, 7, 8, 9, 255, 10, 11, 12, 255];
    let image = image::RgbaImage::from_raw(2, 2, pixels).unwrap();
    let mut file = Cursor::new(Vec::new());
    image.write_to(&mut file, format).unwrap();
    file.into_inner()
}

#[test]
fn numbers_are_read_and_written() {
    assert_eq!(parse_u32(b"0"), Some(0));
    assert_eq!(parse_u32(b"+42"), Some(42));
    assert_eq!(parse_u32(b"4294967295"), Some(u32::MAX));
    assert_eq!(parse_u32(b"4294967296"), None);
    assert_eq!(parse_u32(b""), None);
    assert_eq!(parse_u32(b"+"), None);
    assert_eq!(parse_u32(b"-1"), None);
    assert_eq!(parse_u32(b"1x"), None);
    let mut out = b"n=".to_vec();
    push_decimal(&mut out, 4294967295);
    push_decimal(&mut out, 0);
    assert_eq!(out, b"n=42949672950");
}

#[test]
fn names_are_normalized() {
    let name = normalized_name(&chars_of("\u{2003} Page_UP\t"));
    assert_eq!(string_of(&name), "page_up");
    assert!(same_text(&name, "page_up"));
    assert!(!same_text(&name, "page"));
    assert!(!same_text(&name, "page_up2"));
    assert!(normalized_name(&chars_of(" \n ")).is_empty());
}

#[test]
fn window_icons_are_decoded() {
    let icon = decode_window_icon(&picture(image::ImageFormat::Ico)).unwrap();
    assert_eq!((icon.width, icon.height), (2, 2));
    assert_eq!(&icon.rgba[..4], &[1, 2, 3, 255]);
    assert!(decode_window_icon(&picture(image::ImageFormat::Png)).is_err());
}

#[test]
fn textures_are_recognized() {
    let texture = decode_texture(&picture(image::ImageFormat::Png)).unwrap();
    assert_eq!(texture.rgba.len(), 16);
    assert_eq!(&texture.rgba[12..], &[10, 11, 12, 255]);
    let texture = decode_texture(&picture(image::ImageFormat::Ico)).unwrap();
    assert_eq!((texture.width, texture.height), (2, 2));
    assert!(decode_texture(b"nothing").is_err());
    assert!(decode_texture(b"\x89PNG\r\n\x1a\n").is_err());
    assert!(decode_texture(b"farbfeld").is_err());
    assert!(decode_png(&picture(image::ImageFormat::Ico)).is_none());
    assert_eq!(decode_png(&picture(image::ImageFormat::Png)).unwrap().rgba.len(), 16);
}
