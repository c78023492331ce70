use std::io::Cursor;

use base64::Engine;
use ratty::images::Picture;
use ratty::kitty::{ChunkOutcome, KittyAnchor, KittyImage, KittyOperation, KittyParserState};

fn sequence(header: &str, payload: &[u8]) -> Vec<u8> {
    let mut bytes = b"\x1b_G".to_vec();
    bytes.extend_from_slice(header.as_bytes());
    bytes.push(b';');
    let text = base64::engine::general_purpose::STANDARD.encode(payload);
    bytes.extend_from_slice(text.as_bytes());
    bytes.extend_from_slice(b"\x1b\\");
    bytes
}

fn png(width: u32, height: u32, pixels: &[u8]) -> Vec<u8> {
    let image = image::RgbaImage::from_raw(width, height, pixels.to_vec()).unwrap();
    let mut file = Cursor::new(Vec::new());
    image.write_to(&mut file, image::ImageFormat::Png).unwrap();
    file.into_inner()
}

#[test]
fn raw_rgba_images_are_placed() {
    let mut state = KittyParserState::default();
    let bytes = sequence("a=T,f=32,s=1,v=2,i=7,c=3,r=4", &[1, 2, 3, 4, 5, 6, 7, 8]);
    assert!(state.can_consume(&bytes));
    match state.consume_sequence(&bytes, (5, 6)) {
        Some(KittyOperation::TransmitAndPlace { object_id, image, anchor }) => {
            assert_eq!(object_id, 7);
            assert_eq!((image.width, image.height), (1, 2));
            assert_eq!(image.rgba, vec![1, 2, 3, 4, 5, 6, 7, 8]);
            assert!(!image.uses_placeholders);
            assert_eq!(anchor, KittyAnchor { row: 5, col: 6, columns: 3, rows: 4 });
        }
        _ => panic!("unexpected operation"),
    }
}

#[test]
fn rgb_images_become_opaque() {
    let mut state = KittyParserState::default();
    let bytes = sequence("a=t,f=24,s=2,v=1,U=1", &[1, 2, 3, 4, 5, 6]);
    match state.consume_sequence(&bytes, (0, 0)) {
        Some(KittyOperation::TransmitOnly { object_id, image }) => {
            assert_eq!(object_id, 1);
            assert_eq!(image.rgba, vec![1, 2, 3, 255, 4, 5, 6, 255]);
            assert!(image.uses_placeholders);
        }
        _ => panic!("unexpected operation"),
    }
}

#[test]
fn png_images_are_decoded() {
    let mut state = KittyParserState::default();
    let pixels = [9, 8, 7, 255, 1, 2, 3, 128];
    let bytes = sequence("a=t", &png(2, 1, &pixels));
    match state.consume_sequence(&bytes, (0, 0)) {
        Some(KittyOperation::TransmitOnly { image, .. }) => {
            assert_eq!((image.width, image.height), (2, 1));
            assert_eq!(image.rgba, pixels.to_vec());
        }
        _ => panic!("unexpected operation"),
    }
    let broken = sequence("a=t", b"no picture");
    assert!(state.consume_sequence(&broken, (0, 0)).is_none());
}

#[test]
fn chunks_are_joined() {
    let mut state = KittyParserState::default();
    let first = sequence("a=T,f=32,s=1,v=2,m=1", &[1, 2, 3]);
    let second = sequence("m=1", &[4, 5, 6]);
    let third = sequence("m=0", &[7, 8]);
    assert!(matches!(
        state.consume_sequence(&first, (1, 2)),
        Some(KittyOperation::Pending)
    ));
    assert!(matches!(
        state.consume_sequence(&second, (3, 3)),
        Some(KittyOperation::Pending)
    ));
    match state.consume_sequence(&third, (4, 4)) {
        Some(KittyOperation::TransmitAndPlace { image, anchor, .. }) => {
            assert_eq!(image.rgba, vec![1, 2, 3, 4, 5, 6, 7, 8]);
            assert_eq!(anchor, KittyAnchor { row: 1, col: 2, columns: 1, rows: 1 });
        }
        _ => panic!("unexpected operation"),
    }
}

#[test]
fn identifiers_count_up() {
    let mut state = KittyParserState::default();
    let id = |state: &mut KittyParserState, header: &str| {
        let bytes = sequence(header, &[1, 2, 3, 4]);
        match state.consume_sequence(&bytes, (0, 0)) {
            Some(KittyOperation::TransmitOnly { object_id, .. }) => object_id,
            _ => panic!("unexpected operation"),
        }
    };
    assert_eq!(id(&mut state, "a=t,f=32,s=1,v=1"), 1);
    assert_eq!(id(&mut state, "a=t,f=32,s=1,v=1"), 2);
    assert_eq!(id(&mut state, "a=t,f=32,s=1,v=1,i=40"), 40);
    assert_eq!(id(&mut state, "a=t,f=32,s=1,v=1"), 41);
    assert_eq!(id(&mut state, "a=t,f=32,s=1,v=1,i=3"), 3);
    assert_eq!(id(&mut state, "a=t,f=32,s=1,v=1"), 42);
    let last = sequence("a=t,f=32,s=1,v=1,i=4294967295", &[1, 2, 3, 4]);
    assert!(!state.can_consume(&last));
}

#[test]
fn images_of_the_wrong_size_are_refused() {
    let mut state = KittyParserState::default();
    let short = sequence("a=t,f=32,s=2,v=1", &[1, 2, 3, 4]);
    assert!(state.consume_sequence(&short, (0, 0)).is_none());
    let unsized_image = sequence("a=t,f=32", &[1, 2, 3, 4]);
    assert!(state.consume_sequence(&unsized_image, (0, 0)).is_none());
    let unknown = sequence("a=t,f=7,s=1,v=1", &[1, 2, 3, 4]);
    assert!(state.consume_sequence(&unknown, (0, 0)).is_none());
}

#[test]
fn placements_and_deletions_are_parsed() {
    let mut state = KittyParserState::default();
    match state.consume_sequence(&sequence("a=p,i=5,c=2", b""), (8, 9)) {
        Some(KittyOperation::PlaceExisting { object_id, anchor }) => {
            assert_eq!(object_id, 5);
            assert_eq!(anchor, KittyAnchor { row: 8, col: 9, columns: 2, rows: 1 });
        }
        _ => panic!("unexpected operation"),
    }
    assert!(state.consume_sequence(&sequence("a=p", b""), (0, 0)).is_none());
    assert!(matches!(
        state.consume_sequence(&sequence("a=d,i=+6", b""), (0, 0)),
        Some(KittyOperation::Delete { object_id: Some(6) })
    ));
    assert!(matches!(
        state.consume_sequence(&sequence("a=d,i=x", b""), (0, 0)),
        Some(KittyOperation::Delete { object_id: None })
    ));
    assert!(matches!(
        state.consume_sequence(&sequence("a=q", b""), (0, 0)),
        Some(KittyOperation::Ignored)
    ));
}

#[test]
fn foreign_and_broken_sequences_are_refused() {
    let mut state = KittyParserState::default();
    assert!(state.consume_sequence(b"\x1b_Xa=d;\x1b\\", (0, 0)).is_none());
    assert!(state.consume_sequence(b"\x1b_Ga=d;", (0, 0)).is_none());
    assert!(state.consume_sequence(b"\x1b_Ga=d\x1b\\", (0, 0)).is_none());
    assert!(state.consume_sequence(b"\x1b_G\xff=d;\x1b\\", (0, 0)).is_none());
    assert!(state.consume_sequence(b"\x1b_Ga=t;!!\x1b\\", (0, 0)).is_none());
    assert!(matches!(
        state.consume_sequence(b"\x1b_Ga=d;\x9c", (0, 0)),
        Some(KittyOperation::Delete { object_id: None })
    ));
}

#[test]
fn last_parameter_of_a_key_counts() {
    let mut state = KittyParserState::default();
    assert!(matches!(
        state.consume_sequence(&sequence("a=t,,x,a=d,i=3,i=4", b""), (0, 0)),
        Some(KittyOperation::Delete { object_id: Some(4) })
    ));
}

#[test]
fn decoded_chunks_build_a_transfer() {
    let mut state = KittyParserState::default();
    let header = b"a=t,f=100,m=1";
    assert!(matches!(
        state.add_chunk(header, Some(vec![1, 2]), (0, 0)),
        ChunkOutcome::Pending
    ));
    assert!(matches!(state.add_chunk(b"m=1", None, (0, 0)), ChunkOutcome::Refused));
    match state.add_chunk(b"m=0", Some(vec![3]), (0, 0)) {
        ChunkOutcome::Complete(transfer) => {
            assert_eq!(transfer.bytes, vec![1, 2, 3]);
            assert!(transfer.finalize(None).is_none());
            let picture = Picture { width: 1, height: 1, rgba: vec![5, 6, 7, 8] };
            match transfer.complete(Some(picture)) {
                Some(KittyOperation::TransmitOnly { image, .. }) => {
                    assert_eq!(image.rgba, vec![5, 6, 7, 8]);
                }
                _ => panic!("unexpected operation"),
            }
        }
        _ => panic!("unexpected outcome"),
    }
}

#[test]
fn images_are_rasterized() {
    let image = KittyImage { width: 1, height: 1, rgba: vec![1, 2, 3, 4], uses_placeholders: true };
    let object = image.rasterize::<u8, u8>();
    assert_eq!((object.raster.width, object.raster.height), (1, 1));
    assert_eq!(object.raster.rgba, vec![1, 2, 3, 4]);
    assert!(object.uses_placeholders);
    assert!(object.raster.handle.is_none() && object.plane.is_none());
    assert_eq!(KittyImage::default().rgba.len(), 0);
}

fn outcome(operation: Option<KittyOperation>) -> Option<(u32, Vec<u8>, KittyAnchor)> {
    match operation {
        Some(KittyOperation::TransmitAndPlace { object_id, image, anchor }) => {
            Some((object_id, image.rgba, anchor))
        }
        _ => None,
    }
}

#[test]
fn runs_of_chunks_end_like_one_transfer() {
    let pixels: Vec<u8> = (0..24).collect();
    let header = "a=T,f=32,s=3,v=2,c=4";
    for cuts in [vec![1], vec![4, 4, 9], vec![0, 3, 6, 12, 24], vec![1, 2, 3, 5, 8, 13, 21]] {
        let mut chunked = KittyParserState::default();
        let mut from: usize = 0;
        for (i, cut) in cuts.iter().enumerate() {
            let more = if i == 0 { format!("{header},m=1") } else { "m=1".to_owned() };
            let bytes = sequence(&more, &pixels[from..*cut]);
            let operation = chunked.consume_sequence(&bytes, (i as u16, 7));
            assert!(matches!(operation, Some(KittyOperation::Pending)));
            from = *cut;
        }
        let end = chunked.consume_sequence(&sequence("m=0", &pixels[from..]), (50, 51));
        let mut whole = KittyParserState::default();
        let sent = whole.consume_sequence(&sequence(header, &pixels), (0, 7));
        assert_eq!(outcome(end), outcome(sent));
        let next = sequence("a=T,f=32,s=1,v=1", &[1, 2, 3, 4]);
        let after = outcome(chunked.consume_sequence(&next, (1, 1)));
        assert_eq!(after, outcome(whole.consume_sequence(&next, (1, 1))));
        assert_eq!(after.unwrap().0, 2);
    }
}
