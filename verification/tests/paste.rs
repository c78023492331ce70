use ratty::paste::encode_paste;

#[test]
fn bracketed_paste_wraps_payload_in_markers() {
    assert_eq!(
        encode_paste("echo hi", true),
        b"\x1b[200~echo hi\x1b[201~".to_vec()
    );
}

#[test]
fn bracketed_paste_normalizes_newlines() {
    assert_eq!(
        encode_paste("one\r\ntwo\rthree\n", true),
        b"\x1b[200~one\ntwo\nthree\n\x1b[201~".to_vec()
    );
}

#[test]
fn bracketed_paste_strips_control_introducers() {
    // A 7-bit ESC or 8-bit CSI end marker embedded in the payload must be
    // neutralized so the paste cannot terminate its own bracket.
    assert_eq!(
        encode_paste("before\x1b[201~after", true),
        b"\x1b[200~before[201~after\x1b[201~".to_vec()
    );
    assert_eq!(
        encode_paste("before\u{9b}201~after", true),
        b"\x1b[200~before201~after\x1b[201~".to_vec()
    );
}

#[test]
fn plain_paste_sends_no_markers() {
    assert_eq!(encode_paste("echo hi", false), b"echo hi".to_vec());
}

#[test]
fn plain_paste_sends_newlines_as_carriage_returns() {
    assert_eq!(
        encode_paste("one\r\ntwo\nthree", false),
        b"one\rtwo\rthree".to_vec()
    );
}

#[test]
fn plain_paste_keeps_control_introducers() {
    assert_eq!(encode_paste("a\x1bb", false), b"a\x1bb".to_vec());
    assert_eq!(encode_paste("\r\r\n\n", false), b"\r\r\r".to_vec());
}

#[test]
fn pasted_text_is_sent_as_utf8() {
    assert_eq!(encode_paste("é→𝄞", false), "é→𝄞".as_bytes().to_vec());
    assert_eq!(encode_paste("", true), b"\x1b[200~\x1b[201~".to_vec());
    assert_eq!(encode_paste("", false), b"".to_vec());
}

#[test]
fn sanitized_pastes_hold_no_escape_between_the_markers() {
    let bytes = encode_paste("\x1b\x1b[201~\u{9b}\r\n\u{11b}", true);
    let payload = &bytes[6..bytes.len() - 6];
    assert!(!payload.contains(&0x1b));
    assert_eq!(payload, "[201~\n\u{11b}".as_bytes());
}
