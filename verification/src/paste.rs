//! Encoding of pasted text.

use vstd::prelude::*;
use vstd::string::*;
use vstd::utf8::*;

use crate::text::{chars_of, lemma_ascii_head, string_of};

verus! {

/// Bracketed paste start marker (DECSET 2004).
pub const PASTE_START: [u8; 6] = [0x1b, 0x5b, 0x32, 0x30, 0x30, 0x7e];

/// Bracketed paste end marker.
pub const PASTE_END: [u8; 6] = [0x1b, 0x5b, 0x32, 0x30, 0x31, 0x7e];

/// The text with every line break, in whichever of the three common forms,
/// written as the given character.
pub open spec fn with_line_breaks(text: Seq<char>, line_break: char) -> Seq<char>
    decreases text.len(),
{
    if text.len() == 0 {
        text
    } else if text.len() > 1 && text[0] == '\r' && text[1] == '\n' {
        seq![line_break] + with_line_breaks(text.skip(2), line_break)
    } else if text[0] == '\r' || text[0] == '\n' {
        seq![line_break] + with_line_breaks(text.skip(1), line_break)
    } else {
        seq![text[0]] + with_line_breaks(text.skip(1), line_break)
    }
}

/// Whether a character introduces control sequences: the 7-bit `ESC` and the
/// 8-bit `CSI`.
pub open spec fn is_introducer(c: char) -> bool {
    c == '\u{1b}' || c == '\u{9b}'
}

/// The text without control introducers.
pub open spec fn without_introducers(text: Seq<char>) -> Seq<char> {
    text.filter(|c: char| !is_introducer(c))
}

/// The text between the markers of a bracketed paste.
pub open spec fn bracketed_payload(text: Seq<char>) -> Seq<char> {
    without_introducers(with_line_breaks(text, '\n'))
}

/// The bytes that a paste sends.
pub open spec fn paste_bytes(text: Seq<char>, bracketed: bool) -> Seq<u8> {
    if bracketed {
        PASTE_START@ + encode_utf8(bracketed_payload(text)) + PASTE_END@
    } else {
        encode_utf8(with_line_breaks(text, '\r'))
    }
}

/// Writes every line break as the given character.
fn write_line_breaks(text: &[char], line_break: char) -> (out: Vec<char>)
    ensures
        out@ == with_line_breaks(text@, line_break),
{
    let mut out: Vec<char> = Vec::new();
    let mut i: usize = 0;
    assert(text@.skip(0) =~= text@);
    while i < text.len()
        invariant
            i <= text.len(),
            out@ + with_line_breaks(text@.skip(i as int), line_break) =~= with_line_breaks(
                text@,
                line_break,
            ),
        decreases text.len() - i,
    {
        let c: char = text[i];
        let ghost rest = text@.skip(i as int);
        assert(rest.skip(1) =~= text@.skip(i + 1));
        if c == '\r' && i + 1 < text.len() && text[i + 1] == '\n' {
            assert(rest.skip(2) =~= text@.skip(i + 2));
            out.push(line_break);
            i = i + 2;
        } else if c == '\r' || c == '\n' {
            out.push(line_break);
            i = i + 1;
        } else {
            out.push(c);
            i = i + 1;
        }
    }
    assert(text@.skip(i as int) =~= Seq::<char>::empty());
    out
}

/// Drops control introducers.
fn drop_introducers(text: &[char]) -> (out: Vec<char>)
    ensures
        out@ == without_introducers(text@),
{
    let mut out: Vec<char> = Vec::new();
    let mut i: usize = 0;
    while i < text.len()
        invariant
            i <= text.len(),
            out@ == without_introducers(text@.take(i as int)),
        decreases text.len() - i,
    {
        let c: char = text[i];
        assert(text@.take(i + 1).drop_last() =~= text@.take(i as int));
        reveal(Seq::filter);
        if c != '\u{1b}' && c != '\u{9b}' {
            out.push(c);
        }
        i = i + 1;
    }
    assert(text@.take(i as int) =~= text@);
    out
}

/// Encodes clipboard text as terminal input, wrapping it in bracketed paste
/// markers when DECSET 2004 is active. Control introducers are dropped from
/// bracketed payloads so that a paste can never terminate its own bracket.
pub fn encode_paste(text: &str, bracketed: bool) -> (bytes: Vec<u8>)
    ensures
        bytes@ == paste_bytes(text@, bracketed),
{
    let chars: Vec<char> = chars_of(text);
    let mut bytes: Vec<u8> = Vec::new();
    if bracketed {
        let normalized: Vec<char> = write_line_breaks(chars.as_slice(), '\n');
        let sanitized: String = string_of(drop_introducers(normalized.as_slice()).as_slice());
        bytes.extend_from_slice(PASTE_START.as_slice());
        bytes.extend_from_slice(sanitized.as_str().as_bytes());
        bytes.extend_from_slice(PASTE_END.as_slice());
        assert(bytes@ =~= paste_bytes(text@, true));
    } else {
        let normalized: String = string_of(write_line_breaks(chars.as_slice(), '\r').as_slice());
        bytes.extend_from_slice(normalized.as_str().as_bytes());
        assert(bytes@ =~= paste_bytes(text@, false));
    }
    bytes
}

proof fn lemma_escape_free_scalar(c: char)
    requires
        c != '\u{1b}',
    ensures
        forall|k: int| 0 <= k < encode_scalar(c as u32).len() ==> #[trigger] encode_scalar(
            c as u32,
        )[k] != 0x1b,
{
    let text = seq![c];
    let bytes = encode_utf8(text);
    let head = encode_scalar(c as u32);
    assert(encode_utf8(text.drop_first()) =~= Seq::<u8>::empty());
    assert(bytes =~= head);
    encode_utf8_first_scalar(text);
    if c <= '\u{7f}' {
        lemma_ascii_head(text);
        assert(head =~= seq![c as u8]);
    } else {
        let first = bytes[0];
        assert((first & 0x7f) <= 0x7f) by (bit_vector);
        assert(!is_leading_byte_width_1(first));
    }
}

proof fn lemma_no_escape_byte(chars: Seq<char>)
    requires
        forall|i: int| 0 <= i < chars.len() ==> #[trigger] chars[i] != '\u{1b}',
    ensures
        forall|k: int| 0 <= k < encode_utf8(chars).len() ==> #[trigger] encode_utf8(chars)[k]
            != 0x1b,
    decreases chars.len(),
{
    if chars.len() > 0 {
        let bytes = encode_utf8(chars);
        let rest = chars.drop_first();
        assert forall|i: int| 0 <= i < rest.len() implies #[trigger] rest[i] != '\u{1b}' by {
            assert(rest[i] == chars[i + 1]);
        }
        lemma_no_escape_byte(rest);
        let head = encode_scalar(chars[0] as u32);
        assert(bytes =~= head + encode_utf8(rest));
        lemma_escape_free_scalar(chars[0]);
        assert forall|k: int| 0 <= k < bytes.len() implies #[trigger] bytes[k] != 0x1b by {
            if k >= head.len() {
                assert(bytes[k] == encode_utf8(rest)[k - head.len()]);
            } else {
                assert(bytes[k] == head[k]);
            }
        }
    }
}

proof fn lemma_payload_has_no_introducers(text: Seq<char>)
    ensures
        forall|i: int| 0 <= i < without_introducers(text).len() ==> !is_introducer(
            #[trigger] without_introducers(text)[i],
        ),
    decreases text.len(),
{
    reveal(Seq::filter);
    if text.len() > 0 {
        lemma_payload_has_no_introducers(text.drop_last());
    }
}

/// A bracketed paste cannot terminate its own bracket: no escape byte and no
/// 8-bit control introducer occurs between the markers, and the end marker
/// occurs nowhere but at the very end.
pub proof fn bracketed_paste_is_contained(text: Seq<char>, at: int)
    requires
        0 <= at <= paste_bytes(text, true).len() - 6,
    ensures
        !encode_utf8(bracketed_payload(text)).contains(0x1b),
        !bracketed_payload(text).contains('\u{9b}'),
        paste_bytes(text, true).subrange(at, at + 6) == PASTE_END@ ==> at == paste_bytes(
            text,
            true,
        ).len() - 6,
{
    let payload = bracketed_payload(text);
    lemma_payload_has_no_introducers(with_line_breaks(text, '\n'));
    assert forall|i: int| 0 <= i < payload.len() implies #[trigger] payload[i] != '\u{1b}' by {
        assert(!is_introducer(payload[i]));
    }
    lemma_no_escape_byte(payload);
    let body = encode_utf8(payload);
    let bytes = paste_bytes(text, true);
    if bytes.subrange(at, at + 6) == PASTE_END@ && at != bytes.len() - 6 {
        assert(bytes.subrange(at, at + 6)[0] == bytes[at]);
        assert(bytes[at] == 0x1b);
        if at < 6 {
            assert(bytes[at] == PASTE_START@[at]);
            assert(at == 0);
            assert(bytes.subrange(0, 6)[4] == PASTE_START@[4]);
        } else if at < 6 + body.len() {
            assert(bytes[at] == body[at - 6]);
        } else {
            assert(bytes[at] == PASTE_END@[at - 6 - body.len()]);
        }
        assert(false);
    }
}

/// Writing line breaks in one form leaves none of another form behind, and
/// doing it again changes nothing.
pub proof fn line_breaks_are_uniform(text: Seq<char>, line_break: char)
    requires
        line_break == '\r' || line_break == '\n',
    ensures
        forall|i: int| 0 <= i < with_line_breaks(text, line_break).len() ==> (
        #[trigger] with_line_breaks(text, line_break)[i] == '\r' || with_line_breaks(
            text,
            line_break,
        )[i] == '\n' ==> with_line_breaks(text, line_break)[i] == line_break),
        with_line_breaks(with_line_breaks(text, line_break), line_break) == with_line_breaks(
            text,
            line_break,
        ),
    decreases text.len(),
{
    let out = with_line_breaks(text, line_break);
    if text.len() > 0 {
        let used: int = if text.len() > 1 && text[0] == '\r' && text[1] == '\n' {
            2
        } else {
            1
        };
        let rest = with_line_breaks(text.skip(used), line_break);
        line_breaks_are_uniform(text.skip(used), line_break);
        assert(out.skip(1) =~= rest);
        assert forall|i: int| 0 <= i < out.len() implies (#[trigger] out[i] == '\r' || out[i] == '\n'
            ==> out[i] == line_break) by {
            if i > 0 {
                assert(out[i] == rest[i - 1]);
            }
        }
        if out.len() > 1 {
            assert(out[1] == rest[0]);
        }
        assert(with_line_breaks(out, line_break) =~= out);
    }
}

proof fn lemma_plain_line(text: Seq<char>, line_break: char)
    requires
        forall|i: int| 0 <= i < text.len() ==> #[trigger] text[i] != '\r' && text[i] != '\n',
    ensures
        with_line_breaks(text, line_break) == text,
    decreases text.len(),
{
    if text.len() > 0 {
        assert forall|i: int| 0 <= i < text.skip(1).len() implies #[trigger] text.skip(1)[i]
            != '\r' && text.skip(1)[i] != '\n' by {
            assert(text.skip(1)[i] == text[i + 1]);
        }
        lemma_plain_line(text.skip(1), line_break);
        assert(text[0] != '\r');
        assert(with_line_breaks(text, line_break) =~= text);
    }
}

/// Without bracketed paste, a text without line breaks is sent as it is.
pub proof fn plain_paste_is_verbatim(text: Seq<char>)
    requires
        forall|i: int| 0 <= i < text.len() ==> #[trigger] text[i] != '\r' && text[i] != '\n',
    ensures
        paste_bytes(text, false) == encode_utf8(text),
{
    lemma_plain_line(text, '\r');
}

proof fn lemma_encoded_parts(left: Seq<char>, right: Seq<char>)
    ensures
        encode_utf8(left + right) == encode_utf8(left) + encode_utf8(right),
    decreases left.len(),
{
    if left.len() == 0 {
        assert(left + right =~= right);
        assert(encode_utf8(left) + encode_utf8(right) =~= encode_utf8(right));
    } else {
        let head = encode_scalar(left[0] as u32);
        assert((left + right).drop_first() =~= left.drop_first() + right);
        lemma_encoded_parts(left.drop_first(), right);
        assert(head + (encode_utf8(left.drop_first()) + encode_utf8(right)) =~= head + encode_utf8(
            left.drop_first(),
        ) + encode_utf8(right));
    }
}

proof fn lemma_line_then_rest(line: Seq<char>, rest: Seq<char>, line_break: char)
    requires
        forall|i: int| 0 <= i < line.len() ==> #[trigger] line[i] != '\r' && line[i] != '\n',
    ensures
        with_line_breaks(line + rest, line_break) == line + with_line_breaks(rest, line_break),
    decreases line.len(),
{
    if line.len() == 0 {
        assert(line + rest =~= rest);
        assert(line + with_line_breaks(rest, line_break) =~= with_line_breaks(rest, line_break));
    } else {
        let tail = line.skip(1);
        assert forall|i: int| 0 <= i < tail.len() implies #[trigger] tail[i] != '\r' && tail[i]
            != '\n' by {
            assert(tail[i] == line[i + 1]);
        }
        lemma_line_then_rest(tail, rest, line_break);
        assert((line + rest)[0] == line[0]);
        assert((line + rest).skip(1) =~= tail + rest);
        assert(seq![line[0]] + (tail + with_line_breaks(rest, line_break)) =~= line
            + with_line_breaks(rest, line_break));
    }
}

/// Each line break is written once, whichever of the three forms it has: a carriage
/// return with a line feed behind it, a line feed, or a carriage return alone. The
/// text before it stays as it is.
pub proof fn each_line_break_is_written_once(line: Seq<char>, rest: Seq<char>, line_break: char)
    requires
        forall|i: int| 0 <= i < line.len() ==> #[trigger] line[i] != '\r' && line[i] != '\n',
    ensures
        with_line_breaks(line + seq!['\r', '\n'] + rest, line_break) == line.push(line_break)
            + with_line_breaks(rest, line_break),
        with_line_breaks(line + seq!['\n'] + rest, line_break) == line.push(line_break)
            + with_line_breaks(rest, line_break),
        rest.len() == 0 || rest[0] != '\n' ==> with_line_breaks(
            line + seq!['\r'] + rest,
            line_break,
        ) == line.push(line_break) + with_line_breaks(rest, line_break),
{
    let written = line.push(line_break) + with_line_breaks(rest, line_break);
    assert(line + (seq![line_break] + with_line_breaks(rest, line_break)) =~= written);
    let both = seq!['\r', '\n'] + rest;
    let feed = seq!['\n'] + rest;
    let carriage = seq!['\r'] + rest;
    assert(line + seq!['\r', '\n'] + rest =~= line + both);
    assert(line + seq!['\n'] + rest =~= line + feed);
    assert(line + seq!['\r'] + rest =~= line + carriage);
    lemma_line_then_rest(line, both, line_break);
    lemma_line_then_rest(line, feed, line_break);
    lemma_line_then_rest(line, carriage, line_break);
    assert(both.skip(2) =~= rest);
    assert(feed.skip(1) =~= rest);
    assert(carriage.skip(1) =~= rest);
    if rest.len() > 0 {
        assert(carriage[1] == rest[0]);
    }
}

/// The lines of a text that is pasted without brackets are sent as they are, with a
/// carriage return for each line break between them.
pub proof fn plain_lines_end_in_carriage_returns(line: Seq<char>, rest: Seq<char>)
    requires
        forall|i: int| 0 <= i < line.len() ==> #[trigger] line[i] != '\r' && line[i] != '\n',
    ensures
        paste_bytes(line + seq!['\n'] + rest, false) == encode_utf8(line).push(0x0d)
            + paste_bytes(rest, false),
        paste_bytes(line + seq!['\r', '\n'] + rest, false) == encode_utf8(line).push(0x0d)
            + paste_bytes(rest, false),
        paste_bytes(Seq::empty(), false) == Seq::<u8>::empty(),
{
    each_line_break_is_written_once(line, rest, '\r');
    lemma_encoded_parts(line.push('\r'), with_line_breaks(rest, '\r'));
    assert(line.push('\r') =~= line + seq!['\r']);
    lemma_encoded_parts(line, seq!['\r']);
    lemma_ascii_head(seq!['\r']);
    assert(seq!['\r'].drop_first() =~= Seq::<char>::empty());
    assert(encode_utf8(seq!['\r'].drop_first()) =~= Seq::<u8>::empty());
    assert(encode_utf8(seq!['\r']) =~= seq![0x0du8]);
    assert(encode_utf8(line) + seq![0x0du8] =~= encode_utf8(line).push(0x0d));
}

/// Dropping control introducers goes by characters: it keeps every other character
/// in its place among the rest, and takes out `U+001B` and `U+009B` alone.
pub proof fn introducers_alone_are_dropped(before: Seq<char>, c: char, after: Seq<char>)
    ensures
        c as u32 == 0x1b || c as u32 == 0x9b ==> without_introducers(before.push(c) + after)
            == without_introducers(before) + without_introducers(after),
        c as u32 != 0x1b && c as u32 != 0x9b ==> without_introducers(before.push(c) + after)
            == without_introducers(before).push(c) + without_introducers(after),
        without_introducers(Seq::empty()) == Seq::<char>::empty(),
{
    let kept = |c: char| !is_introducer(c);
    Seq::filter_distributes_over_add(before.push(c), after, kept);
    reveal(Seq::filter);
    assert(before.push(c).drop_last() =~= before);
}

/// A bracketed paste starts with `ESC [ 2 0 0 ~` and ends with `ESC [ 2 0 1 ~`.
pub proof fn bracketed_pastes_are_marked(text: Seq<char>)
    ensures
        ({
            let bytes = paste_bytes(text, true);
            &&& bytes.len() == 12 + encode_utf8(bracketed_payload(text)).len()
            &&& bytes.take(6) == seq![0x1bu8, 0x5b, 0x32, 0x30, 0x30, 0x7e]
            &&& bytes.skip(bytes.len() - 6) == seq![0x1bu8, 0x5b, 0x32, 0x30, 0x31, 0x7e]
            &&& bytes.subrange(6, bytes.len() - 6) == encode_utf8(bracketed_payload(text))
        }),
{
    let bytes = paste_bytes(text, true);
    let body = encode_utf8(bracketed_payload(text));
    assert(bytes.take(6) =~= seq![0x1bu8, 0x5b, 0x32, 0x30, 0x30, 0x7e]);
    assert(bytes.skip(bytes.len() - 6) =~= seq![0x1bu8, 0x5b, 0x32, 0x30, 0x31, 0x7e]);
    assert(bytes.subrange(6, bytes.len() - 6) =~= body);
}

proof fn lemma_plain_text_is_kept(text: Seq<char>)
    requires
        forall|i: int| 0 <= i < text.len() ==> #[trigger] text[i] != '\u{1b}' && text[i] != '\u{9b}',
    ensures
        without_introducers(text) == text,
    decreases text.len(),
{
    reveal(Seq::filter);
    if text.len() > 0 {
        let rest = text.drop_last();
        assert forall|i: int| 0 <= i < rest.len() implies #[trigger] rest[i] != '\u{1b}' && rest[i]
            != '\u{9b}' by {
            assert(rest[i] == text[i]);
        }
        lemma_plain_text_is_kept(rest);
        assert(text.last() == text[text.len() - 1]);
        assert(rest.push(text.last()) =~= text);
    } else {
        assert(without_introducers(text) =~= text);
    }
}

/// Between the markers, the lines of a text without control introducers stand as
/// they are, with a line feed for each line break between them.
pub proof fn bracketed_lines_end_in_line_feeds(line: Seq<char>, rest: Seq<char>)
    requires
        forall|i: int|
            0 <= i < line.len() ==> #[trigger] line[i] != '\r' && line[i] != '\n' && line[i]
                != '\u{1b}' && line[i] != '\u{9b}',
    ensures
        bracketed_payload(line) == line,
        bracketed_payload(line + seq!['\n'] + rest) == line.push('\n') + bracketed_payload(rest),
        bracketed_payload(line + seq!['\r', '\n'] + rest) == line.push('\n')
            + bracketed_payload(rest),
{
    lemma_plain_line(line, '\n');
    lemma_plain_text_is_kept(line);
    each_line_break_is_written_once(line, rest, '\n');
    let kept = |c: char| !is_introducer(c);
    Seq::filter_distributes_over_add(line.push('\n'), with_line_breaks(rest, '\n'), kept);
    lemma_plain_text_is_kept(line.push('\n'));
}

} // verus!
