//! Text helpers shared by the parsers and encoders of the crate.

use vstd::prelude::*;
use vstd::string::*;
use vstd::utf8::*;

verus! {

/// `String::push` appends the given character to the end of the string.
pub assume_specification[ String::push ](s: &mut String, c: char)
    ensures
        final(s)@ == old(s)@.push(c),
;

/// Collects the characters of a string.
pub fn chars_of(s: &str) -> (out: Vec<char>)
    ensures
        out@ == s@,
{
    let mut out: Vec<char> = Vec::new();
    for c in it: s.chars()
        invariant
            it.seq() == s@,
            out@ == s@.take(it.index() as int),
    {
        out.push(c);
        assert(s@.take(it.index() + 1) == s@.take(it.index() as int).push(c));
    }
    assert(s@.take(s@.len() as int) == s@);
    out
}

/// Collects characters into a string.
pub fn string_of(chars: &[char]) -> (out: String)
    ensures
        out@ == chars@,
{
    let mut out = String::new();
    let mut i: usize = 0;
    while i < chars.len()
        invariant
            i <= chars.len(),
            out@ == chars@.take(i as int),
        decreases chars.len() - i,
    {
        assert(chars@.take(i + 1) == chars@.take(i as int).push(chars[i as int]));
        out.push(chars[i]);
        i = i + 1;
    }
    assert(chars@.take(chars@.len() as int) == chars@);
    out
}

/// Whether a character has the Unicode `White_Space` property.
pub open spec fn is_space(c: char) -> bool {
    ||| '\u{9}' <= c <= '\u{d}'
    ||| c == ' '
    ||| c == '\u{85}'
    ||| c == '\u{a0}'
    ||| c == '\u{1680}'
    ||| '\u{2000}' <= c <= '\u{200a}'
    ||| c == '\u{2028}'
    ||| c == '\u{2029}'
    ||| c == '\u{202f}'
    ||| c == '\u{205f}'
    ||| c == '\u{3000}'
}

/// Tests a character for the Unicode `White_Space` property.
pub fn char_is_space(c: char) -> (b: bool)
    ensures
        b == is_space(c),
{
    ('\u{9}' <= c && c <= '\u{d}') || c == ' ' || c == '\u{85}' || c == '\u{a0}' || c == '\u{1680}'
        || ('\u{2000}' <= c && c <= '\u{200a}') || c == '\u{2028}' || c == '\u{2029}' || c
        == '\u{202f}' || c == '\u{205f}' || c == '\u{3000}'
}

/// The text without its leading and trailing whitespace.
pub open spec fn trimmed(s: Seq<char>) -> Seq<char>
    decreases s.len(),
{
    if s.len() == 0 {
        s
    } else if is_space(s.first()) {
        trimmed(s.drop_first())
    } else if is_space(s.last()) {
        trimmed(s.drop_last())
    } else {
        s
    }
}

/// The ASCII lowercase of a character; any other character is unchanged.
pub open spec fn lower(c: char) -> char {
    if 'A' <= c <= 'Z' {
        ((c as u32 + 32) as u32) as char
    } else {
        c
    }
}

/// The ASCII lowercase of every character.
pub open spec fn lowered(s: Seq<char>) -> Seq<char> {
    s.map_values(|c: char| lower(c))
}

/// Lowercases an ASCII letter and leaves any other character alone.
pub fn char_lower(c: char) -> (r: char)
    ensures
        r == lower(c),
{
    if 'A' <= c && c <= 'Z' {
        (c as u8 + 32) as char
    } else {
        c
    }
}

/// Removes surrounding whitespace and lowercases ASCII letters.
pub fn normalized_name(s: &[char]) -> (out: Vec<char>)
    ensures
        out@ == lowered(trimmed(s@)),
{
    let mut lo: usize = 0;
    let mut hi: usize = s.len();
    assert(s@.subrange(0, s@.len() as int) == s@);
    while lo < hi && char_is_space(s[lo])
        invariant
            lo <= hi == s.len(),
            trimmed(s@) == trimmed(s@.subrange(lo as int, hi as int)),
        decreases hi - lo,
    {
        assert(s@.subrange(lo as int, hi as int).drop_first() == s@.subrange(lo + 1, hi as int));
        lo = lo + 1;
    }
    while lo < hi && char_is_space(s[hi - 1])
        invariant
            lo <= hi <= s.len(),
            lo < hi ==> !is_space(s[lo as int]),
            trimmed(s@) == trimmed(s@.subrange(lo as int, hi as int)),
        decreases hi - lo,
    {
        assert(s@.subrange(lo as int, hi as int).drop_last() == s@.subrange(lo as int, hi - 1));
        hi = hi - 1;
    }
    let ghost core = s@.subrange(lo as int, hi as int);
    assert(trimmed(s@) == core);
    let mut out: Vec<char> = Vec::new();
    let mut i: usize = lo;
    while i < hi
        invariant
            lo <= i <= hi <= s.len(),
            out@ == lowered(s@.subrange(lo as int, i as int)),
        decreases hi - i,
    {
        out.push(char_lower(s[i]));
        assert(s@.subrange(lo as int, i + 1) == s@.subrange(lo as int, i as int).push(
            s[i as int],
        ));
        assert(out@ =~= lowered(s@.subrange(lo as int, i + 1)));
        i = i + 1;
    }
    out
}

/// Compares collected characters with a string.
pub fn same_text(a: &[char], b: &str) -> (r: bool)
    ensures
        r == (a@ == b@),
{
    let mut i: usize = 0;
    for c in it: b.chars()
        invariant
            it.seq() == b@,
            i == it.index(),
            i <= a.len(),
            a@.take(i as int) == b@.take(i as int),
    {
        if i >= a.len() {
            assert(a@.len() < b@.len());
            return false;
        }
        if a[i] != c {
            assert(a@[i as int] != b@[i as int]);
            return false;
        }
        assert(a@.take(i + 1) == a@.take(i as int).push(c));
        assert(b@.take(i + 1) == b@.take(i as int).push(c));
        i = i + 1;
    }
    assert(b@.take(i as int) == b@);
    if i < a.len() {
        assert(a@.len() != b@.len());
        false
    } else {
        assert(a@.take(i as int) == a@);
        true
    }
}

proof fn lemma_char_is_not_negative(c: char)
    ensures
        '\0' <= c,
{
}

/// An ASCII character at the head of a text is encoded as one byte.
pub proof fn lemma_ascii_head(chars: Seq<char>)
    requires
        chars.len() > 0,
        chars[0] <= '\u{7f}',
    ensures
        encode_utf8(chars) == seq![chars[0] as u8] + encode_utf8(chars.drop_first()),
{
    let head = seq![chars[0]];
    lemma_char_is_not_negative(chars[0]);
    is_ascii_chars_encode_utf8(head);
    assert(head.drop_first() =~= Seq::<char>::empty());
    assert(encode_utf8(head.drop_first()) =~= Seq::<u8>::empty());
    assert(encode_utf8(head) =~= encode_scalar(chars[0] as u32));
    assert(encode_utf8(head) =~= seq![chars[0] as u8]);
}

/// A trimmed text neither starts nor ends with whitespace, and what was taken off
/// its ends is whitespace alone.
pub proof fn trimming_takes_surrounding_space(text: Seq<char>) -> (ends: (int, int))
    ensures
        0 <= ends.0 <= ends.1 <= text.len(),
        trimmed(text) == text.subrange(ends.0, ends.1),
        forall|i: int| 0 <= i < ends.0 ==> is_space(#[trigger] text[i]),
        forall|i: int| ends.1 <= i < text.len() ==> is_space(#[trigger] text[i]),
        trimmed(text).len() > 0 ==> !is_space(trimmed(text).first()) && !is_space(
            trimmed(text).last(),
        ),
    decreases text.len(),
{
    if text.len() == 0 {
        assert(text =~= text.subrange(0, 0));
        (0, 0)
    } else if is_space(text.first()) {
        let rest = text.drop_first();
        let (low, high) = trimming_takes_surrounding_space(rest);
        assert(rest.subrange(low, high) =~= text.subrange(low + 1, high + 1));
        assert forall|i: int| 0 <= i < low + 1 implies is_space(#[trigger] text[i]) by {
            if i > 0 {
                assert(rest[i - 1] == text[i]);
            }
        }
        assert forall|i: int| high + 1 <= i < text.len() implies is_space(#[trigger] text[i]) by {
            assert(rest[i - 1] == text[i]);
        }
        (low + 1, high + 1)
    } else if is_space(text.last()) {
        let rest = text.drop_last();
        let (low, high) = trimming_takes_surrounding_space(rest);
        assert(rest.subrange(low, high) =~= text.subrange(low, high));
        assert forall|i: int| 0 <= i < low implies is_space(#[trigger] text[i]) by {
            assert(rest[i] == text[i]);
        }
        assert forall|i: int| high <= i < text.len() implies is_space(#[trigger] text[i]) by {
            if i < rest.len() {
                assert(rest[i] == text[i]);
            }
        }
        (low, high)
    } else {
        assert(text =~= text.subrange(0, text.len() as int));
        (0, text.len() as int)
    }
}

/// Whitespace by its code points: tab to carriage return, space, next line, the
/// spaces of other scripts, and the line and paragraph separators.
pub proof fn whitespace_code_points(c: char)
    ensures
        is_space(c) <==> ({
            let point = c as u32;
            ||| 9 <= point <= 13
            ||| point == 32
            ||| point == 133
            ||| point == 160
            ||| point == 5760
            ||| 8192 <= point <= 8202
            ||| point == 8232
            ||| point == 8233
            ||| point == 8239
            ||| point == 8287
            ||| point == 12288
        }),
{
}

/// Lowercase maps the letters of the alphabet in order, and nothing else.
pub proof fn lowercase_maps_letters_in_order(c: char)
    ensures
        65 <= c as u32 <= 90 ==> lower(c) as u32 == c as u32 + 32,
        !(65 <= c as u32 <= 90) ==> lower(c) == c,
        lowered(seq![c]) == seq![lower(c)],
{
    assert(lowered(seq![c]) =~= seq![lower(c)]);
}

/// The lowercase of a text is the lowercase of its parts.
pub proof fn lowercase_goes_by_characters(left: Seq<char>, right: Seq<char>)
    ensures
        lowered(left + right) == lowered(left) + lowered(right),
        lowered(left).len() == left.len(),
{
    assert(lowered(left + right) =~= lowered(left) + lowered(right));
}

/// Whitespace around a text does not change what it is trimmed to.
pub proof fn trimming_ignores_surrounding_space(before: Seq<char>, text: Seq<char>, after: Seq<char>)
    requires
        forall|i: int| 0 <= i < before.len() ==> is_space(#[trigger] before[i]),
        forall|i: int| 0 <= i < after.len() ==> is_space(#[trigger] after[i]),
    ensures
        trimmed(before + text + after) == trimmed(text),
    decreases before.len() + after.len(),
{
    let whole = before + text + after;
    if before.len() > 0 {
        assert(whole.first() == before[0]);
        assert(whole.drop_first() =~= before.drop_first() + text + after);
        trimming_ignores_surrounding_space(before.drop_first(), text, after);
    } else if after.len() > 0 {
        let less = after.drop_last();
        assert(whole.last() == after.last());
        assert(is_space(after[after.len() - 1]));
        assert(whole.drop_last() =~= before + text + less);
        trimming_ignores_surrounding_space(before, text, less);
        lemma_trimmed_end(whole);
    } else {
        assert(whole =~= text);
    }
}

/// Whitespace at the end of a text is trimmed, whatever stands at its head.
proof fn lemma_trimmed_end(text: Seq<char>)
    requires
        text.len() > 0,
        is_space(text.last()),
    ensures
        trimmed(text) == trimmed(text.drop_last()),
    decreases text.len(),
{
    if is_space(text.first()) {
        if text.len() == 1 {
            assert(text.drop_first() =~= text.drop_last());
        } else {
            lemma_trimmed_end(text.drop_first());
            assert(text.drop_first().drop_last() =~= text.drop_last().drop_first());
            assert(text.drop_last().first() == text.first());
        }
    }
}

} // verus!
