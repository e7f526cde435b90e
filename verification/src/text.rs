//! Text: what the bytes of a body read as, the removal of colour codes from
//! it, and integers in decimal.

use vstd::prelude::*;
use vstd::utf8::{
    char_u32_cast, decode_utf8, encode_scalar, encode_utf8, encode_utf8_decode_utf8,
    has_width_1_encoding, is_ascii_chars, is_ascii_chars_encode_utf8, leading_byte_width_2,
    leading_byte_width_3, leading_byte_width_4, valid_utf8,
};
use crate::config::COLOR_CODE_MARKER;

verus! {

/// The text without its colour codes. A colour code is the marker character
/// and the character after it; a marker that ends the text is a code too.
pub open spec fn strip_color_codes(s: Seq<char>) -> Seq<char>
    decreases s.len(),
{
    if s.len() == 0 {
        Seq::empty()
    } else if s[0] == COLOR_CODE_MARKER {
        if s.len() == 1 {
            Seq::empty()
        } else {
            strip_color_codes(s.skip(2))
        }
    } else {
        seq![s[0]] + strip_color_codes(s.skip(1))
    }
}

/// What is left to come out of `rest` when its first character may belong
/// to a colour code that began just before it.
spec fn strip_rest(rest: Seq<char>, in_code: bool) -> Seq<char> {
    if in_code && rest.len() > 0 {
        strip_color_codes(rest.skip(1))
    } else if in_code {
        Seq::empty()
    } else {
        strip_color_codes(rest)
    }
}

/// `String::push`: appends one character.
pub assume_specification[ String::push ](s: &mut String, ch: char)
    ensures
        final(s)@ == old(s)@.push(ch),
;

/// Removes the colour codes from a text.
pub fn replace_color_codes(s: String) -> (filtered: String)
    ensures
        filtered@ == strip_color_codes(s@),
{
    let mut filtered = String::new();
    let mut in_code = false;
    proof {
        assert(s@.skip(0) == s@);
    }
    for ch in it: s.as_str().chars()
        invariant
            it.seq() == s@,
            strip_color_codes(s@) == filtered@ + strip_rest(s@.skip(it.index()), in_code),
    {
        proof {
            let i: int = it.index();
            assert(s@.skip(i).skip(1) == s@.skip(i + 1));
            if i + 2 <= s@.len() {
                assert(s@.skip(i).skip(2) == s@.skip(i + 1).skip(1));
            }
        }
        if in_code {
            in_code = false;
        } else if ch == COLOR_CODE_MARKER {
            in_code = true;
        } else {
            filtered.push(ch);
        }
    }
    filtered
}

/// `core::str::from_utf8`: bytes read as text. The call succeeds on valid
/// UTF-8 and on nothing else, and the text it gives is the one that those
/// bytes encode.
#[verifier::external_body]
pub(crate) fn str_from_utf8(bytes: &[u8]) -> (text: Option<&str>)
    ensures
        text is Some <==> valid_utf8(bytes@),
        text matches Some(t) ==> encode_utf8(t@) == bytes@,
{
    core::str::from_utf8(bytes).ok()
}

/// The text that raw body bytes read as: the characters that they encode
/// as UTF-8, and no text at all where they are not valid UTF-8.
pub open spec fn decoded_text(raw: Seq<u8>) -> Seq<char> {
    if valid_utf8(raw) {
        decode_utf8(raw)
    } else {
        Seq::empty()
    }
}

/// The text that raw body bytes are shown as: what they read as, without
/// colour codes.
pub open spec fn display_text(raw: Seq<u8>) -> Seq<char> {
    strip_color_codes(decoded_text(raw))
}

/// Reads raw body bytes as text for display. Bytes that are not valid UTF-8
/// give an empty text; the caller still holds the bytes.
pub fn text_for_display(raw: &[u8]) -> (text: String)
    ensures
        text@ == display_text(raw@),
{
    let decoded = match str_from_utf8(raw) {
        Some(t) => {
            proof {
                encode_utf8_decode_utf8(t@);
            }
            t.to_owned()
        },
        None => String::new(),
    };
    replace_color_codes(decoded)
}

/// True when the marker character does not occur in the text.
pub open spec fn has_no_marker(s: Seq<char>) -> bool {
    forall|i: int| 0 <= i < s.len() ==> s[i] != COLOR_CODE_MARKER
}

/// A text without the marker character passes through unchanged.
pub proof fn lemma_strip_plain_text(s: Seq<char>)
    requires
        has_no_marker(s),
    ensures
        strip_color_codes(s) == s,
    decreases s.len(),
{
    if s.len() > 0 {
        lemma_strip_plain_text(s.skip(1));
    }
}

/// Where the marker character is followed by any character, both are
/// removed: what stands before them, free of markers, is kept as it is, and
/// what stands after them is treated on its own.
pub proof fn lemma_strip_removes_code(before: Seq<char>, code: char, after: Seq<char>)
    requires
        has_no_marker(before),
    ensures
        strip_color_codes(before + seq![COLOR_CODE_MARKER, code] + after) == before
            + strip_color_codes(after),
    decreases before.len(),
{
    let s = before + seq![COLOR_CODE_MARKER, code] + after;
    if before.len() == 0 {
        assert(s.skip(2) == after);
    } else {
        let shorter = before.skip(1);
        lemma_strip_removes_code(shorter, code, after);
        assert(s.skip(1) == shorter + seq![COLOR_CODE_MARKER, code] + after);
    }
}

/// A marker character that ends the text is removed with nothing after it.
pub proof fn lemma_strip_removes_final_marker(before: Seq<char>)
    requires
        has_no_marker(before),
    ensures
        strip_color_codes(before.push(COLOR_CODE_MARKER)) == before,
    decreases before.len(),
{
    let s = before.push(COLOR_CODE_MARKER);
    if before.len() > 0 {
        let shorter = before.skip(1);
        lemma_strip_removes_final_marker(shorter);
        assert(s.skip(1) == shorter.push(COLOR_CODE_MARKER));
    }
}

/// The result holds no marker character and is no longer than the text.
pub proof fn lemma_strip_leaves_no_marker(s: Seq<char>)
    ensures
        has_no_marker(strip_color_codes(s)),
        strip_color_codes(s).len() <= s.len(),
    decreases s.len(),
{
    if s.len() == 0 {
    } else if s[0] == COLOR_CODE_MARKER {
        if s.len() > 1 {
            lemma_strip_leaves_no_marker(s.skip(2));
        }
    } else {
        lemma_strip_leaves_no_marker(s.skip(1));
    }
}

/// Removing colour codes a second time changes nothing.
pub proof fn lemma_strip_is_idempotent(s: Seq<char>)
    ensures
        strip_color_codes(strip_color_codes(s)) == strip_color_codes(s),
{
    lemma_strip_leaves_no_marker(s);
    lemma_strip_plain_text(strip_color_codes(s));
}

/// True when every byte is below `0x80`.
pub open spec fn is_ascii_bytes(bytes: Seq<u8>) -> bool {
    forall|i: int| 0 <= i < bytes.len() ==> bytes[i] < 0x80
}

/// The first byte of an encoding of two bytes or more is `0x80` or more.
proof fn lemma_wide_leading_byte(c: u32)
    by (bit_vector)
    ensures
        leading_byte_width_2(c) >= 0x80,
        leading_byte_width_3(c) >= 0x80,
        leading_byte_width_4(c) >= 0x80,
{
}

/// A text is ASCII exactly when none of its UTF-8 bytes is `0x80` or more.
pub proof fn lemma_ascii_text_has_ascii_bytes(s: Seq<char>)
    ensures
        is_ascii_chars(s) <==> is_ascii_bytes(encode_utf8(s)),
    decreases s.len(),
{
    if is_ascii_chars(s) {
        is_ascii_chars_encode_utf8(s);
    } else if s.len() > 0 {
        let c: u32 = s[0] as u32;
        let first = encode_scalar(c);
        let rest = s.drop_first();
        let bytes = encode_utf8(s);
        if has_width_1_encoding(c) {
            lemma_ascii_text_has_ascii_bytes(rest);
            assert(!is_ascii_chars(rest)) by {
                if is_ascii_chars(rest) {
                    assert forall|i: int| 0 <= i < s.len() implies '\0' <= #[trigger] s[i]
                        <= '\u{7f}' by {
                        if i > 0 {
                            assert(s[i] == rest[i - 1]);
                        } else {
                            char_u32_cast(s[0], c);
                        }
                    }
                }
            }
            let j: int = choose|j: int|
                0 <= j < encode_utf8(rest).len() && !(encode_utf8(rest)[j] < 0x80);
            assert(bytes[j + 1] == encode_utf8(rest)[j]);
        } else {
            lemma_wide_leading_byte(c);
            assert(bytes[0] == first[0]);
        }
    }
}

/// The character for a decimal digit.
pub open spec fn digit_char(d: int) -> char
    recommends
        0 <= d < 10,
{
    seq!['0', '1', '2', '3', '4', '5', '6', '7', '8', '9'][d]
}

/// The decimal digits of a natural number, without leading zeros.
pub open spec fn digits(n: nat) -> Seq<char>
    decreases n,
{
    if n < 10 {
        seq![digit_char(n as int)]
    } else {
        digits(n / 10).push(digit_char((n % 10) as int))
    }
}

/// An integer in decimal, with a minus sign where it is negative.
pub open spec fn decimal(v: int) -> Seq<char> {
    if v < 0 {
        seq!['-'] + digits((-v) as nat)
    } else {
        digits(v as nat)
    }
}

/// Appends the decimal digits of a number to a text.
fn push_digits(out: &mut String, n: u32)
    ensures
        final(out)@ == old(out)@ + digits(n as nat),
    decreases n,
{
    if n >= 10 {
        push_digits(out, n / 10);
    }
    let d: u32 = n % 10;
    let c: char = if d == 0 {
        '0'
    } else if d == 1 {
        '1'
    } else if d == 2 {
        '2'
    } else if d == 3 {
        '3'
    } else if d == 4 {
        '4'
    } else if d == 5 {
        '5'
    } else if d == 6 {
        '6'
    } else if d == 7 {
        '7'
    } else if d == 8 {
        '8'
    } else {
        '9'
    };
    out.push(c);
}

/// Writes an integer in decimal.
pub fn i32_to_text(n: i32) -> (text: String)
    ensures
        text@ == decimal(n as int),
{
    let mut text = String::new();
    if n < 0 {
        text.push('-');
        let magnitude: u32 = if n == i32::MIN {
            0x8000_0000
        } else {
            (-n) as u32
        };
        push_digits(&mut text, magnitude);
    } else {
        push_digits(&mut text, n as u32);
    }
    text
}

} // verus!
