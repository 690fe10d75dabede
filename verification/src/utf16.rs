//! Lossy decoding of UTF-16 code units into text.
//!
//! A unit outside the surrogate range stands for itself. A high
//! surrogate directly followed by a low one stands for one character
//! beyond the basic plane. Every other surrogate is malformed input and
//! becomes one replacement character: decoding never fails.

use vstd::prelude::*;

verus! {

/// The character that takes the place of a malformed code unit.
pub const REPLACEMENT_CHARACTER: char = '\u{FFFD}';

/// First half of a surrogate pair.
pub open spec fn is_high_surrogate(unit: u16) -> bool {
    0xD800 <= unit <= 0xDBFF
}

/// Second half of a surrogate pair.
pub open spec fn is_low_surrogate(unit: u16) -> bool {
    0xDC00 <= unit <= 0xDFFF
}

/// A unit that is no character by itself.
pub open spec fn is_surrogate(unit: u16) -> bool {
    is_high_surrogate(unit) || is_low_surrogate(unit)
}

/// The scalar value that a surrogate pair stands for: ten bits from
/// each half, above the basic plane.
pub open spec fn pair_scalar(high: u16, low: u16) -> int {
    0x10000 + (high - 0xD800) * 0x400 + (low - 0xDC00)
}

/// Whether `units` starts with a well-formed surrogate pair.
pub open spec fn starts_with_pair(units: Seq<u16>) -> bool {
    units.len() >= 2 && is_high_surrogate(units[0]) && is_low_surrogate(units[1])
}

/// The text that `units` decodes to, malformed units replaced.
pub open spec fn utf16_lossy(units: Seq<u16>) -> Seq<char>
    decreases units.len(),
{
    if units.len() == 0 {
        Seq::empty()
    } else if !is_surrogate(units[0]) {
        seq![units[0] as char] + utf16_lossy(units.skip(1))
    } else if starts_with_pair(units) {
        seq![pair_scalar(units[0], units[1]) as char] + utf16_lossy(units.skip(2))
    } else {
        seq![REPLACEMENT_CHARACTER] + utf16_lossy(units.skip(1))
    }
}

/// `char::from_u32` of the standard library.
///
/// Trusted, as its documentation says: the character with the given
/// scalar value, and `None` exactly where there is none, for a
/// surrogate or a value beyond the last code point.
pub assume_specification[ char::from_u32 ](i: u32) -> (r: Option<char>)
    ensures
        r == (if vstd::utf8::is_scalar(i) {
            Some(i as char)
        } else {
            None::<char>
        }),
;

/// `String::push` of the standard library.
///
/// Trusted, as its documentation says: the character is appended at
/// the end of the text.
pub assume_specification[ String::push ](text: &mut String, ch: char)
    ensures
        final(text)@ == old(text)@.push(ch),
;

/// Appends to `text` the character with scalar value `scalar`, or the
/// replacement character where there is none.
fn push_scalar(text: &mut String, scalar: u32)
    ensures
        final(text)@ == old(text)@.push(
            if vstd::utf8::is_scalar(scalar) {
                scalar as char
            } else {
                REPLACEMENT_CHARACTER
            },
        ),
{
    match char::from_u32(scalar) {
        Some(ch) => text.push(ch),
        None => text.push(REPLACEMENT_CHARACTER),
    }
}

/// Decodes `units` as UTF-16. Each unpaired surrogate becomes one
/// replacement character; everything else is kept.
pub fn decode_utf16_lossy(units: &[u16]) -> (text: String)
    ensures
        text@ == utf16_lossy(units@),
{
    let mut text = String::new();
    let mut at: usize = 0;
    assert(units@.skip(0) == units@);
    while at < units.len()
        invariant
            at <= units.len(),
            text@ + utf16_lossy(units@.skip(at as int)) == utf16_lossy(units@),
        decreases units.len() - at,
    {
        let ghost rest = units@.skip(at as int);
        let unit: u16 = units[at];
        if unit < 0xD800 || unit > 0xDFFF {
            push_scalar(&mut text, unit as u32);
            assert(rest.skip(1) == units@.skip(at + 1));
            at += 1;
        } else if unit <= 0xDBFF && at + 1 < units.len() && 0xDC00 <= units[at + 1] && units[at
            + 1] <= 0xDFFF {
            let low: u16 = units[at + 1];
            let scalar: u32 = 0x10000 + ((unit - 0xD800) as u32) * 0x400 + ((low - 0xDC00) as u32);
            push_scalar(&mut text, scalar);
            assert(rest.skip(2) == units@.skip(at + 2));
            at += 2;
        } else {
            text.push(REPLACEMENT_CHARACTER);
            assert(rest.skip(1) == units@.skip(at + 1));
            at += 1;
        }
    }
    text
}

/// The code units that stand for one character: the character itself
/// in the basic plane, a surrogate pair beyond it.
pub open spec fn utf16_of_char(ch: char) -> Seq<u16> {
    if (ch as int) < 0x10000 {
        seq![ch as u16]
    } else {
        seq![
            (0xD800 + (ch as int - 0x10000) / 0x400) as u16,
            (0xDC00 + (ch as int - 0x10000) % 0x400) as u16,
        ]
    }
}

/// The UTF-16 form of a text.
pub open spec fn utf16_of(text: Seq<char>) -> Seq<u16>
    decreases text.len(),
{
    if text.len() == 0 {
        Seq::empty()
    } else {
        utf16_of_char(text[0]) + utf16_of(text.skip(1))
    }
}

/// The code units of one character decode to that character.
proof fn lemma_char_restored(ch: char)
    ensures
        (ch as int) < 0x10000 ==> !is_surrogate(ch as u16) && (ch as u16) as char == ch,
        (ch as int) >= 0x10000 ==> is_high_surrogate(utf16_of_char(ch)[0]) && is_low_surrogate(
            utf16_of_char(ch)[1],
        ) && pair_scalar(utf16_of_char(ch)[0], utf16_of_char(ch)[1]) as char == ch,
{
}

/// Decoding loses nothing of well-formed input: the UTF-16 form of a
/// text decodes to that text, with no character replaced.
pub proof fn lemma_decoding_restores_text(text: Seq<char>)
    ensures
        utf16_lossy(utf16_of(text)) == text,
    decreases text.len(),
{
    if text.len() > 0 {
        let ch = text[0];
        let rest = utf16_of(text.skip(1));
        let units = utf16_of(text);
        lemma_decoding_restores_text(text.skip(1));
        lemma_char_restored(ch);
        if (ch as int) < 0x10000 {
            assert(units.skip(1) =~= rest);
        } else {
            assert(units.skip(2) =~= rest);
        }
    }
}

} // verus!
