//! What the C-compatible surface decides.
//!
//! A foreign host sees no structured result: a status number, or a
//! buffer of text that ends in a zero byte, or a null pointer. The
//! pointers stay with the caller of this module; what they stand for is
//! settled here.

use vstd::prelude::*;
use vstd::string::*;
use vstd::utf8::{encode_scalar, encode_utf8};
use crate::error::PdfiumError;

verus! {

/// The status number for a successful initialization.
pub const STATUS_READY: i32 = 1;

/// The status number for a failed initialization.
pub const STATUS_FAILED: i32 = 0;

/// The status number that stands for the outcome of initialization.
pub fn status_code(outcome: &Result<(), PdfiumError>) -> (code: i32)
    ensures
        code == (if outcome is Ok {
            STATUS_READY
        } else {
            STATUS_FAILED
        }),
{
    match outcome {
        Ok(_) => STATUS_READY,
        Err(_) => STATUS_FAILED,
    }
}

/// Whether an input given as pointer and length is handed to a
/// pipeline at all: a null pointer or a length of zero is answered
/// with a null pointer, and no pipeline is entered.
pub fn accepts_input(pointer_is_null: bool, len: usize) -> (accepted: bool)
    ensures
        accepted == (!pointer_is_null && len != 0),
{
    !pointer_is_null && len != 0
}

/// Whether a zero byte occurs in `bytes`.
pub open spec fn has_nul(bytes: Seq<u8>) -> bool {
    exists|i: int| 0 <= i < bytes.len() && bytes[i] == 0
}

/// Whether a zero byte occurs in the UTF-8 form of `text`, which is
/// to say whether `text` holds the character with value zero.
pub fn contains_nul(text: &str) -> (found: bool)
    ensures
        found == has_nul(encode_utf8(text@)),
        found == text@.contains('\0'),
{
    proof {
        lemma_nul_byte_is_nul_char(text@);
    }
    let bytes = text.as_bytes();
    let mut at: usize = 0;
    while at < bytes.len()
        invariant
            at <= bytes.len(),
            bytes@ == encode_utf8(text@),
            has_nul(bytes@) <==> text@.contains('\0'),
            forall|i: int| 0 <= i < at ==> bytes@[i] != 0,
        decreases bytes.len() - at,
    {
        if bytes[at] == 0 {
            return true;
        }
        at += 1;
    }
    false
}

/// What the host gets for the outcome of a pipeline. A failure gives
/// `None`, which stands for the null pointer. A text goes out as it
/// is, to be ended by a zero byte; a text that holds a zero byte
/// itself cannot, and the empty text goes out in its place. So what
/// goes out never holds a zero byte.
pub fn exported_text(outcome: Result<String, PdfiumError>) -> (text: Option<String>)
    ensures
        outcome is Err ==> text is None,
        outcome is Ok ==> text is Some && text->0@ == (if outcome->Ok_0@.contains('\0') {
            Seq::<char>::empty()
        } else {
            outcome->Ok_0@
        }),
        text is Some ==> !has_nul(encode_utf8(text->0@)),
{
    match outcome {
        Ok(text) => {
            if contains_nul(text.as_str()) {
                Some(String::new())
            } else {
                Some(text)
            }
        },
        Err(_) => None,
    }
}

/// Or-ing a byte onto a set bit leaves a byte that is not zero.
proof fn lemma_marked_byte_is_not_zero(mark: u8, bits: u8)
    by (bit_vector)
    requires
        mark == 0x80 || mark == 0xC0 || mark == 0xE0 || mark == 0xF0,
    ensures
        mark | bits != 0,
{
}

/// Seven bits of a value below 128 are zero only for zero.
proof fn lemma_low_bits_of_small_value(scalar: u32)
    by (bit_vector)
    requires
        scalar <= 0x7F,
    ensures
        ((scalar & 0x7F) as u8 == 0) <==> scalar == 0,
{
}

/// Of all scalar values only zero has a zero byte in its UTF-8 form.
proof fn lemma_nul_in_scalar(scalar: u32)
    ensures
        has_nul(encode_scalar(scalar)) <==> scalar == 0,
{
    let bytes = encode_scalar(scalar);
    lemma_marked_byte_is_not_zero(0xC0, ((scalar >> 6) & 0x1F) as u8);
    lemma_marked_byte_is_not_zero(0xE0, ((scalar >> 12) & 0x0F) as u8);
    lemma_marked_byte_is_not_zero(0xF0, ((scalar >> 18) & 0x7) as u8);
    lemma_marked_byte_is_not_zero(0x80, (scalar & 0x3F) as u8);
    lemma_marked_byte_is_not_zero(0x80, ((scalar >> 6) & 0x3F) as u8);
    lemma_marked_byte_is_not_zero(0x80, ((scalar >> 12) & 0x3F) as u8);
    if scalar <= 0x7F {
        lemma_low_bits_of_small_value(scalar);
        assert(bytes[0] == (scalar & 0x7F) as u8);
    }
}

/// Of all characters only the one with value zero has a zero byte in
/// its UTF-8 form.
proof fn lemma_nul_in_char(ch: char)
    ensures
        has_nul(encode_scalar(ch as u32)) <==> ch == '\0',
{
    lemma_nul_in_scalar(ch as u32);
}

/// A zero byte occurs in the UTF-8 form of a text exactly where the
/// text holds the character with value zero.
pub proof fn lemma_nul_byte_is_nul_char(text: Seq<char>)
    ensures
        has_nul(encode_utf8(text)) <==> text.contains('\0'),
    decreases text.len(),
{
    let bytes = encode_utf8(text);
    if text.len() > 0 {
        let first = encode_scalar(text[0] as u32);
        let rest = encode_utf8(text.drop_first());
        lemma_nul_in_char(text[0]);
        lemma_nul_byte_is_nul_char(text.drop_first());
        assert(bytes == first + rest);
        if has_nul(bytes) {
            let i = choose|i: int| 0 <= i < bytes.len() && bytes[i] == 0;
            if i < first.len() {
                assert(first[i] == 0);
                assert(text[0] == '\0');
            } else {
                assert(rest[i - first.len()] == 0);
                let j = choose|j: int|
                    0 <= j < text.drop_first().len() && text.drop_first()[j] == '\0';
                assert(text[j + 1] == '\0');
            }
        }
        if text.contains('\0') {
            let j = choose|j: int| 0 <= j < text.len() && text[j] == '\0';
            if j == 0 {
                let i = choose|i: int| 0 <= i < first.len() && first[i] == 0;
                assert(bytes[i] == 0);
            } else {
                assert(text.drop_first()[j - 1] == '\0');
                let i = choose|i: int| 0 <= i < rest.len() && rest[i] == 0;
                assert(bytes[first.len() + i] == 0);
            }
        }
    }
}

} // verus!
