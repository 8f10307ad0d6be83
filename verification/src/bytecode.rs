//! Bytecode as hexadecimal text.

use crate::cleanup::{
    clean_error_content, clean_text, lemma_text_without_path_stays, path_end,
};
use crate::text::{is_space, lemma_trim_end_is_take, lemma_trim_start_is_skip, occurs_at};
use vstd::prelude::*;

verus! {

/// The lowercase hexadecimal digit that stands for `n`, for `n` below 16.
pub open spec fn hex_digit(n: int) -> char {
    seq!['0', '1', '2', '3', '4', '5', '6', '7', '8', '9', 'a', 'b', 'c', 'd', 'e', 'f'][n]
}

/// `bytes` in hexadecimal: two lowercase digits for each byte, the high half
/// of the byte first.
pub open spec fn hex_text(bytes: Seq<u8>) -> Seq<char> {
    Seq::new(
        2 * bytes.len(),
        |i: int|
            if i % 2 == 0 {
                hex_digit(bytes[i / 2] as int / 16)
            } else {
                hex_digit(bytes[i / 2] as int % 16)
            },
    )
}

/// The number that the hexadecimal digit `c` stands for, in either case.
pub open spec fn digit_value(c: char) -> Option<int> {
    let u = c as u32;
    if 0x30 <= u <= 0x39 {
        Some(u - 0x30)
    } else if 0x61 <= u <= 0x66 {
        Some(u - 0x61 + 10)
    } else if 0x41 <= u <= 0x46 {
        Some(u - 0x41 + 10)
    } else {
        None
    }
}

/// The bytes that `text` stands for in hexadecimal, where it is an even
/// number of hexadecimal digits.
pub open spec fn hex_bytes(text: Seq<char>) -> Option<Seq<u8>> {
    if text.len() % 2 == 0 && (forall|i: int|
        0 <= i < text.len() ==> (#[trigger] digit_value(text[i])) is Some) {
        Some(
            Seq::new(
                text.len() / 2,
                |i: int| (16 * digit_value(text[2 * i])->0 + digit_value(text[2 * i + 1])->0) as u8,
            ),
        )
    } else {
        None
    }
}

/// A hexadecimal digit stands for the number it was chosen for; it is
/// neither whitespace nor a slash.
pub proof fn lemma_hex_digit(n: int)
    requires
        0 <= n < 16,
    ensures
        digit_value(hex_digit(n)) == Some(n),
        !is_space(hex_digit(n)),
        hex_digit(n) != '/',
{
}

/// Reading hexadecimal text back gives the bytes that were written.
pub proof fn lemma_hex_round_trip(bytes: Seq<u8>)
    ensures
        hex_bytes(hex_text(bytes)) == Some(bytes),
{
    let t = hex_text(bytes);
    assert forall|i: int| 0 <= i < t.len() implies (#[trigger] digit_value(t[i])) is Some by {
        lemma_hex_digit(bytes[i / 2] as int / 16);
        lemma_hex_digit(bytes[i / 2] as int % 16);
    }
    let back = hex_bytes(t)->0;
    assert(back.len() == bytes.len());
    assert forall|i: int| 0 <= i < bytes.len() implies back[i] == bytes[i] by {
        let b = bytes[i] as int;
        lemma_hex_digit(b / 16);
        lemma_hex_digit(b % 16);
        assert((2 * i) % 2 == 0 && (2 * i) / 2 == i);
        assert((2 * i + 1) % 2 == 1 && (2 * i + 1) / 2 == i);
        assert(t[2 * i] == hex_digit(b / 16));
        assert(t[2 * i + 1] == hex_digit(b % 16));
        assert(16 * (b / 16) + b % 16 == b);
    }
    assert(back =~= bytes);
}

/// Hexadecimal text holds no staged path and no whitespace: cleaning leaves
/// it as it is.
pub proof fn lemma_hex_text_is_clean(bytes: Seq<u8>, name: Seq<char>)
    ensures
        clean_text(hex_text(bytes), name) == hex_text(bytes),
{
    let t = hex_text(bytes);
    assert forall|i: int| 0 <= i < t.len() implies !is_space(#[trigger] t[i]) && t[i] != '/' by {
        lemma_hex_digit(bytes[i / 2] as int / 16);
        lemma_hex_digit(bytes[i / 2] as int % 16);
    }
    assert forall|p: int| !occurs_at(t, path_end(name), p) by {
        if occurs_at(t, path_end(name), p) {
            let pat = path_end(name);
            assert(t.subrange(p, p + pat.len())[0] == pat[0]);
            assert(t[p] == '/');
        }
    }
    lemma_text_without_path_stays(t, name);
    lemma_trim_start_is_skip(t, 0);
    assert(t.skip(0) =~= t);
    lemma_trim_end_is_take(t, t.len() as int);
}

/// `hex::encode` on a slice of bytes: for each byte, in order, the digit of
/// its high four bits and then the digit of its low four bits, both taken
/// from `0123456789abcdef`.
#[verifier::external_body]
fn encode(data: &Vec<u8>) -> (text: String)
    ensures
        text@ == hex_text(data@),
{
    hex::encode(data)
}

/// The bytecode `bin` as the text of a response: lowercase hexadecimal,
/// cleaned as the other artifacts are.
pub fn bytecode_text(bin: &Vec<u8>, filename: &str) -> (text: String)
    ensures
        text@ == hex_text(bin@),
        text@ == clean_text(hex_text(bin@), filename@),
{
    let encoded = encode(bin);
    proof {
        lemma_hex_text_is_clean(bin@, filename@);
    }
    clean_error_content(encoded, filename)
}

} // verus!
