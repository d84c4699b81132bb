//! Hexadecimal text: what a byte string looks like on the wire and which
//! parameters decode to which bytes.

use vstd::prelude::*;
use vstd::utf8::{encode_utf8, is_ascii_chars_encode_utf8};
use crate::error::ChainHeadRpcError;

verus! {

/// The lowercase hexadecimal digit of a value below sixteen.
pub open spec fn hex_char(nibble: int) -> char {
    if nibble < 10 {
        (0x30 + nibble) as u8 as char
    } else {
        (0x61 + nibble - 10) as u8 as char
    }
}

/// The digits of `bytes`, two per byte, high nibble first.
pub open spec fn hex_digits(bytes: Seq<u8>) -> Seq<char> {
    Seq::new(
        2 * bytes.len(),
        |i: int| if i % 2 == 0 { hex_char(bytes[i / 2] as int / 16) } else { hex_char(bytes[i / 2] as int % 16) },
    )
}

/// The wire form of `bytes`: `0x` followed by the lowercase digits.
pub open spec fn hex_text(bytes: Seq<u8>) -> Seq<char> {
    seq!['0', 'x'] + hex_digits(bytes)
}

/// The value of one input byte read as a hexadecimal digit. Bit five of the
/// byte is set before it is classified, so that `A` reads as `a`; by the
/// same rule the bytes `0x10` to `0x19` read as `0` to `9`.
pub open spec fn hex_digit(b: u8) -> Option<u8> {
    let folded = b | 0x20u8;
    if 0x30 <= folded <= 0x39 {
        Some((folded - 0x30) as u8)
    } else if 0x61 <= folded <= 0x66 {
        Some((folded - 0x61 + 10) as u8)
    } else {
        None
    }
}

/// `text` without one leading `0x`, if it has one.
pub open spec fn strip_0x(text: Seq<u8>) -> Seq<u8> {
    if text.len() >= 2 && text[0] == 0x30 && text[1] == 0x78 {
        text.skip(2)
    } else {
        text
    }
}

/// An even number of bytes, each of them a digit.
pub open spec fn all_hex_digits(digits: Seq<u8>) -> bool {
    &&& digits.len() % 2 == 0
    &&& forall|i: int| 0 <= i < digits.len() ==> (#[trigger] hex_digit(digits[i])) is Some
}

/// The bytes that pairs of digits stand for.
pub open spec fn hex_value(digits: Seq<u8>) -> Seq<u8> {
    Seq::new(
        digits.len() / 2,
        |i: int| (hex_digit(digits[2 * i])->0 * 16 + hex_digit(digits[2 * i + 1])->0) as u8,
    )
}

/// What a parameter given as `text` decodes to, if it decodes at all.
pub open spec fn hex_decoded(text: Seq<u8>) -> Option<Seq<u8>> {
    let digits = strip_0x(text);
    if all_hex_digits(digits) {
        Some(hex_value(digits))
    } else {
        None
    }
}

/// What a parameter given as the string `param` decodes to: the decoding of
/// its UTF-8 bytes.
pub open spec fn param_bytes(param: Seq<char>) -> Option<Seq<u8>> {
    hex_decoded(encode_utf8(param))
}

#[verifier::external_type_specification]
#[verifier::external_body]
pub struct ExHexError(array_bytes::Error);

/// `array_bytes::hex2bytes`: drops one leading `0x`, then reads pairs of
/// digits, the high one first. It fails on an odd number of digits and on
/// the first byte that is no digit. Before a byte is classified its bit
/// five is set: that reads upper case as lower case, and it also lets the
/// bytes `0x10` to `0x19` pass for the digits `0` to `9`.
#[verifier::external_body]
fn hex2bytes(text: &[u8]) -> (r: Result<Vec<u8>, array_bytes::Error>)
    ensures
        match r {
            Ok(bytes) => hex_decoded(text@) == Some(bytes@),
            Err(_) => hex_decoded(text@) is None,
        },
{
    array_bytes::hex2bytes(text)
}

/// `sp_core::hexdisplay::HexDisplay` under `{:?}`: every byte as two
/// lowercase digits, with nothing left out however long the input is.
#[verifier::external_body]
fn hex_display(bytes: &Vec<u8>) -> (r: String)
    ensures
        r@ == hex_text(bytes@),
{
    format!("0x{:?}", sp_core::hexdisplay::HexDisplay::from(bytes))
}

/// The wire form of `bytes`.
pub fn to_hex(bytes: &Vec<u8>) -> (r: String)
    ensures
        r@ == hex_text(bytes@),
{
    hex_display(bytes)
}

/// Reads a hex-encoded parameter as raw bytes. The empty parameter stands
/// for no bytes; a parameter that does not decode is handed back inside the
/// error that the request is rejected with.
pub fn parse_hex_param(param: String) -> (r: Result<Vec<u8>, ChainHeadRpcError>)
    ensures
        match r {
            Ok(bytes) => param_bytes(param@) == Some(bytes@),
            Err(e) => param_bytes(param@) is None && e == ChainHeadRpcError::InvalidParam(param),
        },
{
    if param.as_str().is_empty() {
        return Ok(Vec::new());
    }
    match hex2bytes(param.as_str().as_bytes()) {
        Ok(bytes) => Ok(bytes),
        Err(_) => Err(ChainHeadRpcError::InvalidParam(param)),
    }
}

/// A digit written by [`hex_char`] is read back as the value it was written for.
proof fn lemma_digit_read_back(nibble: u8)
    requires
        nibble < 16,
    ensures
        hex_digit(hex_char(nibble as int) as u8) == Some(nibble),
        '\0' <= hex_char(nibble as int) <= '\u{7f}',
{
    let c: u8 = if nibble < 10 {
        (0x30 + nibble) as u8
    } else {
        (0x61 + nibble - 10) as u8
    };
    assert(hex_char(nibble as int) as u8 == c);
    assert(c | 0x20u8 == c) by (bit_vector)
        requires
            (0x30 <= c && c <= 0x39) || (0x61 <= c && c <= 0x66),
    ;
}

/// Decoding undoes encoding: for every byte string, the wire form written
/// by [`to_hex`] is a parameter that [`parse_hex_param`] reads back as the
/// same bytes.
pub proof fn law_hex_round_trip(bytes: Seq<u8>)
    ensures
        param_bytes(hex_text(bytes)) == Some(bytes),
{
    let text = hex_text(bytes);
    assert forall|i: int| 0 <= i < text.len() implies '\0' <= #[trigger] text[i] <= '\u{7f}' by {
        if i >= 2 {
            let k = i - 2;
            if k % 2 == 0 {
                lemma_digit_read_back(bytes[k / 2] / 16);
            } else {
                lemma_digit_read_back(bytes[k / 2] % 16);
            }
        }
    }
    is_ascii_chars_encode_utf8(text);
    let raw = encode_utf8(text);
    assert(raw[0] == 0x30 && raw[1] == 0x78) by {
        assert(text[0] == '0' && text[1] == 'x');
    }
    let digits = strip_0x(raw);
    assert(digits.len() == 2 * bytes.len());
    assert forall|k: int| 0 <= k < digits.len() implies (#[trigger] hex_digit(digits[k])) == Some(
        if k % 2 == 0 {
            bytes[k / 2] / 16
        } else {
            bytes[k / 2] % 16
        },
    ) by {
        assert(digits[k] == raw[k + 2]);
        assert(raw[k + 2] == text[k + 2] as u8);
        assert(text[k + 2] == hex_digits(bytes)[k]);
        if k % 2 == 0 {
            lemma_digit_read_back(bytes[k / 2] / 16);
        } else {
            lemma_digit_read_back(bytes[k / 2] % 16);
        }
    }
    assert(all_hex_digits(digits));
    assert(hex_value(digits) =~= bytes) by {
        assert forall|i: int| 0 <= i < bytes.len() implies hex_value(digits)[i] == bytes[i] by {
            assert(hex_digit(digits[2 * i]) == Some(bytes[i] / 16));
            assert(hex_digit(digits[2 * i + 1]) == Some(bytes[i] % 16));
        }
    }
}

} // verus!
