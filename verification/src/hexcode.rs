//! Hex text to bytes and back, with the `0x` prefix that witnesses and
//! proofs travel under.

use vstd::prelude::*;
use vstd::slice::slice_subrange;
use vstd::string::StringSliceAdditionalSpecFns;

verus! {

/// The value of the ASCII hex digit `c`, in either case.
pub open spec fn hex_value(c: u8) -> Option<u8> {
    if 0x30 <= c <= 0x39 {
        Some((c - 0x30) as u8)
    } else if 0x61 <= c <= 0x66 {
        Some((c - 0x61 + 10) as u8)
    } else if 0x41 <= c <= 0x46 {
        Some((c - 0x41 + 10) as u8)
    } else {
        None
    }
}

/// Every byte of `text` is a hex digit.
pub open spec fn is_hex(text: Seq<u8>) -> bool {
    forall|i: int| 0 <= i < text.len() ==> (#[trigger] hex_value(text[i])) is Some
}

/// `text` is the hex digits of exactly `n` bytes.
pub open spec fn spells(text: Seq<u8>, n: int) -> bool {
    text.len() == 2 * n && is_hex(text)
}

/// The bytes that the hex digits of `text` spell, two digits to a byte, the
/// high digit first.
pub open spec fn hex_decoded(text: Seq<u8>) -> Seq<u8> {
    Seq::new(
        text.len() / 2,
        |i: int| (16 * hex_value(text[2 * i]).unwrap() + hex_value(text[2 * i + 1]).unwrap()) as u8,
    )
}

/// The lower-case hex digit of a value below 16.
pub open spec fn hex_digit(n: u8) -> char {
    if n < 10 {
        (0x30 + n) as char
    } else {
        (0x61 + n - 10) as char
    }
}

/// `bytes` in lower-case hex, two digits to a byte, the high digit first.
pub open spec fn hex_lower(bytes: Seq<u8>) -> Seq<char> {
    Seq::new(
        2 * bytes.len(),
        |i: int|
            hex_digit(
                if i % 2 == 0 {
                    bytes[i / 2] / 16
                } else {
                    bytes[i / 2] % 16
                },
            ),
    )
}

/// `text` without any leading run of the two bytes `0x`.
pub open spec fn trim_0x(text: Seq<u8>) -> Seq<u8>
    decreases text.len(),
{
    if text.len() >= 2 && text[0] == 0x30 && text[1] == 0x78 {
        trim_0x(text.skip(2))
    } else {
        text
    }
}

#[verifier::external_type_specification]
#[verifier::external_body]
pub struct ExFromHexError(hex::FromHexError);

/// Calls `hex::decode_to_slice`. It succeeds exactly on an input of twice as
/// many hex digits as `out` has bytes, and then `out` holds the bytes they
/// spell. On failure nothing is claimed of `out`.
#[verifier::external_body]
fn decode_to_slice<const N: usize>(data: &[u8], out: &mut [u8; N]) -> (res: Result<
    (),
    hex::FromHexError,
>)
    ensures
        res is Ok <==> spells(data@, N as int),
        res is Ok ==> final(out)@ == hex_decoded(data@),
{
    hex::decode_to_slice(data, out)
}

/// Calls `hex::encode`, which writes each byte as two lower-case hex digits.
#[verifier::external_body]
fn encode(data: &[u8]) -> (res: String)
    ensures
        res@ == hex_lower(data@),
{
    hex::encode(data)
}

/// The bytes spelt by `text`, where it is exactly `2 * N` hex digits.
pub fn decode_exact<const N: usize>(text: &[u8]) -> (res: Option<[u8; N]>)
    ensures
        res is Some <==> spells(text@, N as int),
        res matches Some(bytes) ==> bytes@ == hex_decoded(text@),
{
    let mut out: [u8; N] = [0u8;N];
    match decode_to_slice(text, &mut out) {
        Ok(_) => Some(out),
        Err(_) => None,
    }
}

/// `0x` followed by `bytes` in lower-case hex.
pub fn encode_prefixed(bytes: &[u8]) -> (res: String)
    ensures
        res@ == "0x"@ + hex_lower(bytes@),
{
    let digits = encode(bytes);
    String::from_str("0x").concat(digits.as_str())
}

/// Drops every leading `0x` from `text`.
pub fn trim_start_0x(text: &[u8]) -> (res: &[u8])
    ensures
        res@ == trim_0x(text@),
{
    let mut off: usize = 0;
    proof {
        assert(text@.skip(0) =~= text@);
    }
    while text.len() - off >= 2 && text[off] == 0x30 && text[off + 1] == 0x78
        invariant
            off <= text@.len(),
            trim_0x(text@) == trim_0x(text@.skip(off as int)),
        decreases text@.len() - off,
    {
        proof {
            let rest = text@.skip(off as int);
            assert(rest.skip(2) =~= text@.skip(off + 2));
        }
        off = off + 2;
    }
    let res = slice_subrange(text, off, text.len());
    proof {
        assert(res@ =~= text@.skip(off as int));
    }
    res
}

/// Reads `N` bytes from a hex string that may carry `0x` in front.
///
/// The string must spell exactly `N` bytes once the prefix is gone; digits of
/// either case are read.
pub fn from_hex_str<const N: usize>(s: &str) -> (res: Option<[u8; N]>)
    ensures
        res is Some <==> spells(trim_0x(s.spec_bytes()), N as int),
        res matches Some(bytes) ==> bytes@ == hex_decoded(trim_0x(s.spec_bytes())),
{
    decode_exact::<N>(trim_start_0x(s.as_bytes()))
}

} // verus!
