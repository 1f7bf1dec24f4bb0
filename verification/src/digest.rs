//! The two hashes that everything is addressed by. Both are computed by
//! outside crates and enter the contracts by name only.

use blake2::digest::Digest;
use vstd::prelude::*;

verus! {

/// BLAKE2b of `data`, cut to 32 bytes of output.
pub uninterp spec fn blake2b_256(data: Seq<u8>) -> Seq<u8>;

/// SHA-256 of the UTF-8 encoding of `text`, written as lower-case hex digits.
pub uninterp spec fn sha256_hex(text: Seq<char>) -> Seq<char>;

/// Hashes `c` with `blake2::Blake2b` at an output size of 32 bytes
/// (`new`, `update`, `finalize`). Nothing is proved of the hash itself: the
/// contract only names it, so equal inputs are known to give equal digests.
#[verifier::external_body]
pub(crate) fn digest(c: &[u8]) -> (out: [u8; 32])
    ensures
        out@ == blake2b_256(c@),
{
    let mut hasher = blake2::Blake2b::<blake2::digest::consts::U32>::new();
    hasher.update(c);
    hasher.finalize().into()
}

/// Calls `sha256::digest` on a string slice, which hashes the bytes of the
/// string and writes the 32 bytes of the hash in hex. The contract names the
/// result and claims its length, nothing else.
#[verifier::external_body]
pub(crate) fn sha256_digest(text: &str) -> (out: String)
    ensures
        out@ == sha256_hex(text@),
        out@.len() == 64,
{
    sha256::digest(text)
}

} // verus!
