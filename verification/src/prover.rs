//! The challenge selector: from the output hash of a verifiable random
//! function to the frame positions that a prover must answer for.

use crate::hexcode::{encode_prefixed, from_hex_str, hex_decoded, hex_lower, spells, trim_0x};
use vstd::prelude::*;
use vstd::string::StringSliceAdditionalSpecFns;

verus! {

/// Challenge positions lie below this bound.
pub const MAX_FRAMES: u32 = 1200;

/// The number of challenge positions drawn from one output hash.
pub const CHALLENGES: usize = 3;

/// The 32-bit word that the four bytes of `hash` from `at` on spell, the
/// most significant byte first.
pub open spec fn be_word(hash: Seq<u8>, at: int) -> int {
    hash[at] * 0x100_0000 + hash[at + 1] * 0x1_0000 + hash[at + 2] * 0x100 + hash[at + 3]
}

/// The `k`-th challenge position of an output hash: its `k`-th word, reduced
/// modulo `MAX_FRAMES`.
pub open spec fn challenge(hash: Seq<u8>, k: int) -> int {
    be_word(hash, 4 * k) % (MAX_FRAMES as int)
}

/// The challenge positions of an output hash: one for each of its first
/// three words. Equal positions stay.
pub open spec fn challenges(hash: Seq<u8>) -> Seq<u32> {
    Seq::new(CHALLENGES as nat, |k: int| challenge(hash, k) as u32)
}

/// Derives the challenge positions from the output hash of the VRF.
pub fn challenge_indices(hash: &[u8; 32]) -> (indices: Vec<u32>)
    ensures
        indices@ == challenges(hash@),
        indices@.len() == CHALLENGES,
        forall|k: int| 0 <= k < indices@.len() ==> indices@[k] < MAX_FRAMES,
{
    let mut indices: Vec<u32> = Vec::new();
    let mut k: usize = 0;
    while k < CHALLENGES
        invariant
            k <= CHALLENGES,
            indices@.len() == k,
            forall|j: int| 0 <= j < k ==> indices@[j] == challenge(hash@, j) as u32,
            forall|j: int| 0 <= j < k ==> indices@[j] < MAX_FRAMES,
        decreases CHALLENGES - k,
    {
        let at: usize = 4 * k;
        let b0: u32 = hash[at] as u32;
        let b1: u32 = hash[at + 1] as u32;
        let b2: u32 = hash[at + 2] as u32;
        let b3: u32 = hash[at + 3] as u32;
        let word: u32 = b0 * 0x100_0000 + b1 * 0x1_0000 + b2 * 0x100 + b3;
        indices.push(word % MAX_FRAMES);
        k = k + 1;
    }
    proof {
        assert(indices@ =~= challenges(hash@));
    }
    indices
}

/// The inputs of one VRF evaluation: the public seed and the prover's
/// secret key material.
#[derive(Debug, Clone, Copy, PartialEq, Eq)]
pub struct Witness {
    pub seed: [u8; 32],
    pub sk: [u8; 32],
}

/// What a prover hands to a verifier: the challenge positions, the VRF proof
/// and the output hash that the positions were drawn from.
#[derive(Debug, PartialEq, Eq)]
pub struct FrameIndexProof {
    frame_indices: Vec<u32>,
    proof: Vec<u8>,
    hash: [u8; 32],
}

impl FrameIndexProof {
    #[verifier::type_invariant]
    spec fn well_formed(self) -> bool {
        self.frame_indices@ == challenges(self.hash@)
    }

    /// The output hash of the VRF.
    pub closed spec fn output_hash(self) -> [u8; 32] {
        self.hash
    }

    /// The bytes of the VRF proof.
    pub closed spec fn proof_bytes(self) -> Seq<u8> {
        self.proof@
    }

    /// The challenge positions: those drawn from the output hash, each below
    /// `MAX_FRAMES`.
    pub fn frame_indices(&self) -> (indices: Vec<u32>)
        ensures
            indices@ == challenges(self.output_hash()@),
            forall|k: int| 0 <= k < indices@.len() ==> indices@[k] < MAX_FRAMES,
    {
        proof {
            use_type_invariant(self);
        }
        self.frame_indices.clone()
    }

    /// The VRF proof in hex, after `0x`.
    pub fn proof_hex(&self) -> (text: String)
        ensures
            text@ == "0x"@ + hex_lower(self.proof_bytes()),
    {
        encode_prefixed(self.proof.as_slice())
    }

    /// The output hash in hex, after `0x`.
    pub fn hash(&self) -> (text: String)
        ensures
            text@ == "0x"@ + hex_lower(self.output_hash()@),
    {
        encode_prefixed(self.hash.as_slice())
    }
}

impl Witness {
    /// Bundles the output of the VRF on this witness for a verifier: the
    /// challenge positions are drawn from `hash`.
    pub fn complete(self, hash: [u8; 32], proof: Vec<u8>) -> (bundle: FrameIndexProof)
        ensures
            bundle.output_hash() == hash,
            bundle.proof_bytes() == proof@,
    {
        FrameIndexProof { frame_indices: challenge_indices(&hash), proof, hash }
    }
}

/// `text` spells 32 bytes in hex, with or without `0x` in front.
pub open spec fn is_key(text: Seq<u8>) -> bool {
    spells(trim_0x(text), 32)
}

/// Reads the witness of a proof from hex: the seed and the secret key
/// material, 32 bytes each, with or without `0x` in front.
pub fn prove_from_witness(seed: &str, sk: &str) -> (witness: Option<Witness>)
    ensures
        witness is Some <==> (is_key(seed.spec_bytes()) && is_key(sk.spec_bytes())),
        witness matches Some(w) ==> (w.seed@ == hex_decoded(trim_0x(seed.spec_bytes())) && w.sk@
            == hex_decoded(trim_0x(sk.spec_bytes()))),
{
    let seed = match from_hex_str::<32>(seed) {
        Some(bytes) => bytes,
        None => {
            return None;
        },
    };
    match from_hex_str::<32>(sk) {
        Some(sk) => Some(Witness { seed, sk }),
        None => None,
    }
}

} // verus!
