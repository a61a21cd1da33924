//! The two digests the game takes: the gene chain of a new swallower, and the
//! key under which a swallower is stored. Both are computed by Substrate's
//! hashing over the SCALE encoding of their input.
use parity_scale_codec::Encode;
use sp_runtime::traits::{BlakeTwo256, Hash as HashOf};
use vstd::prelude::*;

use crate::types::{Swallower, SwallowerView};

verus! {

/// The BLAKE2-128 digest of the SCALE encoding of the triple
/// (randomness, block number, name).
pub uninterp spec fn dna_digest(random: Seq<u8>, block_number: u64, name: Seq<u8>) -> Seq<u8>;

/// The BLAKE2-256 digest of the SCALE encoding of a swallower.
pub uninterp spec fn swallower_digest(s: SwallowerView<u64, [u8; 32]>) -> [u8; 32];

/// Calls `sp_io::hashing::blake2_128` on the SCALE encoding of
/// `(random, block_number, name)`. The contract claims only that the digest
/// is a function of those three values; what the function is, is left to
/// the outside crate.
#[verifier::external_body]
pub(crate) fn dna_of(random: &[u8; 32], block_number: u64, name: &Vec<u8>) -> (r: [u8; 16])
    ensures
        r@ == dna_digest(random@, block_number, name@),
{
    (random, block_number, name.as_slice()).using_encoded(sp_io::hashing::blake2_128)
}

/// Calls `<BlakeTwo256 as sp_runtime::traits::Hash>::hash_of` on the
/// swallower, encoded field by field in the order of its declaration, as
/// SCALE encodes a struct. The contract claims only that the digest is a
/// function of the swallower's value.
#[verifier::external_body]
pub(crate) fn hash_of_swallower(s: &Swallower<u64, [u8; 32]>) -> (r: [u8; 32])
    ensures
        r == swallower_digest(s@),
{
    BlakeTwo256::hash_of(&(s.no, &s.name, &s.init_gene, &s.gene, &s.owner, &s.hash)).0
}

} // verus!
