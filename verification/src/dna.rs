//! Derivation and combination of token DNA.
//!
//! A token's DNA is a 16-byte vector.  Fresh DNA is derived from three
//! inputs supplied by the host environment: the current randomness seed,
//! the caller's identity and a per-call sequence number.  The three are
//! encoded into one payload and reduced through a 128-bit cryptographic
//! digest.  Breeding combines two parent DNA vectors bit by bit under a
//! selector mask derived the same way.

use vstd::prelude::*;
use parity_scale_codec::Encode;

verus! {

/// The little-endian byte image of a 64-bit integer.
pub open spec fn u64_le_bytes(x: u64) -> Seq<u8> {
    seq![
        (x & 0xff) as u8,
        ((x >> 8) & 0xff) as u8,
        ((x >> 16) & 0xff) as u8,
        ((x >> 24) & 0xff) as u8,
        ((x >> 32) & 0xff) as u8,
        ((x >> 40) & 0xff) as u8,
        ((x >> 48) & 0xff) as u8,
        ((x >> 56) & 0xff) as u8,
    ]
}

/// The little-endian byte image of a 32-bit integer.
pub open spec fn u32_le_bytes(x: u32) -> Seq<u8> {
    seq![
        (x & 0xff) as u8,
        ((x >> 8) & 0xff) as u8,
        ((x >> 16) & 0xff) as u8,
        ((x >> 24) & 0xff) as u8,
    ]
}

/// The payload hashed to derive fresh DNA: the randomness seed, then the
/// caller, then the sequence number, each in its fixed-size encoding.
pub open spec fn payload_bytes(seed: Seq<u8>, sender: u64, sequence: u32) -> Seq<u8> {
    seed + u64_le_bytes(sender) + u32_le_bytes(sequence)
}

/// The 16-byte Blake2b digest of a byte string.
pub uninterp spec fn blake2_128_of(data: Seq<u8>) -> Seq<u8>;

/// Relies on `parity_scale_codec::Encode` for `([u8; 32], u64, u32)`:
/// a tuple encodes as the concatenation of its parts, a byte array as its
/// bytes with no length prefix, and an unsigned integer as its
/// little-endian bytes.
#[verifier::external_body]
fn scale_encode_payload(seed: &[u8; 32], sender: u64, sequence: u32) -> (r: Vec<u8>)
    ensures
        r@ == payload_bytes(seed@, sender, sequence),
{
    (*seed, sender, sequence).encode()
}

/// Relies on `sp_io::hashing::blake2_128`: a 16-byte Blake2b digest that
/// depends on the input bytes alone.
#[verifier::external_body]
fn blake2_128_digest(data: &Vec<u8>) -> (r: [u8; 16])
    ensures
        r@ == blake2_128_of(data@),
        r@.len() == 16,
{
    sp_io::hashing::blake2_128(data.as_slice())
}

/// Derive a fresh 16-byte DNA vector from the current randomness seed, the
/// caller's identity and a per-call sequence number.  The result is a pure
/// function of the three inputs.
pub fn random_value(seed: &[u8; 32], sender: u64, sequence: u32) -> (r: [u8; 16])
    ensures
        r@ == blake2_128_of(payload_bytes(seed@, sender, sequence)),
        r@.len() == 16,
{
    let payload = scale_encode_payload(seed, sender, sequence);
    blake2_128_digest(&payload)
}

/// One byte of a crossover: each bit comes from `dna1` where the selector
/// bit is set and from `dna2` where it is clear.
pub open spec fn combine_byte(dna1: u8, dna2: u8, selector: u8) -> u8 {
    (selector & dna1) | (!selector & dna2)
}

/// The bytewise crossover of two DNA vectors under a selector mask.
pub open spec fn crossover(dna1: Seq<u8>, dna2: Seq<u8>, selector: Seq<u8>) -> Seq<u8> {
    Seq::new(dna1.len(), |i: int| combine_byte(dna1[i], dna2[i], selector[i]))
}

/// Combine one byte of two parent DNA vectors: a bitwise multiplexer, so
/// every bit of the result is exactly one of the two parents' bits.
pub fn combine_dna(dna1: u8, dna2: u8, selector: u8) -> (r: u8)
    ensures
        r == combine_byte(dna1, dna2, selector),
{
    (selector & dna1) | (!selector & dna2)
}

/// Combine two 16-byte parent DNA vectors position by position under a
/// selector mask of the same length.
pub fn crossover_dna(dna1: &[u8; 16], dna2: &[u8; 16], selector: &[u8; 16]) -> (r: [u8; 16])
    ensures
        r@ == crossover(dna1@, dna2@, selector@),
{
    let mut new_dna: [u8; 16] = [0u8; 16];
    let mut i: usize = 0;
    while i < 16
        invariant
            0 <= i <= 16,
            new_dna@.len() == 16,
            forall|j: int| 0 <= j < i ==> new_dna@[j] == combine_byte(dna1@[j], dna2@[j], selector@[j]),
        decreases 16 - i,
    {
        new_dna[i] = combine_dna(dna1[i], dna2[i], selector[i]);
        i = i + 1;
    }
    proof {
        assert(new_dna@ =~= crossover(dna1@, dna2@, selector@));
    }
    new_dna
}

} // verus!
