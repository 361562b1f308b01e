//! The two outside computations the protocol rests on: the SHA-256 digest
//! (commitments, entropy combination, the pseudo-VRF check, seed derivation)
//! and the ChaCha20-seeded shuffle the multiplayer table deals from. Each is
//! reached through one trusted wrapper whose result is named by an
//! uninterpreted function of its arguments, so every caller's contract is
//! exact up to that name.

use vstd::prelude::*;

use crate::error::Error;

verus! {

/// The SHA-256 digest of `data`: a fixed 32-byte value determined by the
/// input bytes alone.
pub uninterp spec fn sha256_of(data: Seq<u8>) -> Seq<u8>;

/// Relies on sha2::Sha256 (through digest's `Digest::digest`): the digest is
/// a pure function of the input bytes and is always 32 bytes long.
#[verifier::external_body]
pub fn hash_bytes(data: &Vec<u8>) -> (r: Vec<u8>)
    ensures
        r@ == sha256_of(data@),
        r@.len() == 32,
{
    let digest = <sha2::Sha256 as sha2::Digest>::digest(data.as_slice());
    digest.to_vec()
}

/// The order that shuffling `items` with a ChaCha20 generator seeded by
/// `seed` produces: a pure function of the seed and the items.
pub uninterp spec fn chacha_shuffled(seed: Seq<u8>, items: Seq<u8>) -> Seq<u8>;

/// Relies on rand_chacha::ChaCha20Rng::from_seed (deterministic in the seed)
/// and rand's `SliceRandom::shuffle`, which rearranges the slice in place by
/// swaps, so the result is a permutation determined by seed and input alone.
#[verifier::external_body]
pub fn chacha_shuffle(seed: &Vec<u8>, items: Vec<u8>) -> (r: Vec<u8>)
    requires
        seed@.len() == 32,
    ensures
        r@ == chacha_shuffled(seed@, items@),
        r@.to_multiset() == items@.to_multiset(),
        r@.len() == items@.len(),
{
    let mut fixed = [0u8; 32];
    fixed.copy_from_slice(seed.as_slice());
    let mut rng = <rand_chacha::ChaCha20Rng as rand::SeedableRng>::from_seed(fixed);
    let mut items = items;
    rand::seq::SliceRandom::shuffle(items.as_mut_slice(), &mut rng);
    items
}

/// Check that a byte field has exactly the expected fixed length, rejecting
/// malformed reveals and proofs before anything is hashed.
pub fn into_fixed<const N: usize>(bytes: Vec<u8>) -> (r: Result<Vec<u8>, Error>)
    ensures
        match r {
            Ok(v) => bytes@.len() == N && v == bytes,
            Err(e) => bytes@.len() != N && e == Error::WrongLength,
        },
{
    if bytes.len() == N {
        Ok(bytes)
    } else {
        Err(Error::WrongLength)
    }
}

/// Deterministic pseudo-VRF validation: the claimed output must equal the
/// digest of public key, proof, and message hashed together.
pub fn verify_vrf(public_key: &Vec<u8>, proof_bytes: &Vec<u8>, message: &Vec<u8>, output: &Vec<u8>)
    -> (r: bool)
    ensures
        r == (sha256_of(public_key@ + proof_bytes@ + message@) == output@),
{
    let mut buffer: Vec<u8> = Vec::new();
    buffer.extend_from_slice(public_key.as_slice());
    buffer.extend_from_slice(proof_bytes.as_slice());
    buffer.extend_from_slice(message.as_slice());
    proof {
        assert(buffer@ =~= public_key@ + proof_bytes@ + message@);
    }
    let digest = hash_bytes(&buffer);
    let r = vec_u8_eq(&digest, output);
    r
}

/// Byte-vector equality, stated over the views.
pub fn vec_u8_eq(a: &Vec<u8>, b: &Vec<u8>) -> (r: bool)
    ensures
        r == (a@ == b@),
{
    if a.len() != b.len() {
        proof {
            assert(a@ != b@);
        }
        return false;
    }
    let mut k: usize = 0;
    while k < a.len()
        invariant
            k <= a@.len(),
            a@.len() == b@.len(),
            forall|i: int| 0 <= i < k ==> a@[i] == b@[i],
        decreases a@.len() - k,
    {
        if a[k] != b[k] {
            proof {
                assert(a@[k as int] != b@[k as int]);
            }
            return false;
        }
        k += 1;
    }
    proof {
        assert(a@ =~= b@);
    }
    true
}

} // verus!
