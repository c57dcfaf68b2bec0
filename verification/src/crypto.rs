//! Trusted bindings to the outside cryptography.
//!
//! The digest and the verification result are functions of their inputs
//! alone; the library names them and proves everything else against those
//! names.

use vstd::prelude::*;

verus! {

/// The SHA-256 digest of a byte string.
pub uninterp spec fn sha256_of(data: Seq<u8>) -> Seq<u8>;

/// Whether `sig` is a valid BIP-340 Schnorr signature over `msg` for the
/// x-only public key `pk`.
pub uninterp spec fn schnorr_ok(sig: Seq<u8>, msg: Seq<u8>, pk: Seq<u8>) -> bool;

/// Relies on `bitcoin::hashes::sha256::Hash::hash`: the 32-byte SHA-256
/// digest of the input, a function of the input bytes alone.
#[verifier::external_body]
pub fn sha256(data: &Vec<u8>) -> (r: Vec<u8>)
    ensures
        r@ == sha256_of(data@),
        r@.len() == 32,
{
    let digest = <bitcoin::hashes::sha256::Hash as bitcoin::hashes::Hash>::hash(data.as_slice());
    <bitcoin::hashes::sha256::Hash as bitcoin::hashes::Hash>::to_byte_array(digest).to_vec()
}

/// Relies on `secp256k1::schnorr::verify`: BIP-340 verification of `sig`
/// over `msg` against the x-only key `pk`, a function of its inputs alone.
/// A key that is not a valid x coordinate verifies nothing.
#[verifier::external_body]
pub fn schnorr_verify(sig: &Vec<u8>, msg: &Vec<u8>, pk: &Vec<u8>) -> (r: bool)
    requires
        sig@.len() == 64,
        msg@.len() == 32,
        pk@.len() == 32,
    ensures
        r == schnorr_ok(sig@, msg@, pk@),
{
    let pk_bytes: [u8; 32] = pk.as_slice().try_into().expect("length checked");
    let sig_bytes: [u8; 64] = sig.as_slice().try_into().expect("length checked");
    let key = match secp256k1::XOnlyPublicKey::from_byte_array(pk_bytes) {
        Ok(k) => k,
        Err(_) => return false,
    };
    let signature = secp256k1::schnorr::Signature::from_byte_array(sig_bytes);
    secp256k1::schnorr::verify(&signature, msg.as_slice(), &key).is_ok()
}

} // verus!
