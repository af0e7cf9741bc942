//! Trusted boundary to the cryptographic primitives.
//!
//! The device treats hashing, key derivation and signing as opaque
//! deterministic functions.  Each function here is a thin wrapper around one
//! outside call; its result is named by an uninterpreted spec function, so
//! contracts elsewhere can speak of the result without restating the
//! algorithm.  Nothing in this module is proved: the contracts are believed
//! against the outside crates' sources.

use vstd::prelude::*;
use sha2::Digest;
use k256::ecdsa::signature::Signer;

verus! {

/// The SHA-256 digest (32 bytes) of a byte sequence.
pub uninterp spec fn sha256_of(data: Seq<u8>) -> Seq<u8>;

/// The secret-key bytes that BIP32 derivation yields for a seed and a path
/// of raw child numbers, or `None` where derivation fails (a seed whose
/// length is not 16, 32 or 64 bytes, or a negligible-probability invalid
/// tweak).
pub uninterp spec fn derived_key_of(seed: Seq<u8>, path: Seq<u32>) -> Option<Seq<u8>>;

/// The uncompressed SEC1 encoding (65 bytes) of the public key belonging to
/// the given secret-key bytes, or `None` where the bytes are not a valid
/// nonzero scalar.
pub uninterp spec fn pubkey_of(key: Seq<u8>) -> Option<Seq<u8>>;

/// The deterministic ECDSA signature (64 bytes, r then s) over `msg` under
/// the given secret-key bytes, or `None` where the bytes are not a valid
/// nonzero scalar.
pub uninterp spec fn signature_of(key: Seq<u8>, msg: Seq<u8>) -> Option<Seq<u8>>;

/// The view of an optional byte vector.
pub open spec fn opt_bytes(o: Option<Vec<u8>>) -> Option<Seq<u8>> {
    match o {
        Option::Some(v) => Option::Some(v@),
        Option::None => Option::None,
    }
}

/// Relies on sha2::Sha256::digest: a 32-byte digest that is a function of
/// the input bytes alone.
#[verifier::external_body]
pub fn sha256(data: &Vec<u8>) -> (r: Vec<u8>)
    ensures
        r@ == sha256_of(data@),
        r@.len() == 32,
{
    sha2::Sha256::digest(data.as_slice()).to_vec()
}

/// Relies on bip32::XPrv::derive_from_path: BIP32 derivation is a function
/// of the seed and the child-number path alone, and a derived key serializes
/// to 32 bytes; it fails exactly where the seed length is not one of 16, 32
/// or 64 bytes or a child tweak is invalid, both determined by seed and path.
#[verifier::external_body]
pub fn derive_key(seed: &Vec<u8>, path: &Vec<u32>) -> (r: Option<Vec<u8>>)
    ensures
        opt_bytes(r) == derived_key_of(seed@, path@),
        r matches Some(k) ==> k@.len() == 32,
{
    let mut dp = bip32::DerivationPath::default();
    dp.extend(path.iter().map(|n| bip32::ChildNumber(*n)));
    match bip32::XPrv::derive_from_path(seed, &dp) {
        Ok(xprv) => Some(xprv.to_bytes().to_vec()),
        Err(_) => None,
    }
}

/// Relies on k256::ecdsa::SigningKey::from_slice and VerifyingKey::
/// to_encoded_point: the public key is a function of the secret-key bytes
/// alone; from_slice fails exactly where the bytes are not a valid nonzero
/// scalar, which too depends on the bytes alone.
#[verifier::external_body]
pub fn public_key(key: &Vec<u8>) -> (r: Option<Vec<u8>>)
    ensures
        opt_bytes(r) == pubkey_of(key@),
        r matches Some(p) ==> p@.len() == 65,
{
    match k256::ecdsa::SigningKey::from_slice(key.as_slice()) {
        Ok(sk) => Some(sk.verifying_key().to_encoded_point(false).as_bytes().to_vec()),
        Err(_) => None,
    }
}

/// Relies on k256::ecdsa::SigningKey::from_slice and Signer::try_sign:
/// signing uses the deterministic RFC 6979 nonce, so the 64-byte signature
/// is a function of the secret-key bytes and the message alone.
#[verifier::external_body]
pub fn sign_message(key: &Vec<u8>, msg: &Vec<u8>) -> (r: Option<Vec<u8>>)
    ensures
        opt_bytes(r) == signature_of(key@, msg@),
        r matches Some(s) ==> s@.len() == 64,
{
    match k256::ecdsa::SigningKey::from_slice(key.as_slice()) {
        Ok(sk) => {
            let sig: Result<k256::ecdsa::Signature, _> = sk.try_sign(msg.as_slice());
            match sig {
                Ok(s) => Some(s.to_vec()),
                Err(_) => None,
            }
        }
        Err(_) => None,
    }
}

/// Relies on zeroize::Zeroize for Vec<u8>: the buffer is overwritten and the
/// vector cleared.
#[verifier::external_body]
pub fn wipe_bytes(v: &mut Vec<u8>)
    ensures
        final(v)@.len() == 0,
{
    zeroize::Zeroize::zeroize(v);
}

} // verus!
