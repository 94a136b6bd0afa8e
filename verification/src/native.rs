//! Trusted boundary to the native cryptographic library and to the system
//! random-number generator. Every item here is believed, not proved: each doc
//! comment names the outside function relied on and what is assumed of it.

use vstd::prelude::*;

use crate::validity::is_valid_secret;

verus! {

/// The uncompressed serialization of the public key that the native library
/// derives from a valid 32-byte secret key. Derivation depends on the secret
/// bytes alone, so the result may be given a name.
pub uninterp spec fn native_public_key(secret: Seq<u8>) -> Seq<u8>;

/// Relies on secp256k1::SecretKey::from_secret_bytes: it accepts exactly the
/// 32-byte arrays that are nonzero and strictly below the curve order when
/// read as a big-endian integer.
#[verifier::external_body]
pub(crate) fn native_secret_key_accepts(bytes: &Vec<u8>) -> (r: bool)
    requires
        bytes@.len() == 32,
    ensures
        r == is_valid_secret(bytes@),
{
    let array: [u8; 32] = bytes.as_slice().try_into().unwrap();
    secp256k1::SecretKey::from_secret_bytes(array).is_ok()
}

/// Relies on secp256k1::SecretKey::from_secret_bytes (accepts exactly the
/// valid secret keys), secp256k1::PublicKey::from_secret_key and
/// PublicKey::serialize_uncompressed (the 65-byte uncompressed encoding of
/// the derived public key, a function of the secret bytes alone).
#[verifier::external_body]
pub(crate) fn native_derive_public_key(bytes: &Vec<u8>) -> (r: Option<Vec<u8>>)
    requires
        bytes@.len() == 32,
    ensures
        r is Some <==> is_valid_secret(bytes@),
        r matches Some(p) ==> p@ == native_public_key(bytes@) && p@.len() == 65,
{
    let array: [u8; 32] = bytes.as_slice().try_into().unwrap();
    match secp256k1::SecretKey::from_secret_bytes(array) {
        Ok(sk) => Some(secp256k1::PublicKey::from_secret_key(&sk).serialize_uncompressed().to_vec()),
        Err(_) => None,
    }
}

/// Relies on rand::rng and rand::Rng::fill_bytes: overwrites the buffer with
/// bytes from the thread-local generator. Nothing is promised of the values
/// drawn; only the length is kept.
#[verifier::external_body]
pub(crate) fn fill_random_bytes(buf: &mut Vec<u8>)
    ensures
        final(buf)@.len() == old(buf)@.len(),
{
    rand::Rng::fill_bytes(&mut rand::rng(), buf.as_mut_slice());
}

} // verus!
