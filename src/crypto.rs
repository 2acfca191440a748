//! The cryptographic primitives, taken from their crates.
//!
//! Each result that depends on its arguments alone has a name here; what the names
//! stand for is the business of the crates that compute them.

use aes::cipher::generic_array::GenericArray;
use aes::cipher::{BlockEncrypt, KeyInit};
use aes::Aes256;
use hmac::{Hmac, Mac};
use p256::ecdh::diffie_hellman;
use p256::{PublicKey, SecretKey};
use rand_core::OsRng;
use rsa::pkcs1v15::{Signature, VerifyingKey};
use rsa::signature::Verifier;
use rsa::{BigUint, RsaPublicKey};
use sha2::{Digest, Sha256, Sha512};
use vstd::prelude::*;

verus! {

/// AES-256 applied to one 16-octet block under a 32-octet key.
pub uninterp spec fn aes256_block(key: Seq<u8>, block: Seq<u8>) -> Seq<u8>;

/// HMAC-SHA-256 of a message under a key.
pub uninterp spec fn hmac_sha256_of(key: Seq<u8>, message: Seq<u8>) -> Seq<u8>;

/// SHA-256 of a message.
pub uninterp spec fn sha256_of(message: Seq<u8>) -> Seq<u8>;

/// Whether `RsaPublicKey::new` accepts this modulus and exponent (big-endian octets).
pub uninterp spec fn rsa_key_accepted(n: Seq<u8>, e: Seq<u8>) -> bool;

/// Whether an RSASSA-PKCS1-v1_5 signature with SHA-512 over `message` verifies under the
/// key with this modulus and exponent.
pub uninterp spec fn rsa_sha512_accepted(
    n: Seq<u8>,
    e: Seq<u8>,
    message: Seq<u8>,
    signature: Seq<u8>,
) -> bool;

/// The SEC1 encoding of the P-256 public point of a secret scalar, if the scalar is valid.
pub uninterp spec fn p256_public_of(secret: Seq<u8>) -> Option<Seq<u8>>;

/// The P-256 Diffie-Hellman shared secret (the x-coordinate of `secret · peer`), if the
/// scalar and the SEC1-encoded peer point are both valid.
pub uninterp spec fn p256_shared_of(secret: Seq<u8>, peer: Seq<u8>) -> Option<Seq<u8>>;

/// Relies on `aes::Aes256` through `BlockEncrypt::encrypt_block`: one block, encrypted in place.
#[verifier::external_body]
pub(crate) fn aes256_encrypt_block(key: &[u8], block: &[u8]) -> (r: Vec<u8>)
    requires
        key@.len() == 32,
        block@.len() == 16,
    ensures
        r@ == aes256_block(key@, block@),
        r@.len() == 16,
{
    let cipher = Aes256::new(GenericArray::from_slice(key));
    let mut b = GenericArray::clone_from_slice(block);
    cipher.encrypt_block(&mut b);
    b.to_vec()
}

/// Relies on `hmac::Hmac<Sha256>`: `new_from_slice` (any key length), `update`, `finalize`.
#[verifier::external_body]
pub(crate) fn hmac_sha256(key: &[u8], message: &[u8]) -> (r: Vec<u8>)
    ensures
        r@ == hmac_sha256_of(key@, message@),
        r@.len() == 32,
{
    let mut mac = <Hmac<Sha256> as Mac>::new_from_slice(key).expect("HMAC takes a key of any size");
    mac.update(message);
    mac.finalize().into_bytes().to_vec()
}

/// Relies on `hmac::Hmac<Sha256>` through `Mac::verify_slice`: accepts exactly the full
/// 32-octet tag of the message, compared in constant time.
#[verifier::external_body]
pub(crate) fn hmac_sha256_verify(key: &[u8], message: &[u8], tag: &[u8]) -> (r: bool)
    ensures
        r == (tag@ == hmac_sha256_of(key@, message@)),
{
    let mut mac = <Hmac<Sha256> as Mac>::new_from_slice(key).expect("HMAC takes a key of any size");
    mac.update(message);
    mac.verify_slice(tag).is_ok()
}

/// Relies on `sha2::Sha256::digest`.
#[verifier::external_body]
pub(crate) fn sha256(message: &[u8]) -> (r: Vec<u8>)
    ensures
        r@ == sha256_of(message@),
        r@.len() == 32,
{
    Sha256::digest(message).to_vec()
}

/// Relies on `rsa::RsaPublicKey::new` (the key's checks) and on
/// `VerifyingKey::<Sha512>::verify` (RSASSA-PKCS1-v1_5 over SHA-512). `None` when the key
/// is refused.
#[verifier::external_body]
pub(crate) fn rsa_sha512_verify(n: &[u8], e: &[u8], message: &[u8], signature: &[u8]) -> (r:
    Option<bool>)
    ensures
        r == (if rsa_key_accepted(n@, e@) {
            Some(rsa_sha512_accepted(n@, e@, message@, signature@))
        } else {
            None
        }),
{
    match RsaPublicKey::new(BigUint::from_bytes_be(n), BigUint::from_bytes_be(e)) {
        Ok(key) => match Signature::try_from(signature) {
            Ok(sig) => Some(VerifyingKey::<Sha512>::new(key).verify(message, &sig).is_ok()),
            Err(_) => Some(false),
        },
        Err(_) => None,
    }
}

/// Relies on `p256::SecretKey::random` with the operating system's generator: a fresh
/// secret scalar, as its 32 big-endian octets. The scalar is drawn nonzero and below the
/// group order, so it is a valid secret key.
#[verifier::external_body]
pub(crate) fn p256_new_secret() -> (r: Vec<u8>)
    ensures
        r@.len() == 32,
        p256_public_of(r@) is Some,
{
    SecretKey::random(&mut OsRng).to_bytes().to_vec()
}

/// Relies on `p256::SecretKey::from_slice`, `public_key` and `to_sec1_bytes` (uncompressed
/// for P-256: `0x04`, then both 32-octet coordinates).
#[verifier::external_body]
pub(crate) fn p256_public_key(secret: &[u8]) -> (r: Option<Vec<u8>>)
    ensures
        match r {
            Some(v) => p256_public_of(secret@) == Some(v@) && v@.len() == 65,
            None => p256_public_of(secret@) is None,
        },
{
    match SecretKey::from_slice(secret) {
        Ok(key) => Some(key.public_key().to_sec1_bytes().to_vec()),
        Err(_) => None,
    }
}

/// Relies on `p256::SecretKey::from_slice`, `p256::PublicKey::from_sec1_bytes` and
/// `p256::ecdh::diffie_hellman` (`raw_secret_bytes`: the x-coordinate, a 32-octet field
/// element).
#[verifier::external_body]
pub(crate) fn p256_shared_secret(secret: &[u8], peer: &[u8]) -> (r: Option<Vec<u8>>)
    ensures
        match r {
            Some(v) => p256_shared_of(secret@, peer@) == Some(v@) && v@.len() == 32,
            None => p256_shared_of(secret@, peer@) is None,
        },
{
    match (SecretKey::from_slice(secret), PublicKey::from_sec1_bytes(peer)) {
        (Ok(s), Ok(p)) => Some(diffie_hellman(s.to_nonzero_scalar(), p.as_affine()).raw_secret_bytes().to_vec()),
        _ => None,
    }
}

/// Relies on `rand::Rng::fill` over `rand_core::OsRng`: `n` random octets.
#[verifier::external_body]
pub(crate) fn random_bytes(n: usize) -> (r: Vec<u8>)
    ensures
        r@.len() == n,
{
    let mut bytes = vec![0u8; n];
    rand::Rng::fill(&mut OsRng, &mut bytes[..]);
    bytes
}

} // verus!
