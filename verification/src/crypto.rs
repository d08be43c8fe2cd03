//! SHA-256 and Ed25519, as provided by the sha2 and ed25519-dalek crates.
use ed25519_dalek::{Signature, Signer, SigningKey, Verifier, VerifyingKey};
use sha2::{Digest, Sha256};
use vstd::prelude::*;

verus! {

/// The SHA-256 digest of a byte string, as the sha2 crate computes it.
pub uninterp spec fn sha256_digest(data: Seq<u8>) -> Seq<u8>;

/// The 32-byte Ed25519 public key that belongs to a 32-byte secret key.
pub uninterp spec fn ed25519_public_key(secret: Seq<u8>) -> Seq<u8>;

/// The 64-byte Ed25519 signature of a message under a 32-byte secret key.
pub uninterp spec fn ed25519_signature(secret: Seq<u8>, message: Seq<u8>) -> Seq<u8>;

/// Whether 32 bytes decode to an Ed25519 public key (a valid curve point).
pub uninterp spec fn ed25519_key_decodes(public: Seq<u8>) -> bool;

/// Whether a signature over a message is accepted under a decodable public key.
pub uninterp spec fn ed25519_accepts(public: Seq<u8>, message: Seq<u8>, signature: Seq<u8>) -> bool;

/// `Sha256::digest`: the 32-byte SHA-256 digest of the data.
#[verifier::external_body]
pub(crate) fn sha256(data: &[u8]) -> (res: [u8; 32])
    ensures
        res@ == sha256_digest(data@),
{
    Sha256::digest(data).into()
}

/// `SigningKey::from_bytes` then `verifying_key`: the public key of a secret
/// key. A public key made this way always decodes again.
#[verifier::external_body]
pub(crate) fn ed25519_derive_public(secret: &[u8; 32]) -> (res: [u8; 32])
    ensures
        res@ == ed25519_public_key(secret@),
        ed25519_key_decodes(res@),
{
    SigningKey::from_bytes(secret).verifying_key().to_bytes()
}

/// `Signer::sign` on the signing key made from the secret bytes. The
/// signature is accepted under the public key of the same secret (Ed25519
/// correctness).
#[verifier::external_body]
pub(crate) fn ed25519_sign(secret: &[u8; 32], message: &[u8]) -> (res: [u8; 64])
    ensures
        res@ == ed25519_signature(secret@, message@),
        ed25519_accepts(ed25519_public_key(secret@), message@, res@),
{
    SigningKey::from_bytes(secret).sign(message).to_bytes()
}

/// `VerifyingKey::from_bytes` then `Verifier::verify`: `None` when the key
/// bytes are not a public key, else whether the signature is accepted.
#[verifier::external_body]
pub(crate) fn ed25519_verify(public: &[u8; 32], message: &[u8], signature: &[u8; 64]) -> (res: Option<bool>)
    ensures
        res == if ed25519_key_decodes(public@) {
            Some(ed25519_accepts(public@, message@, signature@))
        } else {
            None
        },
{
    match VerifyingKey::from_bytes(public) {
        Ok(key) => Some(key.verify(message, &Signature::from_bytes(signature)).is_ok()),
        Err(_) => None,
    }
}

/// `SigningKey::generate` with the operating system's random source: a fresh
/// secret key. Nothing is promised of its bytes.
#[verifier::external_body]
pub(crate) fn ed25519_generate_secret() -> (res: [u8; 32]) {
    SigningKey::generate(&mut rand::rngs::OsRng).to_bytes()
}

} // verus!
