//! Ed25519 identity: a secret key and the public key derived from it.
use crate::crypto::{
    ed25519_accepts, ed25519_derive_public, ed25519_generate_secret, ed25519_key_decodes,
    ed25519_public_key, ed25519_sign, ed25519_signature, ed25519_verify,
};
use crate::encoding::{
    bytes32, hex_decode, hex_decode_bytes, hex_decode_error, hex_encode, hex_lower, HexError,
};
use crate::text::{all_whitespace, is_whitespace, lemma_trimmed_surrounded, trim, trimmed};
use vstd::prelude::*;
use vstd::string::*;
use vstd::utf8::*;

verus! {

/// Why an identity or a signature was refused.
#[derive(Debug, Clone, Copy, PartialEq, Eq, Structural)]
pub enum IdentityError {
    /// The signature does not verify under the identity's public key.
    InvalidSignature,
    /// The secret text is not hex, for this reason.
    InvalidHex(HexError),
    /// The secret decodes to this many bytes instead of 32.
    WrongLength(usize),
}

/// An Ed25519 keypair. The public key is always the one derived from the
/// secret key.
#[derive(Clone, Copy, PartialEq, Eq)]
pub struct Identity {
    secret: [u8; 32],
    public: [u8; 32],
}

/// What decoding a hex secret gives: the 32 secret bytes, or the error.
pub open spec fn secret_from_hex(text: Seq<char>) -> Result<Seq<u8>, IdentityError> {
    match hex_decode_bytes(encode_utf8(trimmed(text))) {
        None => Err(IdentityError::InvalidHex(hex_decode_error(encode_utf8(trimmed(text))))),
        Some(bytes) => if bytes.len() == 32 {
            Ok(bytes)
        } else {
            Err(IdentityError::WrongLength(bytes.len() as usize))
        },
    }
}

impl Identity {
    #[verifier::type_invariant]
    spec fn keys_match(self) -> bool {
        &&& self.public@ == ed25519_public_key(self.secret@)
        &&& ed25519_key_decodes(self.public@)
    }

    /// The 32-byte secret key.
    pub closed spec fn secret_key(self) -> Seq<u8> {
        self.secret@
    }

    /// The 32-byte public key.
    pub open spec fn public_key(self) -> Seq<u8> {
        ed25519_public_key(self.secret_key())
    }

    /// A new identity with a random secret key.
    pub fn generate() -> (res: Identity)
        ensures
            res.secret_key().len() == 32,
    {
        let secret = ed25519_generate_secret();
        Identity::from_secret_bytes(&secret)
    }

    /// The identity of the given secret key.
    pub fn from_secret_bytes(secret: &[u8; 32]) -> (res: Identity)
        ensures
            res.secret_key() == secret@,
    {
        let public = ed25519_derive_public(secret);
        Identity { secret: *secret, public }
    }

    /// The public key as lowercase hex.
    pub fn pubkey_hex(&self) -> (res: String)
        ensures
            res@ == hex_lower(self.public_key()),
    {
        proof {
            use_type_invariant(self);
        }
        hex_encode(self.public.as_slice())
    }

    /// Signs a message. The signature verifies under this identity.
    pub fn sign(&self, message: &[u8]) -> (res: [u8; 64])
        ensures
            res@ == ed25519_signature(self.secret_key(), message@),
            ed25519_accepts(self.public_key(), message@, res@),
            ed25519_key_decodes(self.public_key()),
            self.public_key().len() == 32,
    {
        proof {
            use_type_invariant(self);
        }
        ed25519_sign(&self.secret, message)
    }

    /// Checks a signature over a message against this identity's public key.
    pub fn verify(&self, message: &[u8], signature: &[u8; 64]) -> (res: Result<(), IdentityError>)
        ensures
            res is Ok <==> ed25519_accepts(self.public_key(), message@, signature@),
            res is Err ==> res == Err::<(), IdentityError>(IdentityError::InvalidSignature),
    {
        proof {
            use_type_invariant(self);
        }
        match ed25519_verify(&self.public, message, signature) {
            Some(true) => Ok(()),
            _ => Err(IdentityError::InvalidSignature),
        }
    }

    /// The secret key as lowercase hex.
    pub fn secret_hex(&self) -> (res: String)
        ensures
            res@ == hex_lower(self.secret_key()),
            self.secret_key().len() == 32,
            secret_from_hex(res@) == Ok::<Seq<u8>, IdentityError>(self.secret_key()),
    {
        proof {
            assert(Seq::<char>::empty() + hex_lower(self.secret_key()) + Seq::<char>::empty()
                =~= hex_lower(self.secret_key()));
            lemma_secret_hex_roundtrip(Seq::empty(), self.secret_key(), Seq::empty());
        }
        hex_encode(self.secret.as_slice())
    }

    /// The identity of a hex secret key; whitespace around it is ignored.
    pub fn from_secret_hex(hex_str: &str) -> (res: Result<Identity, IdentityError>)
        ensures
            match res {
                Ok(id) => secret_from_hex(hex_str@) == Ok::<Seq<u8>, IdentityError>(id.secret_key()),
                Err(e) => secret_from_hex(hex_str@) == Err::<Seq<u8>, IdentityError>(e),
            },
    {
        let text = trim(hex_str);
        let bytes = match hex_decode(text) {
            Ok(bytes) => bytes,
            Err(e) => return Err(IdentityError::InvalidHex(e)),
        };
        if bytes.len() != 32 {
            return Err(IdentityError::WrongLength(bytes.len()));
        }
        let secret = bytes32(bytes.as_slice());
        Ok(Identity::from_secret_bytes(&secret))
    }
}

/// A secret key written as hex is read back as the same key, also with
/// whitespace around the text.
pub proof fn lemma_secret_hex_roundtrip(pre: Seq<char>, secret: Seq<u8>, post: Seq<char>)
    requires
        secret.len() == 32,
        all_whitespace(pre),
        all_whitespace(post),
    ensures
        secret_from_hex(pre + hex_lower(secret) + post) == Ok::<Seq<u8>, IdentityError>(secret),
{
    let h = hex_lower(secret);
    crate::encoding::lemma_hex_roundtrip(secret);
    crate::encoding::lemma_hex_has_no_whitespace(secret);
    assert(!is_whitespace(h[0]));
    assert(!is_whitespace(h[h.len() - 1]));
    lemma_trimmed_surrounded(pre, h, post);
}

} // verus!
