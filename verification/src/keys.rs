//! The asymmetric key material of the token codec, loaded once from
//! PEM-encoded EC keys, and the ES256 signing and verification primitives.

use vstd::prelude::*;
use crate::b64::is_b64_byte;

verus! {

#[verifier::external_type_specification]
#[verifier::external_body]
pub struct ExEncodingKey(jsonwebtoken::EncodingKey);

#[verifier::external_type_specification]
#[verifier::external_body]
pub struct ExDecodingKey(jsonwebtoken::DecodingKey);

/// Whether ES256 verification accepts `sig` — base64url text, given as its
/// bytes — as a signature over `message` under the public key that was
/// loaded from the PEM bytes `pem`. Verification is a pure function of
/// these three values.
pub uninterp spec fn sig_valid(pem: Seq<u8>, message: Seq<u8>, sig: Seq<u8>) -> bool;

/// What ES256 signing yields for the signing key loaded from the PEM
/// bytes `priv_pem` over `message`: the base64url text of the signature
/// as bytes, or nothing when signing fails. The configured provider signs
/// with RFC 6979 deterministic ECDSA, so the outcome is a function of the
/// two byte strings.
pub uninterp spec fn es256_sign_b64(priv_pem: Seq<u8>, message: Seq<u8>) -> Option<Seq<u8>>;

/// Whether `pem` holds a PEM-encoded EC private key that the signing-key
/// constructor accepts; parsing is a pure function of the bytes.
pub uninterp spec fn ec_private_pem_ok(pem: Seq<u8>) -> bool;

/// Whether `pem` holds a PEM-encoded EC public key that the
/// verification-key constructor accepts.
pub uninterp spec fn ec_public_pem_ok(pem: Seq<u8>) -> bool;

/// The reasons loading a key pair can fail. Key material is loaded once at
/// startup, and a failure there is fatal to the process.
#[derive(Clone, Copy, Debug, PartialEq, Eq, Structural)]
pub enum KeyError {
    InvalidPrivateKey,
    InvalidPublicKey,
}

/// Cryptographic keys to sign and verify an access token. The key objects
/// stay private to this module; the PEM bytes both were loaded from are
/// kept so that contracts can name the key pair by plain values.
pub struct Keys {
    encoding: jsonwebtoken::EncodingKey,
    decoding: jsonwebtoken::DecodingKey,
    private_pem: Vec<u8>,
    public_pem: Vec<u8>,
}

impl Keys {
    /// The PEM bytes of the verification key; contracts about signature
    /// acceptance are stated over these.
    pub closed spec fn pem(&self) -> Seq<u8> {
        self.public_pem@
    }

    /// The PEM bytes of the signing key; contracts about signing are
    /// stated over these.
    pub closed spec fn priv_pem(&self) -> Seq<u8> {
        self.private_pem@
    }

    /// Create [`Keys`] from a PEM-encoded EC private and public key pair.
    /// It succeeds exactly when both keys are valid EC PEM, and errs
    /// naming the bad key, the private one first.
    pub fn from_ec_keys(private: &[u8], public: &[u8]) -> (r: Result<Keys, KeyError>)
        ensures
            r matches Ok(k) ==> k.pem() == public@ && k.priv_pem() == private@,
            r is Ok <==> ec_private_pem_ok(private@) && ec_public_pem_ok(public@),
            r == Err::<Keys, KeyError>(KeyError::InvalidPrivateKey) <==> !ec_private_pem_ok(
                private@,
            ),
            r == Err::<Keys, KeyError>(KeyError::InvalidPublicKey) <==> ec_private_pem_ok(
                private@,
            ) && !ec_public_pem_ok(public@),
    {
        let encoding = match encoding_key_from_ec_pem(private) {
            Some(k) => k,
            None => {
                return Err(KeyError::InvalidPrivateKey);
            },
        };
        let decoding = match decoding_key_from_ec_pem(public) {
            Some(k) => k,
            None => {
                return Err(KeyError::InvalidPublicKey);
            },
        };
        Ok(
            Keys {
                encoding,
                decoding,
                private_pem: vstd::slice::slice_to_vec(private),
                public_pem: vstd::slice::slice_to_vec(public),
            },
        )
    }
}

/// Relies on `jsonwebtoken::EncodingKey::from_ec_pem`: builds a signing
/// key from PEM-encoded EC private key bytes; parsing is deterministic in
/// the bytes and fails exactly on what [`ec_private_pem_ok`] excludes.
#[verifier::external_body]
fn encoding_key_from_ec_pem(pem: &[u8]) -> (r: Option<jsonwebtoken::EncodingKey>)
    ensures
        r is Some <==> ec_private_pem_ok(pem@),
{
    jsonwebtoken::EncodingKey::from_ec_pem(pem).ok()
}

/// Relies on `jsonwebtoken::DecodingKey::from_ec_pem`: builds a
/// verification key from PEM-encoded EC public key bytes; parsing is
/// deterministic in the bytes and fails exactly on what
/// [`ec_public_pem_ok`] excludes.
#[verifier::external_body]
fn decoding_key_from_ec_pem(pem: &[u8]) -> (r: Option<jsonwebtoken::DecodingKey>)
    ensures
        r is Some <==> ec_public_pem_ok(pem@),
{
    jsonwebtoken::DecodingKey::from_ec_pem(pem).ok()
}

/// Relies on `jsonwebtoken::crypto::sign`: signs `message` with ES256 and
/// returns the base64url (no padding) text of the signature as bytes, so
/// every byte is in the base64url alphabet. With the crate's provider the
/// signature is computed by RFC 6979 deterministic ECDSA, so the outcome
/// is [`es256_sign_b64`] of the key's PEM bytes and the message. (A host
/// process could install a different jsonwebtoken crypto provider; this
/// crate enables only this one and installs no other.)
#[verifier::external_body]
pub(crate) fn ecdsa_sign_b64(keys: &Keys, message: &[u8]) -> (r: Option<Vec<u8>>)
    ensures
        r matches Some(s) ==> es256_sign_b64(keys.priv_pem(), message@) == Some(s@)
            && forall|i: int| 0 <= i < s@.len() ==> #[trigger] is_b64_byte(s@[i]),
        r is None ==> es256_sign_b64(keys.priv_pem(), message@) is None,
{
    match jsonwebtoken::crypto::sign(message, &keys.encoding, jsonwebtoken::Algorithm::ES256) {
        Ok(s) => Some(s.into_bytes()),
        Err(_) => None,
    }
}

/// Relies on `jsonwebtoken::crypto::verify`: checks an ES256 signature,
/// given as base64url text, over `message` under the verification key.
/// The outcome is deterministic in the key, message and signature, which
/// [`sig_valid`] names; signature bytes that are not UTF-8 are accepted
/// by no key. (As with signing, a host process could install a different
/// jsonwebtoken crypto provider; this crate enables only one and
/// installs no other.)
#[verifier::external_body]
pub(crate) fn ecdsa_verify_b64(keys: &Keys, message: &[u8], sig: &[u8]) -> (r: bool)
    ensures
        r == sig_valid(keys.pem(), message@, sig@),
{
    match std::str::from_utf8(sig) {
        Ok(s) => jsonwebtoken::crypto::verify(
            s,
            message,
            &keys.decoding,
            jsonwebtoken::Algorithm::ES256,
        ).unwrap_or(false),
        Err(_) => false,
    }
}

} // verus!
