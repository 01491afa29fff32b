//! The RSA public key: loaded once at startup, immutable, shared read-only
//! by every validation.
//!
//! Parsing the PEM text and checking RSASSA-PKCS1-v1_5 signatures are done
//! by the `rsa` crate behind the trusted items below; everything a contract
//! says about a key is said in terms of the PEM text it was loaded from.

use vstd::prelude::*;

verus! {

#[verifier::external_type_specification]
#[verifier::external_body]
pub struct ExRsaPublicKey(rsa::RsaPublicKey);

/// Whether a text is a PEM-encoded RSA public key in SubjectPublicKeyInfo
/// form, exactly the texts `rsa::RsaPublicKey::from_public_key_pem` accepts.
pub uninterp spec fn is_spki_rsa_pem(s: Seq<char>) -> bool;

/// Whether a text is a PEM-encoded RSA public key in PKCS#1 form, exactly
/// the texts `rsa::RsaPublicKey::from_pkcs1_pem` accepts.
pub uninterp spec fn is_pkcs1_rsa_pem(s: Seq<char>) -> bool;

/// Whether `sig` is a valid RSASSA-PKCS1-v1_5 SHA-256 signature over `msg`
/// under the RSA public key that the PEM text `key_pem` denotes.
pub uninterp spec fn rs256_verifies(key_pem: Seq<char>, msg: Seq<u8>, sig: Seq<u8>) -> bool;

/// The key material could not be parsed as an RSA public key.  Fatal at
/// startup: the surrounding service must refuse to run without a usable key.
#[derive(Clone, Copy, Debug, PartialEq, Eq, Structural)]
pub struct KeyLoadError;

/// An RSA public key together with the PEM text it was loaded from.  The
/// view of a `KeyStore` is that text; a value is only ever built by `load`,
/// so the held key is always the one the text denotes.
pub struct KeyStore {
    key: rsa::RsaPublicKey,
    pem: String,
}

impl View for KeyStore {
    type V = Seq<char>;

    closed spec fn view(&self) -> Seq<char> {
        self.pem@
    }
}

impl KeyStore {
    /// Relies on `rsa::RsaPublicKey::from_public_key_pem`: it parses exactly
    /// the SubjectPublicKeyInfo PEM texts, deterministically, and never
    /// panics.
    #[verifier::external_body]
    fn from_spki_pem(pem: &str) -> (r: Option<KeyStore>)
        ensures
            (r is Some) == is_spki_rsa_pem(pem@),
            r is Some ==> r->Some_0@ == pem@,
    {
        match <rsa::RsaPublicKey as rsa::pkcs8::DecodePublicKey>::from_public_key_pem(pem) {
            Ok(key) => Some(KeyStore { key, pem: pem.to_string() }),
            Err(_) => None,
        }
    }

    /// Relies on `rsa::RsaPublicKey::from_pkcs1_pem`: it parses exactly the
    /// PKCS#1 PEM texts, deterministically, and never panics.
    #[verifier::external_body]
    fn from_pkcs1_pem(pem: &str) -> (r: Option<KeyStore>)
        ensures
            (r is Some) == is_pkcs1_rsa_pem(pem@),
            r is Some ==> r->Some_0@ == pem@,
    {
        match <rsa::RsaPublicKey as rsa::pkcs1::DecodeRsaPublicKey>::from_pkcs1_pem(pem) {
            Ok(key) => Some(KeyStore { key, pem: pem.to_string() }),
            Err(_) => None,
        }
    }

    /// Loads an RSA public key from PEM text, accepting the
    /// SubjectPublicKeyInfo and PKCS#1 forms and nothing else.
    pub fn load(pem: &str) -> (r: Result<KeyStore, KeyLoadError>)
        ensures
            (r is Ok) == (is_spki_rsa_pem(pem@) || is_pkcs1_rsa_pem(pem@)),
            r is Ok ==> r->Ok_0@ == pem@,
    {
        match Self::from_spki_pem(pem) {
            Some(k) => Ok(k),
            None => match Self::from_pkcs1_pem(pem) {
                Some(k) => Ok(k),
                None => Err(KeyLoadError),
            },
        }
    }

    /// Relies on `rsa::pkcs1v15::VerifyingKey::<Sha256>::verify` (RFC 8017
    /// §8.2) and `rsa::pkcs1v15::Signature::try_from`: the check is a pure
    /// function of the key, the message bytes and the signature bytes, and
    /// never panics.
    #[verifier::external_body]
    pub(crate) fn rs256_verify(&self, msg: &[u8], sig: &[u8]) -> (r: bool)
        ensures
            r == rs256_verifies(self@, msg@, sig@),
    {
        let vk = rsa::pkcs1v15::VerifyingKey::<rsa::sha2::Sha256>::new(self.key.clone());
        match rsa::pkcs1v15::Signature::try_from(sig) {
            Ok(sg) => rsa::signature::Verifier::verify(&vk, msg, &sg).is_ok(),
            Err(_) => false,
        }
    }
}

} // verus!
