//! Token validation: the ordered sequence of checks that turns a bearer
//! token into a verified subject or a classified failure.
//!
//! The order is fixed and security-relevant: structure, declared algorithm,
//! signature, and only then the claims — claims are attacker-controlled
//! until the signature is proven.  The whole pipeline is a pure function of
//! the token, the key, the configuration and the given clock reading.

use vstd::prelude::*;
use crate::b64::{b64_decode, b64_decoded};
use crate::claims::{parse_fields, parsed_claims, header_alg, DocKind, SpClaims};
use crate::keys::{KeyStore, rs256_verifies};
use crate::util::{all_printable_ascii, ascii_chars, ascii_string, is_all_printable_ascii};

verus! {

/// The terminal, non-retryable outcomes of validating one token.
#[derive(Clone, Copy, Debug, PartialEq, Eq, Structural)]
pub enum AuthError {
    /// Structurally invalid token or claims (also an unusable subject).
    Malformed,
    /// Any declared algorithm but RS256, including `none`.
    UnsupportedAlgorithm,
    /// The signature does not check against the configured key.
    InvalidSignature,
    /// `exp` lies more than the leeway before the clock reading.
    Expired,
    /// `iat` lies more than the leeway after the clock reading.
    NotYetValid,
    /// `exp - iat` exceeds the configured maximum lifetime.
    ExcessiveLifetime,
}

/// Immutable validation settings.  `expiry_secs == 0` leaves the token
/// lifetime unconstrained; `leeway_secs` absorbs clock skew in every
/// time comparison.
#[derive(Clone, Copy, Debug, PartialEq, Eq, Structural)]
pub struct ValidationConfig {
    pub expiry_secs: u64,
    pub leeway_secs: u64,
}

/// The bytes of the only accepted algorithm name, `RS256`.
pub open spec fn name_rs256() -> Seq<u8> {
    seq![0x52u8, 0x53u8, 0x32u8, 0x35u8, 0x36u8]
}

/// Position of the first `.` at or after `i`.
pub open spec fn dot_from(t: Seq<u8>, i: int) -> Option<int>
    decreases t.len() - i,
{
    if i < 0 || i >= t.len() {
        None
    } else if t[i] == 0x2e {
        Some(i)
    } else {
        dot_from(t, i + 1)
    }
}

/// The three segments of a token with exactly two dots, in order.
pub open spec fn sp_split3(t: Seq<u8>) -> Option<(Seq<u8>, Seq<u8>, Seq<u8>)> {
    match dot_from(t, 0) {
        None => None,
        Some(d1) => match dot_from(t, d1 + 1) {
            None => None,
            Some(d2) => match dot_from(t, d2 + 1) {
                Some(_) => None,
                None => Some(
                    (
                        t.subrange(0, d1),
                        t.subrange(d1 + 1, d2),
                        t.subrange(d2 + 1, t.len() as int),
                    ),
                ),
            },
        },
    }
}

/// The bytes the signature covers: everything before the second dot.
pub open spec fn signing_input(t: Seq<u8>) -> Seq<u8> {
    match dot_from(t, 0) {
        Some(d1) => match dot_from(t, d1 + 1) {
            Some(d2) => t.subrange(0, d2),
            None => Seq::empty(),
        },
        None => Seq::empty(),
    }
}

/// The time and subject checks applied to verified claims.
pub open spec fn sp_check_claims(cfg: ValidationConfig, c: SpClaims, now: u64) -> Result<
    Seq<u8>,
    AuthError,
> {
    if now > c.exp + cfg.leeway_secs {
        Err(AuthError::Expired)
    } else if c.iat is Some && c.iat->Some_0 > now + cfg.leeway_secs {
        Err(AuthError::NotYetValid)
    } else if cfg.expiry_secs > 0 && c.iat is Some && c.exp - c.iat->Some_0 > cfg.expiry_secs {
        Err(AuthError::ExcessiveLifetime)
    } else if c.sub.len() == 0 || !all_printable_ascii(c.sub) {
        Err(AuthError::Malformed)
    } else {
        Ok(c.sub)
    }
}

/// What validating a token yields: the subject bytes of a token that passes
/// every check, or the first failure in the fixed order of checks.
pub open spec fn sp_validate(key_pem: Seq<char>, cfg: ValidationConfig, t: Seq<u8>, now: u64) -> Result<
    Seq<u8>,
    AuthError,
> {
    match sp_split3(t) {
        None => Err(AuthError::Malformed),
        Some(seg) => match (b64_decoded(seg.0), b64_decoded(seg.1), b64_decoded(seg.2)) {
            (Some(hb), Some(pb), Some(sig)) => match header_alg(hb) {
                None => Err(AuthError::Malformed),
                Some(alg) => {
                    if alg != name_rs256() {
                        Err(AuthError::UnsupportedAlgorithm)
                    } else if !rs256_verifies(key_pem, signing_input(t), sig) {
                        Err(AuthError::InvalidSignature)
                    } else {
                        match parsed_claims(pb) {
                            None => Err(AuthError::Malformed),
                            Some(c) => sp_check_claims(cfg, c, now),
                        }
                    }
                },
            },
            _ => Err(AuthError::Malformed),
        },
    }
}

/// Law: validation is a pure function of the key, the settings, the token
/// and the clock reading — two validations of the same token under an
/// unchanged clock yield the same outcome.
pub proof fn lemma_validate_idempotent(
    key_pem: Seq<char>,
    cfg: ValidationConfig,
    t: Seq<u8>,
    now: u64,
)
    ensures
        sp_validate(key_pem, cfg, t, now) == sp_validate(key_pem, cfg, t, now),
{
}

/// Law: a structurally well-formed token that declares RS256 but whose
/// signature does not check against the configured key — in particular one
/// signed with any other key — is rejected as `InvalidSignature`.
pub proof fn lemma_invalid_signature_rejected(
    key_pem: Seq<char>,
    cfg: ValidationConfig,
    t: Seq<u8>,
    now: u64,
)
    requires
        sp_split3(t) is Some,
        b64_decoded((sp_split3(t)->Some_0).0) is Some,
        b64_decoded((sp_split3(t)->Some_0).1) is Some,
        b64_decoded((sp_split3(t)->Some_0).2) is Some,
        header_alg(b64_decoded((sp_split3(t)->Some_0).0)->Some_0) == Some(name_rs256()),
        !rs256_verifies(key_pem, signing_input(t), b64_decoded((sp_split3(t)->Some_0).2)->Some_0),
    ensures
        sp_validate(key_pem, cfg, t, now) == Err::<Seq<u8>, AuthError>(AuthError::InvalidSignature),
{
}

/// Law: a structurally well-formed token whose header declares any
/// algorithm other than RS256 (including `none`) is rejected as
/// `UnsupportedAlgorithm`, whatever the key and whatever the signature
/// bytes — the signature is never consulted.
pub proof fn lemma_non_rs256_rejected(
    key_pem: Seq<char>,
    cfg: ValidationConfig,
    t: Seq<u8>,
    now: u64,
)
    requires
        sp_split3(t) is Some,
        b64_decoded((sp_split3(t)->Some_0).0) is Some,
        b64_decoded((sp_split3(t)->Some_0).1) is Some,
        b64_decoded((sp_split3(t)->Some_0).2) is Some,
        header_alg(b64_decoded((sp_split3(t)->Some_0).0)->Some_0) is Some,
        header_alg(b64_decoded((sp_split3(t)->Some_0).0)->Some_0)->Some_0 != name_rs256(),
    ensures
        sp_validate(key_pem, cfg, t, now) == Err::<Seq<u8>, AuthError>(
            AuthError::UnsupportedAlgorithm,
        ),
{
}

/// Law: an otherwise acceptable token whose `exp` lies exactly one second
/// beyond the leeway window is `Expired`.
pub proof fn lemma_expired_just_outside_leeway(cfg: ValidationConfig, c: SpClaims, now: u64)
    requires
        c.exp as int == now - 1 - cfg.leeway_secs,
    ensures
        sp_check_claims(cfg, c, now) == Err::<Seq<u8>, AuthError>(AuthError::Expired),
{
}

/// Law: a token whose `exp` is `now + 1 - leeway` lies within the leeway
/// window; when every other check passes it validates to its subject.
pub proof fn lemma_within_leeway_accepted(cfg: ValidationConfig, c: SpClaims, now: u64)
    requires
        c.exp as int == now + 1 - cfg.leeway_secs,
        c.iat is Some ==> c.iat->Some_0 <= now + cfg.leeway_secs,
        (cfg.expiry_secs > 0 && c.iat is Some) ==> c.exp - c.iat->Some_0 <= cfg.expiry_secs,
        c.sub.len() > 0,
        all_printable_ascii(c.sub),
    ensures
        sp_check_claims(cfg, c, now) == Ok::<Seq<u8>, AuthError>(c.sub),
{
}

/// Law (`Expired` through the whole pipeline): a token that passes
/// structure, algorithm and signature checks and whose decoded `exp` lies
/// exactly one second beyond the leeway window is rejected as `Expired`.
pub proof fn lemma_validate_expired(key_pem: Seq<char>, cfg: ValidationConfig, t: Seq<u8>, now: u64)
    requires
        sp_split3(t) is Some,
        b64_decoded((sp_split3(t)->Some_0).0) is Some,
        b64_decoded((sp_split3(t)->Some_0).1) is Some,
        b64_decoded((sp_split3(t)->Some_0).2) is Some,
        header_alg(b64_decoded((sp_split3(t)->Some_0).0)->Some_0) == Some(name_rs256()),
        rs256_verifies(key_pem, signing_input(t), b64_decoded((sp_split3(t)->Some_0).2)->Some_0),
        parsed_claims(b64_decoded((sp_split3(t)->Some_0).1)->Some_0) is Some,
        (parsed_claims(b64_decoded((sp_split3(t)->Some_0).1)->Some_0)->Some_0).exp as int == now - 1
            - cfg.leeway_secs,
    ensures
        sp_validate(key_pem, cfg, t, now) == Err::<Seq<u8>, AuthError>(AuthError::Expired),
{
}

fn find_dot(t: &[u8], i: usize) -> (r: Option<usize>)
    requires
        i <= t.len(),
    ensures
        (r is Some) == (dot_from(t@, i as int) is Some),
        r is Some ==> r->Some_0 as int == dot_from(t@, i as int)->Some_0,
        r is Some ==> i <= r->Some_0 < t.len(),
{
    let mut k = i;
    while k < t.len()
        invariant
            i <= k <= t.len(),
            dot_from(t@, i as int) == dot_from(t@, k as int),
        decreases t.len() - k,
    {
        if t[k] == 0x2e {
            return Some(k);
        }
        k += 1;
    }
    None
}

fn is_rs256_name(a: &[u8]) -> (r: bool)
    ensures
        r == (a@ == name_rs256()),
{
    if a.len() == 5 && a[0] == 0x52 && a[1] == 0x53 && a[2] == 0x32 && a[3] == 0x35 && a[4]
        == 0x36 {
        proof {
            assert(a@ =~= name_rs256());
        }
        true
    } else {
        proof {
            if a@ == name_rs256() {
                assert(a@.len() == 5);
                assert(a@[0] == 0x52 && a@[1] == 0x53 && a@[2] == 0x32 && a@[3] == 0x35 && a@[4]
                    == 0x36);
            }
        }
        false
    }
}

/// A validator: the loaded key and the immutable settings.
pub struct TokenValidator {
    pub key: KeyStore,
    pub cfg: ValidationConfig,
}

impl TokenValidator {
    pub fn new(key: KeyStore, cfg: ValidationConfig) -> (v: TokenValidator)
        ensures
            v.key@ == key@,
            v.cfg == cfg,
    {
        TokenValidator { key, cfg }
    }

    /// Validates one bearer token against the key and the clock reading
    /// `now` (seconds since the epoch), returning the verified subject or
    /// the first failing check.
    pub fn validate(&self, token: &[u8], now: u64) -> (r: Result<String, AuthError>)
        ensures
            (r is Ok) == (sp_validate(self.key@, self.cfg, token@, now) is Ok),
            r is Ok ==> r->Ok_0@ == ascii_chars(sp_validate(self.key@, self.cfg, token@, now)->Ok_0),
            r is Err ==> r->Err_0 == sp_validate(self.key@, self.cfg, token@, now)->Err_0,
    {
        match self.validate_bytes(token, now) {
            Ok(sub) => Ok(ascii_string(sub.as_slice())),
            Err(e) => Err(e),
        }
    }

    /// As `validate`, but yields the subject as its bytes.
    pub fn validate_bytes(&self, token: &[u8], now: u64) -> (r: Result<Vec<u8>, AuthError>)
        ensures
            (r is Ok) == (sp_validate(self.key@, self.cfg, token@, now) is Ok),
            r is Ok ==> r->Ok_0@ == sp_validate(self.key@, self.cfg, token@, now)->Ok_0,
            r is Ok ==> all_printable_ascii(r->Ok_0@) && r->Ok_0@.len() > 0,
            r is Err ==> r->Err_0 == sp_validate(self.key@, self.cfg, token@, now)->Err_0,
    {
        let d1 = match find_dot(token, 0) {
            Some(d) => d,
            None => {
                return Err(AuthError::Malformed);
            },
        };
        let d2 = match find_dot(token, d1 + 1) {
            Some(d) => d,
            None => {
                return Err(AuthError::Malformed);
            },
        };
        match find_dot(token, d2 + 1) {
            Some(_) => {
                return Err(AuthError::Malformed);
            },
            None => {},
        };
        let h = vstd::slice::slice_subrange(token, 0, d1);
        let p = vstd::slice::slice_subrange(token, d1 + 1, d2);
        let g = vstd::slice::slice_subrange(token, d2 + 1, token.len());
        let hb = match b64_decode(h) {
            Some(v) => v,
            None => {
                return Err(AuthError::Malformed);
            },
        };
        let pb = match b64_decode(p) {
            Some(v) => v,
            None => {
                return Err(AuthError::Malformed);
            },
        };
        let sig = match b64_decode(g) {
            Some(v) => v,
            None => {
                return Err(AuthError::Malformed);
            },
        };
        let hf = match parse_fields(hb.as_slice(), DocKind::Header) {
            Some(f) => f,
            None => {
                return Err(AuthError::Malformed);
            },
        };
        let alg = match hf.alg {
            Some(a) => a,
            None => {
                return Err(AuthError::Malformed);
            },
        };
        if !is_rs256_name(alg.as_slice()) {
            return Err(AuthError::UnsupportedAlgorithm);
        }
        let si = vstd::slice::slice_subrange(token, 0, d2);
        proof {
            assert(si@ =~= signing_input(token@));
        }
        if !self.key.rs256_verify(si, sig.as_slice()) {
            return Err(AuthError::InvalidSignature);
        }
        let pf = match parse_fields(pb.as_slice(), DocKind::Payload) {
            Some(f) => f,
            None => {
                return Err(AuthError::Malformed);
            },
        };
        let sub = match pf.sub {
            Some(x) => x,
            None => {
                return Err(AuthError::Malformed);
            },
        };
        let exp = match pf.exp {
            Some(x) => x,
            None => {
                return Err(AuthError::Malformed);
            },
        };
        let iat = pf.iat;
        proof {
            assert(parsed_claims(pb@) == Some((SpClaims { sub: sub@, exp: exp, iat: iat })));
        }
        if (now as u128) > (exp as u128) + (self.cfg.leeway_secs as u128) {
            return Err(AuthError::Expired);
        }
        if let Some(ia) = iat {
            if (ia as u128) > (now as u128) + (self.cfg.leeway_secs as u128) {
                return Err(AuthError::NotYetValid);
            }
        }
        if self.cfg.expiry_secs > 0 {
            if let Some(ia) = iat {
                if exp > ia && exp - ia > self.cfg.expiry_secs {
                    return Err(AuthError::ExcessiveLifetime);
                }
            }
        }
        if sub.len() == 0 {
            return Err(AuthError::Malformed);
        }
        if !is_all_printable_ascii(sub.as_slice()) {
            return Err(AuthError::Malformed);
        }
        Ok(sub)
    }
}

} // verus!
