//! The request interceptor: header reading and the anti-spoofing rewrite.
//!
//! A request's headers are modelled as an ordered list of name/value byte
//! pairs; names compare byte-for-byte, so callers hand them over in the
//! lower-case form the wire protocol normalises to.  Interception first
//! strips every client-supplied copy of the trusted-identity header, then
//! reads `authorization`, and re-adds the trusted header only for a token
//! that validates.  Every failure degrades to "no verified identity": no
//! error ever reaches the caller.

use vstd::prelude::*;
use crate::claims::{is_ws_byte, sp_ws};
use crate::util::bytes_eq;
use crate::validate::{sp_validate, TokenValidator};

verus! {

/// The trusted-identity header name, `x-subject`.
pub open spec fn subject_header_name() -> Seq<u8> {
    seq![0x78u8, 0x2du8, 0x73u8, 0x75u8, 0x62u8, 0x6au8, 0x65u8, 0x63u8, 0x74u8]
}

/// The `authorization` header name.
pub open spec fn authorization_header_name() -> Seq<u8> {
    seq![
        0x61u8,
        0x75u8,
        0x74u8,
        0x68u8,
        0x6fu8,
        0x72u8,
        0x69u8,
        0x7au8,
        0x61u8,
        0x74u8,
        0x69u8,
        0x6fu8,
        0x6eu8,
    ]
}

/// The required scheme word, `Bearer`.
pub open spec fn bearer_scheme() -> Seq<u8> {
    seq![0x42u8, 0x65u8, 0x61u8, 0x72u8, 0x65u8, 0x72u8]
}

/// The trusted-identity header name as a vector.
pub fn subject_header_name_vec() -> (v: Vec<u8>)
    ensures
        v@ == subject_header_name(),
{
    let v: Vec<u8> = vec![0x78, 0x2d, 0x73, 0x75, 0x62, 0x6a, 0x65, 0x63, 0x74];
    proof {
        assert(v@ =~= subject_header_name());
    }
    v
}

/// The `authorization` header name as a vector.
pub fn authorization_header_name_vec() -> (v: Vec<u8>)
    ensures
        v@ == authorization_header_name(),
{
    let v: Vec<u8> = vec![
        0x61,
        0x75,
        0x74,
        0x68,
        0x6f,
        0x72,
        0x69,
        0x7a,
        0x61,
        0x74,
        0x69,
        0x6f,
        0x6e,
    ];
    proof {
        assert(v@ =~= authorization_header_name());
    }
    v
}

/// The headers of one request, in order of arrival.
pub struct Headers {
    entries: Vec<(Vec<u8>, Vec<u8>)>,
}

impl View for Headers {
    type V = Seq<(Seq<u8>, Seq<u8>)>;

    closed spec fn view(&self) -> Seq<(Seq<u8>, Seq<u8>)> {
        Seq::new(self.entries@.len(), |i: int| (self.entries@[i].0@, self.entries@[i].1@))
    }
}

/// The list with every entry of the given name removed, order kept.
pub open spec fn sp_strip(m: Seq<(Seq<u8>, Seq<u8>)>, name: Seq<u8>) -> Seq<(Seq<u8>, Seq<u8>)>
    decreases m.len(),
{
    if m.len() == 0 {
        Seq::empty()
    } else {
        let rest = sp_strip(m.drop_last(), name);
        if m.last().0 == name {
            rest
        } else {
            rest.push(m.last())
        }
    }
}

pub open spec fn sp_get_from(m: Seq<(Seq<u8>, Seq<u8>)>, name: Seq<u8>, i: int) -> Option<Seq<u8>>
    decreases m.len() - i,
{
    if i < 0 || i >= m.len() {
        None
    } else if m[i].0 == name {
        Some(m[i].1)
    } else {
        sp_get_from(m, name, i + 1)
    }
}

/// The value of the first entry of the given name.
pub open spec fn sp_get(m: Seq<(Seq<u8>, Seq<u8>)>, name: Seq<u8>) -> Option<Seq<u8>> {
    sp_get_from(m, name, 0)
}

impl Headers {
    pub fn new() -> (h: Headers)
        ensures
            h@ == Seq::<(Seq<u8>, Seq<u8>)>::empty(),
    {
        let h = Headers { entries: Vec::new() };
        proof {
            assert(h@ =~= Seq::<(Seq<u8>, Seq<u8>)>::empty());
        }
        h
    }

    /// Appends an entry at the end.
    pub fn append(&mut self, name: Vec<u8>, value: Vec<u8>)
        ensures
            final(self)@ == old(self)@.push((name@, value@)),
    {
        let ghost n = name@;
        let ghost v = value@;
        self.entries.push((name, value));
        proof {
            assert(self@ =~= old(self)@.push((n, v)));
        }
    }

    pub fn len(&self) -> (n: usize)
        ensures
            n == self@.len(),
    {
        self.entries.len()
    }

    /// The name of the entry at a position.
    pub fn name_at(&self, i: usize) -> (n: &Vec<u8>)
        requires
            i < self@.len(),
        ensures
            n@ == self@[i as int].0,
    {
        &self.entries[i].0
    }

    /// The value of the entry at a position.
    pub fn value_at(&self, i: usize) -> (v: &Vec<u8>)
        requires
            i < self@.len(),
        ensures
            v@ == self@[i as int].1,
    {
        &self.entries[i].1
    }

    /// The value of the first entry of the given name, if any.
    pub fn get(&self, name: &[u8]) -> (r: Option<&Vec<u8>>)
        ensures
            (r is Some) == (sp_get(self@, name@) is Some),
            r is Some ==> r->Some_0@ == sp_get(self@, name@)->Some_0,
    {
        let mut k: usize = 0;
        while k < self.entries.len()
            invariant
                k <= self.entries.len(),
                sp_get_from(self@, name@, 0) == sp_get_from(self@, name@, k as int),
        decreases self.entries.len() - k,
        {
            if bytes_eq(self.entries[k].0.as_slice(), name) {
                return Some(&self.entries[k].1);
            }
            k += 1;
        }
        None
    }

    /// Removes every entry of the given name, keeping the order of the rest.
    pub fn remove(&mut self, name: &[u8])
        ensures
            final(self)@ == sp_strip(old(self)@, name@),
    {
        let mut out: Vec<(Vec<u8>, Vec<u8>)> = Vec::new();
        let mut k: usize = 0;
        let ghost m0 = self@;
        while k < self.entries.len()
            invariant
                k <= self.entries.len(),
                m0 == self@,
                Seq::new(out@.len(), |i: int| (out@[i].0@, out@[i].1@)) == sp_strip(
                    m0.take(k as int),
                    name@,
                ),
            decreases self.entries.len() - k,
        {
            let ghost outv = Seq::new(out@.len(), |i: int| (out@[i].0@, out@[i].1@));
            let keep = !bytes_eq(self.entries[k].0.as_slice(), name);
            if keep {
                let e = (self.entries[k].0.clone(), self.entries[k].1.clone());
                proof {
                    assert(e.0@ =~= self.entries@[k as int].0@);
                    assert(e.1@ =~= self.entries@[k as int].1@);
                }
                out.push(e);
            }
            proof {
                assert(m0.take(k + 1).drop_last() =~= m0.take(k as int));
                assert(m0.take(k + 1).last() == m0[k as int]);
                if keep {
                    assert(Seq::new(out@.len(), |i: int| (out@[i].0@, out@[i].1@)) =~= outv.push(
                        m0[k as int],
                    ));
                }
            }
            k += 1;
        }
        proof {
            assert(m0.take(self.entries@.len() as int) =~= m0);
        }
        self.entries = out;
    }
}

/// End of the run of non-whitespace bytes starting at `i`.
pub open spec fn sp_word_end(v: Seq<u8>, i: int) -> int
    decreases v.len() - i,
{
    if 0 <= i && i < v.len() && !is_ws_byte(v[i]) {
        sp_word_end(v, i + 1)
    } else {
        i
    }
}

/// The credential of an `authorization` value of the exact shape
/// `Bearer <token>`: the scheme word `Bearer`, whitespace, one further
/// word, and nothing else.  Any other shape counts as absence.
pub open spec fn sp_bearer(v: Seq<u8>) -> Option<Seq<u8>> {
    let a = sp_ws(v, 0);
    let b = sp_word_end(v, a);
    if b > a && v.subrange(a, b) == bearer_scheme() {
        let c = sp_ws(v, b);
        let d = sp_word_end(v, c);
        if d > c && sp_ws(v, d) == v.len() {
            Some(v.subrange(c, d))
        } else {
            None
        }
    } else {
        None
    }
}

fn skip_ws_bytes(v: &[u8], i: usize) -> (j: usize)
    requires
        i <= v.len(),
    ensures
        j as int == sp_ws(v@, i as int),
        i <= j <= v.len(),
{
    let mut k = i;
    while k < v.len() && (v[k] == 0x20 || v[k] == 0x09 || v[k] == 0x0a || v[k] == 0x0d)
        invariant
            i <= k <= v.len(),
            sp_ws(v@, i as int) == sp_ws(v@, k as int),
        decreases v.len() - k,
    {
        k += 1;
    }
    k
}

fn word_end(v: &[u8], i: usize) -> (j: usize)
    requires
        i <= v.len(),
    ensures
        j as int == sp_word_end(v@, i as int),
        i <= j <= v.len(),
{
    let mut k = i;
    while k < v.len() && !(v[k] == 0x20 || v[k] == 0x09 || v[k] == 0x0a || v[k] == 0x0d)
        invariant
            i <= k <= v.len(),
            sp_word_end(v@, i as int) == sp_word_end(v@, k as int),
        decreases v.len() - k,
    {
        k += 1;
    }
    k
}

/// Extracts the bearer credential from an `authorization` value, as
/// `sp_bearer` describes it.
fn bearer_token(v: &[u8]) -> (r: Option<Vec<u8>>)
    ensures
        (r is Some) == (sp_bearer(v@) is Some),
        r is Some ==> r->Some_0@ == sp_bearer(v@)->Some_0,
{
    let a = skip_ws_bytes(v, 0);
    let b = word_end(v, a);
    let scheme = vstd::slice::slice_subrange(v, a, b);
    let is_bearer = b > a && {
        let sb: &[u8] = &[0x42, 0x65, 0x61, 0x72, 0x65, 0x72];
        proof {
            assert(sb@ =~= bearer_scheme());
        }
        bytes_eq(scheme, sb)
    };
    if !is_bearer {
        return None;
    }
    let c = skip_ws_bytes(v, b);
    let d = word_end(v, c);
    if d > c {
        let e = skip_ws_bytes(v, d);
        if e == v.len() {
            let tok = vstd::slice::slice_subrange(v, c, d);
            return Some(vstd::slice::slice_to_vec(tok));
        }
    }
    None
}

/// What one interception does to the headers: the trusted-identity header
/// is stripped unconditionally, and re-added with the verified subject only
/// when a bearer credential is present and validates.
pub open spec fn sp_intercept(
    m: Seq<(Seq<u8>, Seq<u8>)>,
    key_pem: Seq<char>,
    cfg: crate::validate::ValidationConfig,
    now: u64,
) -> Seq<(Seq<u8>, Seq<u8>)> {
    let stripped = sp_strip(m, subject_header_name());
    match sp_get(m, authorization_header_name()) {
        None => stripped,
        Some(v) => match sp_bearer(v) {
            None => stripped,
            Some(tok) => match sp_validate(key_pem, cfg, tok, now) {
                Ok(sub) => stripped.push((subject_header_name(), sub)),
                Err(_) => stripped,
            },
        },
    }
}

/// Stripping leaves no entry under the stripped name.
pub proof fn lemma_strip_removes_all(m: Seq<(Seq<u8>, Seq<u8>)>, name: Seq<u8>)
    ensures
        forall|i: int|
            0 <= i < sp_strip(m, name).len() ==> (#[trigger] sp_strip(m, name)[i]).0 != name,
    decreases m.len(),
{
    if m.len() > 0 {
        lemma_strip_removes_all(m.drop_last(), name);
        let rest = sp_strip(m.drop_last(), name);
        if m.last().0 != name {
            assert(sp_strip(m, name) == rest.push(m.last()));
            assert forall|i: int| 0 <= i < sp_strip(m, name).len() implies (#[trigger] sp_strip(
                m,
                name,
            )[i]).0 != name by {
                if i < rest.len() {
                    assert(sp_strip(m, name)[i] == rest[i]);
                } else {
                    assert(sp_strip(m, name)[i] == m.last());
                }
            }
        }
    }
}

/// Law (anti-spoofing): whatever the incoming request carried, the headers
/// after interception are exactly the incoming ones with every
/// trusted-identity entry removed — in particular when no `authorization`
/// header is present — except that one entry whose value is a subject the
/// validator verified may stand at the end.  A client-supplied value of the
/// trusted-identity header therefore never survives interception.
pub proof fn lemma_intercept_no_spoof(
    m: Seq<(Seq<u8>, Seq<u8>)>,
    key_pem: Seq<char>,
    cfg: crate::validate::ValidationConfig,
    now: u64,
)
    ensures
        sp_get(m, authorization_header_name()) is None ==> sp_intercept(m, key_pem, cfg, now)
            == sp_strip(m, subject_header_name()),
        ({
            let r = sp_intercept(m, key_pem, cfg, now);
            let stripped = sp_strip(m, subject_header_name());
            r == stripped || (r.len() == stripped.len() + 1 && r.take(r.len() - 1) == stripped
                && r.last().0 == subject_header_name() && (match sp_get(
                m,
                authorization_header_name(),
            ) {
                Some(v) => match sp_bearer(v) {
                    Some(tok) => sp_validate(key_pem, cfg, tok, now) == Ok::<
                        Seq<u8>,
                        crate::validate::AuthError,
                    >(r.last().1),
                    None => false,
                },
                None => false,
            }))
        }),
        forall|i: int|
            0 <= i < sp_intercept(m, key_pem, cfg, now).len() - 1 ==> (#[trigger] sp_intercept(
                m,
                key_pem,
                cfg,
                now,
            )[i]).0 != subject_header_name(),
{
    lemma_strip_removes_all(m, subject_header_name());
    let stripped = sp_strip(m, subject_header_name());
    match sp_get(m, authorization_header_name()) {
        None => {
        },
        Some(v) => {
            match sp_bearer(v) {
                None => {
                },
                Some(tok) => {
                    match sp_validate(key_pem, cfg, tok, now) {
                        Ok(sub) => {
                            let r = stripped.push((subject_header_name(), sub));
                            assert(r.take(r.len() - 1) =~= stripped);
                        },
                        Err(_) => {
                        },
                    }
                },
            }
        },
    }
}

/// The middleware adapter around a validator.
pub struct RequestInterceptor {
    pub validator: TokenValidator,
}

impl RequestInterceptor {
    pub fn new(validator: TokenValidator) -> (r: RequestInterceptor)
        ensures
            r.validator.key@ == validator.key@,
            r.validator.cfg == validator.cfg,
    {
        RequestInterceptor { validator }
    }

    /// Processes one request's headers in place.  Never fails: every
    /// validation failure leaves the request with no trusted-identity
    /// header, as `sp_intercept` states.
    pub fn intercept(&self, headers: &mut Headers, now: u64)
        ensures
            final(headers)@ == sp_intercept(
                old(headers)@,
                self.validator.key@,
                self.validator.cfg,
                now,
            ),
    {
        let an = authorization_header_name_vec();
        let auth: Option<Vec<u8>> = match headers.get(an.as_slice()) {
            Some(v) => {
                let c = v.clone();
                proof {
                    assert(c@ =~= v@);
                }
                Some(c)
            },
            None => None,
        };
        let sn = subject_header_name_vec();
        headers.remove(sn.as_slice());
        let value = match auth {
            None => {
                return ;
            },
            Some(v) => v,
        };
        let tok = match bearer_token(value.as_slice()) {
            None => {
                return ;
            },
            Some(t) => t,
        };
        match self.validator.validate_bytes(tok.as_slice(), now) {
            Ok(sub) => {
                headers.append(subject_header_name_vec(), sub);
            },
            Err(_) => {},
        }
    }
}

} // verus!
