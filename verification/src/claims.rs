//! Decoding of JWT header and payload documents.
//!
//! Both segments are JSON objects.  The grammar below covers JSON with
//! strings, integers and decimal numbers, literals, and nested objects and
//! arrays up to a fixed nesting depth; string escapes are the single-letter
//! ones (`\" \\ \/ \b \f \n \r \t`).  From the header the `alg` member is
//! read (it must be a string); from the payload `sub` (string), `exp` and
//! `iat` (non-negative integers that fit in a `u64`).  A document outside
//! this grammar, or one whose recognised member has the wrong shape, does
//! not decode.

use vstd::prelude::*;

verus! {

/// Nesting depth bound for skipped JSON values, as deep parsers commonly cap
/// recursion.
pub const JSON_DEPTH: u32 = 64;

pub open spec fn is_ws_byte(b: u8) -> bool {
    b == 0x20 || b == 0x09 || b == 0x0a || b == 0x0d
}

pub open spec fn is_digit_byte(b: u8) -> bool {
    0x30 <= b && b <= 0x39
}

/// Position of the first non-whitespace byte at or after `i`.
pub open spec fn sp_ws(s: Seq<u8>, i: int) -> int
    decreases s.len() - i,
{
    if 0 <= i && i < s.len() && is_ws_byte(s[i]) {
        sp_ws(s, i + 1)
    } else {
        i
    }
}

/// Byte denoted by a single-letter string escape, or -1.
pub open spec fn esc_val(b: u8) -> int {
    if b == 0x22 {
        0x22
    } else if b == 0x5c {
        0x5c
    } else if b == 0x2f {
        0x2f
    } else if b == 0x62 {
        8
    } else if b == 0x66 {
        12
    } else if b == 0x6e {
        10
    } else if b == 0x72 {
        13
    } else if b == 0x74 {
        9
    } else {
        -1
    }
}

/// Parses the remainder of a JSON string after the opening quote: returns
/// the decoded content and the position after the closing quote.
pub open spec fn sp_str_tail(s: Seq<u8>, i: int) -> Option<(Seq<u8>, int)>
    decreases s.len() - i,
{
    if i < 0 || i >= s.len() {
        None
    } else if s[i] == 0x22 {
        Some((Seq::empty(), i + 1))
    } else if s[i] == 0x5c {
        if i + 1 < s.len() && esc_val(s[i + 1]) >= 0 {
            match sp_str_tail(s, i + 2) {
                Some(p) => Some((seq![esc_val(s[i + 1]) as u8] + p.0, p.1)),
                None => None,
            }
        } else {
            None
        }
    } else if s[i] >= 0x20 {
        match sp_str_tail(s, i + 1) {
            Some(p) => Some((seq![s[i]] + p.0, p.1)),
            None => None,
        }
    } else {
        None
    }
}

/// Parses a JSON string starting at `i`.
pub open spec fn sp_string(s: Seq<u8>, i: int) -> Option<(Seq<u8>, int)> {
    if 0 <= i && i < s.len() && s[i] == 0x22 {
        sp_str_tail(s, i + 1)
    } else {
        None
    }
}

/// End of the run of digit bytes starting at `i`.
pub open spec fn sp_digits_end(s: Seq<u8>, i: int) -> int
    decreases s.len() - i,
{
    if 0 <= i && i < s.len() && is_digit_byte(s[i]) {
        sp_digits_end(s, i + 1)
    } else {
        i
    }
}

/// Numeric value of a run of digit bytes.
pub open spec fn digits_val(s: Seq<u8>) -> int
    decreases s.len(),
{
    if s.len() == 0 {
        0
    } else {
        digits_val(s.drop_last()) * 10 + (s.last() - 0x30)
    }
}

/// Parses an unsigned decimal integer that fits in a `u64`.
pub open spec fn sp_u64(s: Seq<u8>, i: int) -> Option<(u64, int)> {
    let e = sp_digits_end(s, i);
    if 0 <= i && e > i && digits_val(s.subrange(i, e)) <= u64::MAX {
        Some((digits_val(s.subrange(i, e)) as u64, e))
    } else {
        None
    }
}

/// End of an optional fraction part (`.` digits) at `i`.
pub open spec fn sp_frac_end(s: Seq<u8>, i: int) -> Option<int> {
    if 0 <= i && i < s.len() && s[i] == 0x2e {
        let j = sp_digits_end(s, i + 1);
        if j > i + 1 {
            Some(j)
        } else {
            None
        }
    } else {
        Some(i)
    }
}

/// End of an optional exponent part (`e`/`E` sign digits) at `i`.
pub open spec fn sp_exp_end(s: Seq<u8>, i: int) -> Option<int> {
    if 0 <= i && i < s.len() && (s[i] == 0x65 || s[i] == 0x45) {
        let i0 = if i + 1 < s.len() && (s[i + 1] == 0x2b || s[i + 1] == 0x2d) {
            i + 2
        } else {
            i + 1
        };
        let j = sp_digits_end(s, i0);
        if j > i0 {
            Some(j)
        } else {
            None
        }
    } else {
        Some(i)
    }
}

/// End of a JSON number starting at `i`.
pub open spec fn sp_number_end(s: Seq<u8>, i: int) -> Option<int> {
    let i0 = if 0 <= i && i < s.len() && s[i] == 0x2d {
        i + 1
    } else {
        i
    };
    let i1 = sp_digits_end(s, i0);
    if i1 == i0 {
        None
    } else {
        match sp_frac_end(s, i1) {
            None => None,
            Some(i2) => sp_exp_end(s, i2),
        }
    }
}

/// End of any JSON value starting at `i`; `depth` bounds container nesting.
pub open spec fn sp_value_end(s: Seq<u8>, i: int, depth: nat) -> Option<int>
    decreases depth, s.len() - i, 0int,
{
    if i < 0 || i >= s.len() {
        None
    } else if s[i] == 0x22 {
        match sp_string(s, i) {
            Some(p) => Some(p.1),
            None => None,
        }
    } else if s[i] == 0x7b {
        if depth == 0 {
            None
        } else {
            sp_object_rest(s, i + 1, (depth - 1) as nat)
        }
    } else if s[i] == 0x5b {
        if depth == 0 {
            None
        } else {
            sp_array_rest(s, i + 1, (depth - 1) as nat)
        }
    } else if s[i] == 0x74 {
        if i + 4 <= s.len() && s[i + 1] == 0x72 && s[i + 2] == 0x75 && s[i + 3] == 0x65 {
            Some(i + 4)
        } else {
            None
        }
    } else if s[i] == 0x66 {
        if i + 5 <= s.len() && s[i + 1] == 0x61 && s[i + 2] == 0x6c && s[i + 3] == 0x73 && s[i + 4]
            == 0x65 {
            Some(i + 5)
        } else {
            None
        }
    } else if s[i] == 0x6e {
        if i + 4 <= s.len() && s[i + 1] == 0x75 && s[i + 2] == 0x6c && s[i + 3] == 0x6c {
            Some(i + 4)
        } else {
            None
        }
    } else if s[i] == 0x2d || is_digit_byte(s[i]) {
        sp_number_end(s, i)
    } else {
        None
    }
}

/// Rest of an object after its `{`.
pub open spec fn sp_object_rest(s: Seq<u8>, i: int, depth: nat) -> Option<int>
    decreases depth, s.len() - i, 2int,
{
    if i < 0 {
        None
    } else {
        let j = sp_ws(s, i);
        if i <= j && j < s.len() && s[j] == 0x7d {
            Some(j + 1)
        } else if i <= j && j <= s.len() {
            sp_members(s, j, depth)
        } else {
            None
        }
    }
}

/// A member list `string : value (, ...)* }` starting at a member's key.
pub open spec fn sp_members(s: Seq<u8>, i: int, depth: nat) -> Option<int>
    decreases depth, s.len() - i, 1int,
{
    match sp_string(s, i) {
        None => None,
        Some(kp) => {
            let k = sp_ws(s, kp.1);
            if !(i < kp.1 && kp.1 <= k && k < s.len() && s[k] == 0x3a) {
                None
            } else {
                let m = sp_ws(s, k + 1);
                if !(i < m && m <= s.len()) {
                    None
                } else {
                    match sp_value_end(s, m, depth) {
                        None => None,
                        Some(e) => {
                            let w = sp_ws(s, e);
                            if w < s.len() && s[w] == 0x2c {
                                let n = sp_ws(s, w + 1);
                                if i < n && n <= s.len() {
                                    sp_members(s, n, depth)
                                } else {
                                    None
                                }
                            } else if w < s.len() && s[w] == 0x7d {
                                Some(w + 1)
                            } else {
                                None
                            }
                        },
                    }
                }
            }
        },
    }
}

/// Rest of an array after its `[`.
pub open spec fn sp_array_rest(s: Seq<u8>, i: int, depth: nat) -> Option<int>
    decreases depth, s.len() - i, 2int,
{
    if i < 0 {
        None
    } else {
        let j = sp_ws(s, i);
        if i <= j && j < s.len() && s[j] == 0x5d {
            Some(j + 1)
        } else if i <= j && j <= s.len() {
            sp_elements(s, j, depth)
        } else {
            None
        }
    }
}

/// An element list `value (, value)* ]` starting at an element.
pub open spec fn sp_elements(s: Seq<u8>, i: int, depth: nat) -> Option<int>
    decreases depth, s.len() - i, 1int,
{
    match sp_value_end(s, i, depth) {
        None => None,
        Some(e) => {
            let w = sp_ws(s, e);
            if w < s.len() && s[w] == 0x2c {
                let n = sp_ws(s, w + 1);
                if i < n && n <= s.len() {
                    sp_elements(s, n, depth)
                } else {
                    None
                }
            } else if w < s.len() && s[w] == 0x5d {
                Some(w + 1)
            } else {
                None
            }
        },
    }
}

/// Which JWT document is being read.
#[derive(Clone, Copy)]
pub enum DocKind {
    Header,
    Payload,
}

/// The recognised members gathered while walking a document.
pub struct FieldsV {
    pub alg: Option<Seq<u8>>,
    pub sub: Option<Seq<u8>>,
    pub exp: Option<u64>,
    pub iat: Option<u64>,
}

pub open spec fn empty_fields() -> FieldsV {
    FieldsV { alg: None, sub: None, exp: None, iat: None }
}

pub open spec fn name_alg() -> Seq<u8> {
    seq![0x61u8, 0x6cu8, 0x67u8]
}

pub open spec fn name_sub() -> Seq<u8> {
    seq![0x73u8, 0x75u8, 0x62u8]
}

pub open spec fn name_exp() -> Seq<u8> {
    seq![0x65u8, 0x78u8, 0x70u8]
}

pub open spec fn name_iat() -> Seq<u8> {
    seq![0x69u8, 0x61u8, 0x74u8]
}

/// Reads one member value at `m` under key `key`, updating the gathered
/// fields.  A recognised member must have the right shape; any other member
/// is skipped as a generic value.  A later duplicate overrides an earlier one.
pub open spec fn sp_field_value(s: Seq<u8>, m: int, acc: FieldsV, key: Seq<u8>, kind: DocKind) -> Option<
    (FieldsV, int),
> {
    if (kind is Header) && key == name_alg() {
        match sp_string(s, m) {
            Some(p) => Some((FieldsV { alg: Some(p.0), sub: acc.sub, exp: acc.exp, iat: acc.iat }, p.1)),
            None => None,
        }
    } else if (kind is Payload) && key == name_sub() {
        match sp_string(s, m) {
            Some(p) => Some((FieldsV { alg: acc.alg, sub: Some(p.0), exp: acc.exp, iat: acc.iat }, p.1)),
            None => None,
        }
    } else if (kind is Payload) && key == name_exp() {
        match sp_u64(s, m) {
            Some(p) => Some((FieldsV { alg: acc.alg, sub: acc.sub, exp: Some(p.0), iat: acc.iat }, p.1)),
            None => None,
        }
    } else if (kind is Payload) && key == name_iat() {
        match sp_u64(s, m) {
            Some(p) => Some((FieldsV { alg: acc.alg, sub: acc.sub, exp: acc.exp, iat: Some(p.0) }, p.1)),
            None => None,
        }
    } else {
        match sp_value_end(s, m, JSON_DEPTH as nat) {
            Some(e) => Some((acc, e)),
            None => None,
        }
    }
}

/// Walks the member list of the top-level document object, gathering the
/// recognised members.
pub open spec fn sp_fields_members(s: Seq<u8>, i: int, acc: FieldsV, kind: DocKind) -> Option<
    (FieldsV, int),
>
    decreases s.len() - i,
{
    match sp_string(s, i) {
        None => None,
        Some(kp) => {
            let k = sp_ws(s, kp.1);
            if !(i < kp.1 && kp.1 <= k && k < s.len() && s[k] == 0x3a) {
                None
            } else {
                let m = sp_ws(s, k + 1);
                if !(i < m && m <= s.len()) {
                    None
                } else {
                    match sp_field_value(s, m, acc, kp.0, kind) {
                        None => None,
                        Some(ve) => {
                            let w = sp_ws(s, ve.1);
                            if w < s.len() && s[w] == 0x2c {
                                let n = sp_ws(s, w + 1);
                                if i < n && n <= s.len() {
                                    sp_fields_members(s, n, ve.0, kind)
                                } else {
                                    None
                                }
                            } else if w < s.len() && s[w] == 0x7d {
                                Some((ve.0, w + 1))
                            } else {
                                None
                            }
                        },
                    }
                }
            }
        },
    }
}

/// Parses a whole document: one top-level JSON object with nothing but
/// whitespace around it.
pub open spec fn sp_fields(s: Seq<u8>, kind: DocKind) -> Option<FieldsV> {
    let i = sp_ws(s, 0);
    if 0 <= i && i < s.len() && s[i] == 0x7b {
        let j = sp_ws(s, i + 1);
        if j < s.len() && s[j] == 0x7d {
            if sp_ws(s, j + 1) == s.len() {
                Some(empty_fields())
            } else {
                None
            }
        } else if i + 1 <= j && j <= s.len() {
            match sp_fields_members(s, j, empty_fields(), kind) {
                None => None,
                Some(p) => {
                    if sp_ws(s, p.1) == s.len() {
                        Some(p.0)
                    } else {
                        None
                    }
                },
            }
        } else {
            None
        }
    } else {
        None
    }
}

/// The `alg` string of a JWT header document, when the document decodes and
/// declares one.
pub open spec fn header_alg(hb: Seq<u8>) -> Option<Seq<u8>> {
    match sp_fields(hb, DocKind::Header) {
        None => None,
        Some(f) => f.alg,
    }
}

/// The claims of a JWT payload document: present exactly when the document
/// decodes and carries a string `sub` and an integer `exp`.
pub struct SpClaims {
    pub sub: Seq<u8>,
    pub exp: u64,
    pub iat: Option<u64>,
}

pub open spec fn parsed_claims(pb: Seq<u8>) -> Option<SpClaims> {
    match sp_fields(pb, DocKind::Payload) {
        None => None,
        Some(f) => match (f.sub, f.exp) {
            (Some(sub), Some(exp)) => Some(SpClaims { sub, exp, iat: f.iat }),
            _ => None,
        },
    }
}

// ---------------------------------------------------------------------------
// Executable parser
// ---------------------------------------------------------------------------

fn skip_ws(s: &[u8], i: usize) -> (j: usize)
    requires
        i <= s.len(),
    ensures
        j as int == sp_ws(s@, i as int),
        i <= j <= s.len(),
{
    let mut k = i;
    while k < s.len() && (s[k] == 0x20 || s[k] == 0x09 || s[k] == 0x0a || s[k] == 0x0d)
        invariant
            i <= k <= s.len(),
            sp_ws(s@, i as int) == sp_ws(s@, k as int),
        decreases s.len() - k,
    {
        k += 1;
    }
    k
}

fn esc_val_of(b: u8) -> (v: i16)
    ensures
        v as int == esc_val(b),
{
    if b == 0x22 {
        0x22
    } else if b == 0x5c {
        0x5c
    } else if b == 0x2f {
        0x2f
    } else if b == 0x62 {
        8
    } else if b == 0x66 {
        12
    } else if b == 0x6e {
        10
    } else if b == 0x72 {
        13
    } else if b == 0x74 {
        9
    } else {
        -1
    }
}

fn parse_string(s: &[u8], i: usize) -> (r: Option<(Vec<u8>, usize)>)
    requires
        i <= s.len(),
    ensures
        (r is Some) == (sp_string(s@, i as int) is Some),
        r is Some ==> (r->Some_0).0@ == (sp_string(s@, i as int)->Some_0).0,
        r is Some ==> (r->Some_0).1 as int == (sp_string(s@, i as int)->Some_0).1,
        r is Some ==> i < (r->Some_0).1 <= s.len(),
{
    if i >= s.len() || s[i] != 0x22 {
        return None;
    }
    let mut cur = i + 1;
    let mut out: Vec<u8> = Vec::new();
    loop
        invariant
            i + 1 <= cur <= s.len(),
            s@[i as int] == 0x22,
            i < s.len(),
            (match sp_str_tail(s@, cur as int) {
                Some(p) => sp_str_tail(s@, i + 1) == Some((out@ + p.0, p.1)),
                None => sp_str_tail(s@, i + 1) is None,
            }),
        decreases s.len() - cur,
    {
        if cur >= s.len() {
            return None;
        }
        let b = s[cur];
        if b == 0x22 {
            proof {
                assert(out@ + Seq::<u8>::empty() =~= out@);
            }
            return Some((out, cur + 1));
        } else if b == 0x5c {
            if cur + 1 >= s.len() {
                return None;
            }
            let e = esc_val_of(s[cur + 1]);
            if e < 0 {
                return None;
            }
            let ghost old_out = out@;
            let ghost c0 = cur as int;
            out.push(e as u8);
            proof {
                match sp_str_tail(s@, c0 + 2) {
                    Some(p) => {
                        assert(sp_str_tail(s@, c0) == Some((seq![esc_val(s@[c0 + 1]) as u8] + p.0, p.1)));
                        assert(old_out + (seq![esc_val(s@[c0 + 1]) as u8] + p.0) =~= out@ + p.0);
                    },
                    None => {
                        assert(sp_str_tail(s@, c0) is None);
                    },
                }
            }
            cur = cur + 2;
        } else if b >= 0x20 {
            let ghost old_out = out@;
            let ghost c0 = cur as int;
            out.push(b);
            proof {
                match sp_str_tail(s@, c0 + 1) {
                    Some(p) => {
                        assert(sp_str_tail(s@, c0) == Some((seq![s@[c0]] + p.0, p.1)));
                        assert(old_out + (seq![s@[c0]] + p.0) =~= out@ + p.0);
                    },
                    None => {
                        assert(sp_str_tail(s@, c0) is None);
                    },
                }
            }
            cur = cur + 1;
        } else {
            return None;
        }
    }
}

fn skip_digits(s: &[u8], i: usize) -> (e: usize)
    requires
        i <= s.len(),
    ensures
        e as int == sp_digits_end(s@, i as int),
        i <= e <= s.len(),
        forall|k: int| i <= k < e ==> is_digit_byte(#[trigger] s@[k]),
{
    let mut k = i;
    while k < s.len() && 0x30 <= s[k] && s[k] <= 0x39
        invariant
            i <= k <= s.len(),
            sp_digits_end(s@, i as int) == sp_digits_end(s@, k as int),
            forall|j: int| i <= j < k ==> is_digit_byte(#[trigger] s@[j]),
        decreases s.len() - k,
    {
        k += 1;
    }
    k
}

proof fn lemma_digits_val_nonneg(run: Seq<u8>)
    requires
        forall|k: int| 0 <= k < run.len() ==> is_digit_byte(#[trigger] run[k]),
    ensures
        digits_val(run) >= 0,
    decreases run.len(),
{
    if run.len() > 0 {
        assert(forall|k: int|
            0 <= k < run.drop_last().len() ==> is_digit_byte(#[trigger] run.drop_last()[k]));
        lemma_digits_val_nonneg(run.drop_last());
    }
}

proof fn lemma_digits_prefix_le(run: Seq<u8>, m: int)
    requires
        0 <= m <= run.len(),
        forall|k: int| 0 <= k < run.len() ==> is_digit_byte(#[trigger] run[k]),
    ensures
        digits_val(run.take(m)) <= digits_val(run),
    decreases run.len() - m,
{
    if m < run.len() {
        lemma_digits_prefix_le(run, m + 1);
        assert(run.take(m + 1).drop_last() =~= run.take(m));
        assert(forall|k: int|
            0 <= k < run.take(m).len() ==> is_digit_byte(#[trigger] run.take(m)[k]));
        lemma_digits_val_nonneg(run.take(m));
        assert(digits_val(run.take(m + 1)) == digits_val(run.take(m)) * 10 + (run[m] - 0x30));
    } else {
        assert(run.take(m) =~= run);
    }
}

fn parse_u64(s: &[u8], i: usize) -> (r: Option<(u64, usize)>)
    requires
        i <= s.len(),
    ensures
        (r is Some) == (sp_u64(s@, i as int) is Some),
        r is Some ==> (r->Some_0).0 == (sp_u64(s@, i as int)->Some_0).0,
        r is Some ==> (r->Some_0).1 as int == (sp_u64(s@, i as int)->Some_0).1,
        r is Some ==> i < (r->Some_0).1 <= s.len(),
{
    let e = skip_digits(s, i);
    if e == i {
        return None;
    }
    let ghost run = s@.subrange(i as int, e as int);
    let mut val: u128 = 0;
    let mut k = i;
    while k < e
        invariant
            i <= k <= e <= s.len(),
            e as int == sp_digits_end(s@, i as int),
            forall|j: int| i <= j < e ==> is_digit_byte(#[trigger] s@[j]),
            run == s@.subrange(i as int, e as int),
            val == digits_val(s@.subrange(i as int, k as int)),
            val <= u64::MAX as u128,
        decreases e - k,
    {
        let d = s[k] - 0x30;
        val = val * 10 + d as u128;
        proof {
            assert(s@.subrange(i as int, k + 1).drop_last() =~= s@.subrange(i as int, k as int));
            assert(s@.subrange(i as int, k + 1).last() == s@[k as int]);
        }
        if val > u64::MAX as u128 {
            proof {
                assert(forall|j: int| 0 <= j < run.len() ==> is_digit_byte(#[trigger] run[j]));
                assert(run.take(k + 1 - i) =~= s@.subrange(i as int, k + 1));
                lemma_digits_prefix_le(run, k + 1 - i);
            }
            return None;
        }
        k += 1;
    }
    Some((val as u64, e))
}

fn skip_number(s: &[u8], i: usize) -> (r: Option<usize>)
    requires
        i <= s.len(),
    ensures
        (r is Some) == (sp_number_end(s@, i as int) is Some),
        r is Some ==> r->Some_0 as int == sp_number_end(s@, i as int)->Some_0,
        r is Some ==> i < r->Some_0 <= s.len(),
{
    let i0 = if i < s.len() && s[i] == 0x2d {
        i + 1
    } else {
        i
    };
    let i1 = skip_digits(s, i0);
    if i1 == i0 {
        return None;
    }
    let i2 = if i1 < s.len() && s[i1] == 0x2e {
        let j = skip_digits(s, i1 + 1);
        if j == i1 + 1 {
            return None;
        }
        j
    } else {
        i1
    };
    if i2 < s.len() && (s[i2] == 0x65 || s[i2] == 0x45) {
        let i3 = if i2 + 1 < s.len() && (s[i2 + 1] == 0x2b || s[i2 + 1] == 0x2d) {
            i2 + 2
        } else {
            i2 + 1
        };
        let j = skip_digits(s, i3);
        if j == i3 {
            return None;
        }
        Some(j)
    } else {
        Some(i2)
    }
}

fn skip_value(s: &[u8], i: usize, depth: u32) -> (r: Option<usize>)
    requires
        i <= s.len(),
    ensures
        (r is Some) == (sp_value_end(s@, i as int, depth as nat) is Some),
        r is Some ==> r->Some_0 as int == sp_value_end(s@, i as int, depth as nat)->Some_0,
        r is Some ==> i < r->Some_0 <= s.len(),
    decreases depth, s.len() - i, 0int,
{
    if i >= s.len() {
        return None;
    }
    let b = s[i];
    if b == 0x22 {
        match parse_string(s, i) {
            Some(p) => Some(p.1),
            None => None,
        }
    } else if b == 0x7b {
        if depth == 0 {
            None
        } else {
            skip_object_rest(s, i + 1, depth - 1)
        }
    } else if b == 0x5b {
        if depth == 0 {
            None
        } else {
            skip_array_rest(s, i + 1, depth - 1)
        }
    } else if b == 0x74 {
        if s.len() - i >= 4 && s[i + 1] == 0x72 && s[i + 2] == 0x75 && s[i + 3] == 0x65 {
            Some(i + 4)
        } else {
            None
        }
    } else if b == 0x66 {
        if s.len() - i >= 5 && s[i + 1] == 0x61 && s[i + 2] == 0x6c && s[i + 3] == 0x73 && s[i + 4]
            == 0x65 {
            Some(i + 5)
        } else {
            None
        }
    } else if b == 0x6e {
        if s.len() - i >= 4 && s[i + 1] == 0x75 && s[i + 2] == 0x6c && s[i + 3] == 0x6c {
            Some(i + 4)
        } else {
            None
        }
    } else if b == 0x2d || (0x30 <= b && b <= 0x39) {
        skip_number(s, i)
    } else {
        None
    }
}

fn skip_object_rest(s: &[u8], i: usize, depth: u32) -> (r: Option<usize>)
    requires
        i <= s.len(),
    ensures
        (r is Some) == (sp_object_rest(s@, i as int, depth as nat) is Some),
        r is Some ==> r->Some_0 as int == sp_object_rest(s@, i as int, depth as nat)->Some_0,
        r is Some ==> i < r->Some_0 <= s.len(),
    decreases depth, s.len() - i, 2int,
{
    let j = skip_ws(s, i);
    if j < s.len() && s[j] == 0x7d {
        Some(j + 1)
    } else {
        skip_members(s, j, depth)
    }
}

fn skip_members(s: &[u8], i: usize, depth: u32) -> (r: Option<usize>)
    requires
        i <= s.len(),
    ensures
        (r is Some) == (sp_members(s@, i as int, depth as nat) is Some),
        r is Some ==> r->Some_0 as int == sp_members(s@, i as int, depth as nat)->Some_0,
        r is Some ==> i < r->Some_0 <= s.len(),
    decreases depth, s.len() - i, 1int,
{
    match parse_string(s, i) {
        None => None,
        Some(kp) => {
            let k = skip_ws(s, kp.1);
            if !(k < s.len() && s[k] == 0x3a) {
                return None;
            }
            let m = skip_ws(s, k + 1);
            match skip_value(s, m, depth) {
                None => None,
                Some(e) => {
                    let w = skip_ws(s, e);
                    if w < s.len() && s[w] == 0x2c {
                        let n = skip_ws(s, w + 1);
                        skip_members(s, n, depth)
                    } else if w < s.len() && s[w] == 0x7d {
                        Some(w + 1)
                    } else {
                        None
                    }
                },
            }
        },
    }
}

fn skip_array_rest(s: &[u8], i: usize, depth: u32) -> (r: Option<usize>)
    requires
        i <= s.len(),
    ensures
        (r is Some) == (sp_array_rest(s@, i as int, depth as nat) is Some),
        r is Some ==> r->Some_0 as int == sp_array_rest(s@, i as int, depth as nat)->Some_0,
        r is Some ==> i < r->Some_0 <= s.len(),
    decreases depth, s.len() - i, 2int,
{
    let j = skip_ws(s, i);
    if j < s.len() && s[j] == 0x5d {
        Some(j + 1)
    } else {
        skip_elements(s, j, depth)
    }
}

fn skip_elements(s: &[u8], i: usize, depth: u32) -> (r: Option<usize>)
    requires
        i <= s.len(),
    ensures
        (r is Some) == (sp_elements(s@, i as int, depth as nat) is Some),
        r is Some ==> r->Some_0 as int == sp_elements(s@, i as int, depth as nat)->Some_0,
        r is Some ==> i < r->Some_0 <= s.len(),
    decreases depth, s.len() - i, 1int,
{
    match skip_value(s, i, depth) {
        None => None,
        Some(e) => {
            let w = skip_ws(s, e);
            if w < s.len() && s[w] == 0x2c {
                let n = skip_ws(s, w + 1);
                skip_elements(s, n, depth)
            } else if w < s.len() && s[w] == 0x5d {
                Some(w + 1)
            } else {
                None
            }
        },
    }
}

/// The recognised members of a document, as decoded values.
pub struct Fields {
    pub alg: Option<Vec<u8>>,
    pub sub: Option<Vec<u8>>,
    pub exp: Option<u64>,
    pub iat: Option<u64>,
}

impl View for Fields {
    type V = FieldsV;

    open spec fn view(&self) -> FieldsV {
        FieldsV {
            alg: match self.alg {
                Some(v) => Some(v@),
                None => None,
            },
            sub: match self.sub {
                Some(v) => Some(v@),
                None => None,
            },
            exp: self.exp,
            iat: self.iat,
        }
    }
}

fn name_is(k: &[u8], b0: u8, b1: u8, b2: u8) -> (r: bool)
    ensures
        r == (k@ == seq![b0, b1, b2]),
{
    if k.len() == 3 && k[0] == b0 && k[1] == b1 && k[2] == b2 {
        proof {
            assert(k@ =~= seq![b0, b1, b2]);
        }
        true
    } else {
        proof {
            if k@ == seq![b0, b1, b2] {
                assert(k@.len() == 3);
                assert(k@[0] == b0 && k@[1] == b1 && k@[2] == b2);
            }
        }
        false
    }
}

fn parse_members(s: &[u8], i: usize, acc: Fields, kind: DocKind) -> (r: Option<(Fields, usize)>)
    requires
        i <= s.len(),
    ensures
        (r is Some) == (sp_fields_members(s@, i as int, acc@, kind) is Some),
        r is Some ==> (r->Some_0).0@ == (sp_fields_members(s@, i as int, acc@, kind)->Some_0).0,
        r is Some ==> (r->Some_0).1 as int == (sp_fields_members(s@, i as int, acc@, kind)->Some_0).1,
        r is Some ==> (r->Some_0).1 <= s.len(),
    decreases s.len() - i,
{
    match parse_string(s, i) {
        None => None,
        Some(kp) => {
            let k = skip_ws(s, kp.1);
            if !(k < s.len() && s[k] == 0x3a) {
                return None;
            }
            let m = skip_ws(s, k + 1);
            let key = kp.0;
            let step: Option<(Fields, usize)> = if matches!(kind, DocKind::Header) && name_is(
                &key,
                0x61,
                0x6c,
                0x67,
            ) {
                match parse_string(s, m) {
                    Some(p) => Some(
                        (
                            Fields { alg: Some(p.0), sub: acc.sub, exp: acc.exp, iat: acc.iat },
                            p.1,
                        ),
                    ),
                    None => None,
                }
            } else if matches!(kind, DocKind::Payload) && name_is(&key, 0x73, 0x75, 0x62) {
                match parse_string(s, m) {
                    Some(p) => Some(
                        (
                            Fields { alg: acc.alg, sub: Some(p.0), exp: acc.exp, iat: acc.iat },
                            p.1,
                        ),
                    ),
                    None => None,
                }
            } else if matches!(kind, DocKind::Payload) && name_is(&key, 0x65, 0x78, 0x70) {
                match parse_u64(s, m) {
                    Some(p) => Some(
                        (
                            Fields { alg: acc.alg, sub: acc.sub, exp: Some(p.0), iat: acc.iat },
                            p.1,
                        ),
                    ),
                    None => None,
                }
            } else if matches!(kind, DocKind::Payload) && name_is(&key, 0x69, 0x61, 0x74) {
                match parse_u64(s, m) {
                    Some(p) => Some(
                        (
                            Fields { alg: acc.alg, sub: acc.sub, exp: acc.exp, iat: Some(p.0) },
                            p.1,
                        ),
                    ),
                    None => None,
                }
            } else {
                match skip_value(s, m, JSON_DEPTH) {
                    Some(e) => Some((acc, e)),
                    None => None,
                }
            };
            proof {
                if step is Some {
                    assert(sp_field_value(s@, m as int, acc@, key@, kind) == Some(
                        ((step->Some_0).0@, (step->Some_0).1 as int),
                    ));
                } else {
                    assert(sp_field_value(s@, m as int, acc@, key@, kind) is None);
                }
            }
            match step {
                None => None,
                Some(ve) => {
                    let w = skip_ws(s, ve.1);
                    if w < s.len() && s[w] == 0x2c {
                        let n = skip_ws(s, w + 1);
                        parse_members(s, n, ve.0, kind)
                    } else if w < s.len() && s[w] == 0x7d {
                        Some((ve.0, w + 1))
                    } else {
                        None
                    }
                },
            }
        },
    }
}

/// Parses a whole JWT document (header or payload) into its recognised
/// members.  Returns `None` exactly when the bytes are outside the grammar.
pub fn parse_fields(s: &[u8], kind: DocKind) -> (r: Option<Fields>)
    ensures
        (r is Some) == (sp_fields(s@, kind) is Some),
        r is Some ==> r->Some_0@ == sp_fields(s@, kind)->Some_0,
{
    let i = skip_ws(s, 0);
    if !(i < s.len() && s[i] == 0x7b) {
        return None;
    }
    let j = skip_ws(s, i + 1);
    if j < s.len() && s[j] == 0x7d {
        let t = skip_ws(s, j + 1);
        if t == s.len() {
            Some(Fields { alg: None, sub: None, exp: None, iat: None })
        } else {
            None
        }
    } else {
        match parse_members(s, j, Fields { alg: None, sub: None, exp: None, iat: None }, kind) {
            None => None,
            Some(p) => {
                let t = skip_ws(s, p.1);
                if t == s.len() {
                    Some(p.0)
                } else {
                    None
                }
            },
        }
    }
}

} // verus!
