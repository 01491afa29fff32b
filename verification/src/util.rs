//! Small byte-level helpers shared by the token and header modules.

use vstd::prelude::*;

verus! {

/// Byte-for-byte equality of two slices.
pub fn bytes_eq(a: &[u8], b: &[u8]) -> (r: bool)
    ensures
        r == (a@ == b@),
{
    if a.len() != b.len() {
        assert(a@ != b@) by {
            assert(a@.len() != b@.len());
        }
        return false;
    }
    let mut i: usize = 0;
    while i < a.len()
        invariant
            i <= a.len(),
            a.len() == b.len(),
            forall|k: int| 0 <= k < i ==> a@[k] == b@[k],
        decreases a.len() - i,
    {
        if a[i] != b[i] {
            return false;
        }
        i += 1;
    }
    proof {
        assert(a@ =~= b@);
    }
    true
}

/// The sequence of characters denoted by a sequence of ASCII bytes.
pub open spec fn ascii_chars(s: Seq<u8>) -> Seq<char> {
    Seq::new(s.len(), |i: int| s[i] as char)
}

/// True when every byte is printable ASCII (space through tilde), the set of
/// bytes accepted for a subject that is injected into a request header.
pub open spec fn all_printable_ascii(s: Seq<u8>) -> bool {
    forall|i: int| 0 <= i < s.len() ==> 0x20 <= #[trigger] s[i] <= 0x7e
}

/// Checks that every byte of `s` is printable ASCII.
pub fn is_all_printable_ascii(s: &[u8]) -> (r: bool)
    ensures
        r == all_printable_ascii(s@),
{
    let mut i: usize = 0;
    while i < s.len()
        invariant
            i <= s.len(),
            forall|k: int| 0 <= k < i ==> 0x20 <= #[trigger] s@[k] <= 0x7e,
        decreases s.len() - i,
    {
        if s[i] < 0x20 || s[i] > 0x7e {
            return false;
        }
        i += 1;
    }
    true
}

/// Builds the `String` whose characters are the given printable-ASCII bytes.
pub fn ascii_string(s: &[u8]) -> (r: String)
    requires
        all_printable_ascii(s@),
    ensures
        r@ == ascii_chars(s@),
{
    let mut out: Vec<char> = Vec::new();
    let mut i: usize = 0;
    while i < s.len()
        invariant
            i <= s.len(),
            all_printable_ascii(s@),
            out@ == ascii_chars(s@).take(i as int),
        decreases s.len() - i,
    {
        out.push(s[i] as char);
        proof {
            assert(out@ =~= ascii_chars(s@).take(i + 1));
        }
        i += 1;
    }
    proof {
        assert(ascii_chars(s@).take(s@.len() as int) =~= ascii_chars(s@));
    }
    chars_to_string(&out)
}

/// Relies on `String::from_iter` over `char` (std): collecting characters
/// yields a string whose characters are exactly the collected ones.
#[verifier::external_body]
fn chars_to_string(v: &Vec<char>) -> (r: String)
    ensures
        r@ == v@,
{
    v.iter().collect()
}

} // verus!
