//! Base64url decoding (RFC 4648 §5, unpadded), the segment encoding of a JWT.
//!
//! A segment decodes in blocks of four characters to three bytes; a final
//! block of two or three characters yields one or two bytes.  A length of
//! one modulo four, a padding character, or any byte outside the base64url
//! alphabet makes the segment undecodable.

use vstd::prelude::*;

verus! {

/// Value of one base64url alphabet byte, or -1 when the byte is not in the
/// alphabet (`A`-`Z`, `a`-`z`, `0`-`9`, `-`, `_`).
pub open spec fn b64_val(b: u8) -> int {
    if 65 <= b && b <= 90 {
        b - 65
    } else if 97 <= b && b <= 122 {
        (b - 97) + 26
    } else if 48 <= b && b <= 57 {
        (b - 48) + 52
    } else if b == 45 {
        62
    } else if b == 95 {
        63
    } else {
        -1
    }
}

/// First output byte of a block: the six bits of `v0` and the top two of `v1`.
pub open spec fn b64_byte0(v0: int, v1: int) -> u8 {
    (v0 * 4 + v1 / 16) as u8
}

/// Second output byte: the low four bits of `v1` and the top four of `v2`.
pub open spec fn b64_byte1(v1: int, v2: int) -> u8 {
    ((v1 % 16) * 16 + v2 / 4) as u8
}

/// Third output byte: the low two bits of `v2` and the six bits of `v3`.
pub open spec fn b64_byte2(v2: int, v3: int) -> u8 {
    ((v2 % 4) * 64 + v3) as u8
}

/// The bytes denoted by an unpadded base64url text, or `None` when the text
/// is not decodable.
pub open spec fn b64_decoded(s: Seq<u8>) -> Option<Seq<u8>>
    decreases s.len(),
{
    let v0 = b64_val(s[0]);
    let v1 = b64_val(s[1]);
    if s.len() == 0 {
        Some(Seq::empty())
    } else if s.len() == 1 {
        None
    } else if v0 < 0 || v1 < 0 {
        None
    } else if s.len() == 2 {
        Some(seq![b64_byte0(v0, v1)])
    } else if b64_val(s[2]) < 0 {
        None
    } else if s.len() == 3 {
        Some(seq![b64_byte0(v0, v1), b64_byte1(v1, b64_val(s[2]))])
    } else if b64_val(s[3]) < 0 {
        None
    } else {
        match b64_decoded(s.skip(4)) {
            Some(rest) => Some(
                seq![
                    b64_byte0(v0, v1),
                    b64_byte1(v1, b64_val(s[2])),
                    b64_byte2(b64_val(s[2]), b64_val(s[3])),
                ] + rest,
            ),
            None => None,
        }
    }
}

/// Exec form of `b64_val`.
fn b64_val_of(b: u8) -> (v: i16)
    ensures
        v as int == b64_val(b),
        -1 <= v <= 63,
{
    if 65 <= b && b <= 90 {
        b as i16 - 65
    } else if 97 <= b && b <= 122 {
        (b as i16 - 97) + 26
    } else if 48 <= b && b <= 57 {
        (b as i16 - 48) + 52
    } else if b == 45 {
        62
    } else if b == 95 {
        63
    } else {
        -1
    }
}

/// Decodes an unpadded base64url text, returning `None` exactly when the
/// text is not decodable.
pub fn b64_decode(s: &[u8]) -> (r: Option<Vec<u8>>)
    ensures
        (r is Some) == (b64_decoded(s@) is Some),
        r is Some ==> r->Some_0@ == b64_decoded(s@)->Some_0,
    decreases s.len(),
{
    if s.len() == 0 {
        return Some(Vec::new());
    }
    if s.len() == 1 {
        return None;
    }
    let v0 = b64_val_of(s[0]);
    let v1 = b64_val_of(s[1]);
    if v0 < 0 || v1 < 0 {
        return None;
    }
    let b0: u8 = ((v0 as u16) * 4 + (v1 as u16) / 16) as u8;
    proof {
        assert(b0 == b64_byte0(v0 as int, v1 as int));
    }
    if s.len() == 2 {
        let mut out: Vec<u8> = Vec::new();
        out.push(b0);
        proof {
            assert(out@ =~= seq![b64_byte0(v0 as int, v1 as int)]);
        }
        return Some(out);
    }
    let v2 = b64_val_of(s[2]);
    if v2 < 0 {
        return None;
    }
    let b1: u8 = ((v1 as u16 % 16) * 16 + (v2 as u16) / 4) as u8;
    proof {
        assert(b1 == b64_byte1(v1 as int, v2 as int));
    }
    if s.len() == 3 {
        let mut out: Vec<u8> = Vec::new();
        out.push(b0);
        out.push(b1);
        proof {
            assert(out@ =~= seq![
                b64_byte0(v0 as int, v1 as int),
                b64_byte1(v1 as int, v2 as int),
            ]);
        }
        return Some(out);
    }
    let v3 = b64_val_of(s[3]);
    if v3 < 0 {
        return None;
    }
    let b2: u8 = ((v2 as u16 % 4) * 64 + (v3 as u16)) as u8;
    proof {
        assert(b2 == b64_byte2(v2 as int, v3 as int));
    }
    let tail = vstd::slice::slice_subrange(s, 4, s.len());
    proof {
        assert(tail@ =~= s@.skip(4));
    }
    match b64_decode(tail) {
        None => None,
        Some(mut rest) => {
            let mut out: Vec<u8> = Vec::new();
            out.push(b0);
            out.push(b1);
            out.push(b2);
            out.append(&mut rest);
            proof {
                assert(out@ =~= seq![
                    b64_byte0(v0 as int, v1 as int),
                    b64_byte1(v1 as int, v2 as int),
                    b64_byte2(v2 as int, v3 as int),
                ] + b64_decoded(s@.skip(4))->Some_0);
            }
            Some(out)
        },
    }
}

} // verus!
