//! Base64 (standard alphabet, `=` padding) for moving proofs through the
//! browser bindings.

use vstd::prelude::*;

use crate::error::HushError;

verus! {

/// The character of a six-bit value in the standard alphabet.
pub open spec fn spec_b64_char(v: int) -> u8 {
    if v < 26 {
        (65 + v) as u8
    } else if v < 52 {
        (97 + v - 26) as u8
    } else if v < 62 {
        (48 + v - 52) as u8
    } else if v == 62 {
        43
    } else {
        47
    }
}

/// The six-bit value of a character: its place in the alphabet, zero for
/// `=`, and 255 for anything else.
pub open spec fn spec_b64_value(c: u8) -> u8 {
    if 65 <= c <= 90 {
        (c - 65) as u8
    } else if 97 <= c <= 122 {
        (c - 97 + 26) as u8
    } else if 48 <= c <= 57 {
        (c - 48 + 52) as u8
    } else if c == 43 {
        62
    } else if c == 47 {
        63
    } else if c == 61 {
        0
    } else {
        255
    }
}

/// The encoding of `s`: four characters per three bytes, the last group
/// padded with `=`.
pub open spec fn spec_base64_encode(s: Seq<u8>) -> Seq<u8>
    decreases s.len(),
{
    if s.len() >= 3 {
        seq![
            spec_b64_char((s[0] / 4) as int),
            spec_b64_char((s[0] % 4) * 16 + s[1] / 16),
            spec_b64_char((s[1] % 16) * 4 + s[2] / 64),
            spec_b64_char((s[2] % 64) as int),
        ] + spec_base64_encode(s.skip(3))
    } else if s.len() == 2 {
        seq![
            spec_b64_char((s[0] / 4) as int),
            spec_b64_char((s[0] % 4) * 16 + s[1] / 16),
            spec_b64_char((s[1] % 16) * 4),
            61u8,
        ]
    } else if s.len() == 1 {
        seq![spec_b64_char((s[0] / 4) as int), spec_b64_char((s[0] % 4) * 16), 61u8, 61u8]
    } else {
        Seq::empty()
    }
}

/// The bytes of one group of four characters, or `None` when one of the
/// characters it reads is outside the alphabet. The third and fourth
/// characters are read only when they are not `=`.
pub open spec fn spec_decode_group(q: Seq<u8>) -> Option<Seq<u8>> {
    let a = spec_b64_value(q[0]);
    let b = spec_b64_value(q[1]);
    let c = spec_b64_value(q[2]);
    let d = spec_b64_value(q[3]);
    if a == 255 || b == 255 {
        None
    } else if q[2] != 61 && c == 255 {
        None
    } else if q[3] != 61 && d == 255 {
        None
    } else {
        let first = seq![((a * 4) % 256 + b / 16) as u8];
        let second = if q[2] != 61 {
            seq![((b * 16) % 256 + c / 4) as u8]
        } else {
            Seq::empty()
        };
        let third = if q[3] != 61 {
            seq![((c * 64) % 256 + d) as u8]
        } else {
            Seq::empty()
        };
        Some(first + second + third)
    }
}

/// The decoding of `s`, group by group from the front; characters after the
/// last whole group are ignored. Fails at the first group that reads a
/// character outside the alphabet.
pub open spec fn spec_base64_decode(s: Seq<u8>) -> Result<Seq<u8>, HushError>
    decreases s.len(),
{
    if s.len() < 4 {
        Ok(Seq::empty())
    } else {
        match spec_decode_group(s.take(4)) {
            None => Err(HushError::InvalidBase64),
            Some(bytes) => match spec_base64_decode(s.skip(4)) {
                Err(e) => Err(e),
                Ok(rest) => Ok(bytes + rest),
            },
        }
    }
}

fn b64_char(v: u8) -> (r: u8)
    requires
        v < 64,
    ensures
        r == spec_b64_char(v as int),
{
    if v < 26 {
        65 + v
    } else if v < 52 {
        97 + v - 26
    } else if v < 62 {
        48 + v - 52
    } else if v == 62 {
        43
    } else {
        47
    }
}

fn b64_value(c: u8) -> (r: u8)
    ensures
        r == spec_b64_value(c),
{
    if 65 <= c && c <= 90 {
        c - 65
    } else if 97 <= c && c <= 122 {
        c - 97 + 26
    } else if 48 <= c && c <= 57 {
        c - 48 + 52
    } else if c == 43 {
        62
    } else if c == 47 {
        63
    } else if c == 61 {
        0
    } else {
        255
    }
}

/// Encodes bytes; the result is ASCII.
pub fn base64_encode(input: &[u8]) -> (r: Vec<u8>)
    ensures
        r@ == spec_base64_encode(input@),
{
    let len = input.len();
    let mut out: Vec<u8> = Vec::new();
    let mut index: usize = 0;
    assert(input@.skip(0) =~= input@);
    assert(out@ + spec_base64_encode(input@) =~= spec_base64_encode(input@));
    while len - index > 2
        invariant
            len == input@.len(),
            index <= len,
            out@ + spec_base64_encode(input@.skip(index as int)) == spec_base64_encode(input@),
        decreases len - index,
    {
        let b0 = input[index];
        let b1 = input[index + 1];
        let b2 = input[index + 2];
        let ghost rest = input@.skip(index as int);
        proof {
            assert(rest.skip(3) =~= input@.skip(index + 3));
            assert(rest[0] == b0 && rest[1] == b1 && rest[2] == b2);
        }
        out.push(b64_char(b0 / 4));
        out.push(b64_char((b0 % 4) * 16 + b1 / 16));
        out.push(b64_char((b1 % 16) * 4 + b2 / 64));
        out.push(b64_char(b2 % 64));
        index = index + 3;
        proof {
            assert(out@ + spec_base64_encode(input@.skip(index as int)) =~= spec_base64_encode(
                input@,
            ));
        }
    }
    let ghost rest = input@.skip(index as int);
    if len - index == 1 {
        let b0 = input[index];
        assert(rest[0] == b0);
        out.push(b64_char(b0 / 4));
        out.push(b64_char((b0 % 4) * 16));
        out.push(61);
        out.push(61);
    } else if len - index == 2 {
        let b0 = input[index];
        let b1 = input[index + 1];
        assert(rest[0] == b0 && rest[1] == b1);
        out.push(b64_char(b0 / 4));
        out.push(b64_char((b0 % 4) * 16 + b1 / 16));
        out.push(b64_char((b1 % 16) * 4));
        out.push(61);
    }
    assert(out@ =~= spec_base64_encode(input@));
    out
}

/// Decodes base64 text given as bytes.
pub fn base64_decode(input: &[u8]) -> (r: Result<Vec<u8>, HushError>)
    ensures
        match spec_base64_decode(input@) {
            Ok(bytes) => r matches Ok(v) && v@ == bytes,
            Err(e) => r matches Err(x) && x == e,
        },
{
    let len = input.len();
    let mut out: Vec<u8> = Vec::new();
    let mut index: usize = 0;
    assert(input@.skip(0) =~= input@);
    proof {
        match spec_base64_decode(input@) {
            Ok(x) => {
                assert(out@ + x =~= x);
            },
            Err(_) => {},
        }
    }
    while len - index > 3
        invariant
            len == input@.len(),
            index <= len,
            spec_base64_decode(input@) == match spec_base64_decode(input@.skip(index as int)) {
                Err(e) => Err(e),
                Ok(rest) => Ok(out@ + rest),
            },
        decreases len - index,
    {
        let ghost rest = input@.skip(index as int);
        let ghost before = out@;
        proof {
            assert(rest.skip(4) =~= input@.skip(index + 4));
            assert(rest.take(4) =~= seq![
                input@[index as int],
                input@[index + 1],
                input@[index + 2],
                input@[index + 3],
            ]);
        }
        let c0 = input[index];
        let c1 = input[index + 1];
        let c2 = input[index + 2];
        let c3 = input[index + 3];
        let a = b64_value(c0);
        let b = b64_value(c1);
        let c = b64_value(c2);
        let d = b64_value(c3);
        if a == 255 || b == 255 {
            return Err(HushError::InvalidBase64);
        }
        let first: u8 = ((a as u32 * 4) % 256 + b as u32 / 16) as u8;
        out.push(first);
        if c2 != 61 {
            if c == 255 {
                return Err(HushError::InvalidBase64);
            }
            let second: u8 = ((b as u32 * 16) % 256 + c as u32 / 4) as u8;
            out.push(second);
        }
        if c3 != 61 {
            if d == 255 {
                return Err(HushError::InvalidBase64);
            }
            let third: u8 = ((c as u32 * 64) % 256 + d as u32) as u8;
            out.push(third);
        }
        proof {
            let bytes = spec_decode_group(rest.take(4))->Some_0;
            assert(out@ =~= before + bytes);
            match spec_base64_decode(rest.skip(4)) {
                Ok(x) => {
                    assert(spec_base64_decode(rest) == Ok::<Seq<u8>, HushError>(bytes + x));
                    assert(before + (bytes + x) =~= out@ + x);
                },
                Err(_) => {},
            }
        }
        index = index + 4;
    }
    proof {
        assert(input@.skip(index as int).len() < 4);
        assert(out@ + Seq::<u8>::empty() =~= out@);
    }
    Ok(out)
}


/// Every six-bit value's character reads back as the value, and is not `=`.
proof fn lemma_char_value(v: int)
    requires
        0 <= v < 64,
    ensures
        spec_b64_value(spec_b64_char(v)) == v,
        spec_b64_char(v) != 61,
{
}

/// The arithmetic of one group: the six-bit pieces of three bytes put back
/// together give the bytes.
proof fn lemma_group_arith(s0: u8, s1: u8, s2: u8)
    ensures
        ((s0 / 4) * 4) % 256 + ((s0 % 4) * 16 + s1 / 16) / 16 == s0,
        (((s0 % 4) * 16 + s1 / 16) * 16) % 256 + ((s1 % 16) * 4 + s2 / 64) / 4 == s1,
        (((s1 % 16) * 4 + s2 / 64) * 64) % 256 + s2 % 64 == s2,
        ((s0 % 4) * 16) / 16 == s0 % 4,
        (((s0 % 4) * 16 + s1 / 16) * 16) % 256 + ((s1 % 16) * 4) / 4 == s1,
{
    assert(((s0 / 4) * 4) % 256 + ((s0 % 4) * 16 + s1 / 16) / 16 == s0) by (bit_vector);
    assert((((s0 % 4) * 16 + s1 / 16) * 16) % 256 + ((s1 % 16) * 4 + s2 / 64) / 4 == s1)
        by (bit_vector);
    assert((((s1 % 16) * 4 + s2 / 64) * 64) % 256 + s2 % 64 == s2) by (bit_vector);
    assert(((s0 % 4) * 16) / 16 == s0 % 4) by (bit_vector);
    assert((((s0 % 4) * 16 + s1 / 16) * 16) % 256 + ((s1 % 16) * 4) / 4 == s1) by (bit_vector);
}

/// Decoding an encoding gives the bytes back.
pub proof fn lemma_base64_roundtrip(s: Seq<u8>)
    ensures
        spec_base64_decode(spec_base64_encode(s)) == Ok::<Seq<u8>, HushError>(s),
    decreases s.len(),
{
    let e = spec_base64_encode(s);
    if s.len() >= 3 {
        let s0 = s[0];
        let s1 = s[1];
        let s2 = s[2];
        lemma_group_arith(s0, s1, s2);
        let a = (s0 / 4) as int;
        let b = ((s0 % 4) * 16 + s1 / 16) as int;
        let c = ((s1 % 16) * 4 + s2 / 64) as int;
        let d = (s2 % 64) as int;
        lemma_char_value(a);
        lemma_char_value(b);
        lemma_char_value(c);
        lemma_char_value(d);
        let q = seq![spec_b64_char(a), spec_b64_char(b), spec_b64_char(c), spec_b64_char(d)];
        assert(e.take(4) =~= q);
        assert(e.skip(4) =~= spec_base64_encode(s.skip(3)));
        lemma_base64_roundtrip(s.skip(3));
        assert(spec_decode_group(q) == Some(seq![s0, s1, s2]));
        assert(seq![s0, s1, s2] + s.skip(3) =~= s);
        assert(e.len() >= 4);
        assert(spec_base64_decode(e) == Ok::<Seq<u8>, HushError>(seq![s0, s1, s2] + s.skip(3)));
    } else if s.len() == 2 {
        let s0 = s[0];
        let s1 = s[1];
        lemma_group_arith(s0, s1, 0);
        let a = (s0 / 4) as int;
        let b = ((s0 % 4) * 16 + s1 / 16) as int;
        let c = ((s1 % 16) * 4) as int;
        lemma_char_value(a);
        lemma_char_value(b);
        lemma_char_value(c);
        assert(e.take(4) =~= e);
        assert(e.skip(4) =~= Seq::<u8>::empty());
        assert(spec_decode_group(e) == Some(seq![s0, s1]));
        assert(seq![s0, s1] + Seq::<u8>::empty() =~= s);
        assert(spec_base64_decode(Seq::<u8>::empty()) == Ok::<Seq<u8>, HushError>(Seq::empty()));
        assert(spec_base64_decode(e) == Ok::<Seq<u8>, HushError>(seq![s0, s1] + Seq::<u8>::empty()));
    } else if s.len() == 1 {
        let s0 = s[0];
        lemma_group_arith(s0, 0, 0);
        let a = (s0 / 4) as int;
        let b = ((s0 % 4) * 16) as int;
        lemma_char_value(a);
        lemma_char_value(b);
        assert(e.take(4) =~= e);
        assert(e.skip(4) =~= Seq::<u8>::empty());
        assert(spec_decode_group(e) == Some(seq![s0]));
        assert(seq![s0] + Seq::<u8>::empty() =~= s);
        assert(spec_base64_decode(Seq::<u8>::empty()) == Ok::<Seq<u8>, HushError>(Seq::empty()));
        assert(spec_base64_decode(e) == Ok::<Seq<u8>, HushError>(seq![s0] + Seq::<u8>::empty()));
    } else {
        assert(s =~= Seq::<u8>::empty());
    }
}

/// A character outside the alphabet and `=`, standing in a whole group of
/// four, makes decoding fail.
pub proof fn lemma_base64_rejects_foreign_char(s: Seq<u8>, j: int)
    requires
        0 <= j < s.len() - s.len() % 4,
        spec_b64_value(s[j]) == 255,
    ensures
        spec_base64_decode(s) == Err::<Seq<u8>, HushError>(HushError::InvalidBase64),
    decreases s.len(),
{
    let q = s.take(4);
    if j < 4 {
        assert(q[j] == s[j]);
        assert(spec_decode_group(q) is None);
    } else if spec_decode_group(q) is Some {
        let t = s.skip(4);
        assert(t[j - 4] == s[j]);
        assert(t.len() % 4 == s.len() % 4);
        lemma_base64_rejects_foreign_char(t, j - 4);
    }
}

} // verus!
