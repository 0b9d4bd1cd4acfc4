//! Arithmetic in the Mersenne-31 prime field, with elements held as `u32`
//! values in `[0, P)`.

use vstd::prelude::*;

verus! {

/// The field modulus `2^31 - 1`.
pub const P: u32 = 2147483647;

/// A `u32` that is a canonical field element.
pub open spec fn is_felt(x: u32) -> bool {
    x < P
}

/// Every value of a sequence is a canonical field element.
pub open spec fn all_felts(s: Seq<u32>) -> bool {
    forall|i: int| 0 <= i < s.len() ==> #[trigger] s[i] < P
}

/// Reduction of an integer into the field.
pub open spec fn freduce(x: int) -> u32 {
    (x % (P as int)) as u32
}

pub open spec fn fadd(a: u32, b: u32) -> u32 {
    freduce(a + b)
}

pub open spec fn fsub(a: u32, b: u32) -> u32 {
    freduce(a - b)
}

pub open spec fn fmul(a: u32, b: u32) -> u32 {
    freduce(a * b)
}

pub proof fn lemma_freduce_bound(x: int)
    ensures
        freduce(x) < P,
        0 <= x < P ==> freduce(x) == x,
{
    assert(0 <= x % (P as int) < P as int);
}

/// The field element that a `u32` denotes: its residue modulo `P`.
pub fn m31_from_u32(v: u32) -> (r: u32)
    ensures
        r == freduce(v as int),
        r < P,
{
    proof {
        lemma_freduce_bound(v as int);
    }
    v % P
}

pub fn m31_add(a: u32, b: u32) -> (r: u32)
    requires
        a < P,
        b < P,
    ensures
        r == fadd(a, b),
        r < P,
{
    proof {
        lemma_freduce_bound(a + b);
    }
    let s: u32 = a + b;
    if s >= P {
        assert((s as int) % (P as int) == s - P) by {
            vstd::arithmetic::div_mod::lemma_fundamental_div_mod_converse(
                s as int,
                P as int,
                1,
                s - P,
            );
        }
        s - P
    } else {
        s
    }
}

pub fn m31_sub(a: u32, b: u32) -> (r: u32)
    requires
        a < P,
        b < P,
    ensures
        r == fsub(a, b),
        r < P,
{
    proof {
        lemma_freduce_bound(a - b);
    }
    if a >= b {
        a - b
    } else {
        let s: u32 = a + P - b;
        assert((a - b) % (P as int) == s) by {
            vstd::arithmetic::div_mod::lemma_fundamental_div_mod_converse(
                a - b,
                P as int,
                -1,
                s as int,
            );
        }
        s
    }
}

pub fn m31_mul(a: u32, b: u32) -> (r: u32)
    requires
        a < P,
        b < P,
    ensures
        r == fmul(a, b),
        r < P,
{
    proof {
        lemma_freduce_bound(a * b);
        assert(0 <= (a as int) * (b as int) <= (P as int) * (P as int)) by (nonlinear_arith)
            requires
                a < P,
                b < P,
        ;
    }
    let prod: u64 = (a as u64) * (b as u64);
    (prod % (P as u64)) as u32
}

/// Reduce a `u64` into the field.
pub fn m31_from_u64(v: u64) -> (r: u32)
    ensures
        r == freduce(v as int),
        r < P,
{
    proof {
        lemma_freduce_bound(v as int);
    }
    (v % (P as u64)) as u32
}

} // verus!
