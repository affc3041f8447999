//! The 64-bit Goldilocks field and its degree-2 extension.
//!
//! Base-field elements are canonical `u64` values below the field
//! order; extension elements are pairs `c0 + c1 * X` with `X^2 = 7`.
//! Every operation is stated as plain modular arithmetic over the
//! integers.

use vstd::prelude::*;
use vstd::arithmetic::div_mod::{
    lemma_fundamental_div_mod_converse, lemma_add_mod_noop, lemma_add_mod_noop_right,
    lemma_mul_mod_noop_right, lemma_mod_bound, lemma_small_mod,
};

verus! {

/// The Goldilocks prime, `2^64 - 2^32 + 1`.
pub const FIELD_ORDER: u64 = 0xFFFF_FFFF_0000_0001;

/// The quadratic nonresidue defining the degree-2 extension:
/// `X^2 = 7`.
pub const EXT_NONRESIDUE: u64 = 7;

/// Whether a `u64` is a canonical base-field element.
pub open spec fn base_wf(a: u64) -> bool {
    a < FIELD_ORDER
}

/// `(a + b) mod p` over the integers.
pub open spec fn spec_add(a: int, b: int) -> int {
    (a + b) % (FIELD_ORDER as int)
}

/// `(a - b) mod p` over the integers.
pub open spec fn spec_sub(a: int, b: int) -> int {
    (a - b) % (FIELD_ORDER as int)
}

/// `(a * b) mod p` over the integers.
pub open spec fn spec_mul(a: int, b: int) -> int {
    (a * b) % (FIELD_ORDER as int)
}

/// Base-field addition of canonical elements.
pub fn field_add(a: u64, b: u64) -> (r: u64)
    requires
        base_wf(a),
        base_wf(b),
    ensures
        r == spec_add(a as int, b as int),
        base_wf(r),
{
    let p = FIELD_ORDER as u128;
    let s = (a as u128) + (b as u128);
    let r = if s >= p {
        s - p
    } else {
        s
    };
    proof {
        if s >= p {
            lemma_fundamental_div_mod_converse(
                a as int + b as int,
                FIELD_ORDER as int,
                1,
                a as int + b as int - FIELD_ORDER as int,
            );
        } else {
            lemma_fundamental_div_mod_converse(
                a as int + b as int,
                FIELD_ORDER as int,
                0,
                a as int + b as int,
            );
        }
    }
    r as u64
}

/// Base-field subtraction of canonical elements.
pub fn field_sub(a: u64, b: u64) -> (r: u64)
    requires
        base_wf(a),
        base_wf(b),
    ensures
        r == spec_sub(a as int, b as int),
        base_wf(r),
{
    let r = if a >= b {
        a - b
    } else {
        a + (FIELD_ORDER - b)
    };
    proof {
        if a >= b {
            lemma_fundamental_div_mod_converse(
                a as int - b as int,
                FIELD_ORDER as int,
                0,
                a as int - b as int,
            );
        } else {
            lemma_fundamental_div_mod_converse(
                a as int - b as int,
                FIELD_ORDER as int,
                -1,
                a as int - b as int + FIELD_ORDER as int,
            );
        }
    }
    r
}

/// The product of two canonical elements fits a `u128`.
proof fn lemma_prod_in_range(a: u64, b: u64)
    requires
        base_wf(a),
        base_wf(b),
    ensures
        0 <= (a as int) * (b as int) <= (FIELD_ORDER - 1) as int * (FIELD_ORDER - 1) as int,
{
    vstd::arithmetic::mul::lemma_mul_upper_bound(
        a as int,
        (FIELD_ORDER - 1) as int,
        b as int,
        (FIELD_ORDER - 1) as int,
    );
    vstd::arithmetic::mul::lemma_mul_nonnegative(a as int, b as int);
}

/// Base-field multiplication of canonical elements.
pub fn field_mul(a: u64, b: u64) -> (r: u64)
    requires
        base_wf(a),
        base_wf(b),
    ensures
        r == spec_mul(a as int, b as int),
        base_wf(r),
{
    let p = FIELD_ORDER as u128;
    proof {
        lemma_prod_in_range(a, b);
    }
    let prod = (a as u128) * (b as u128);
    let r = prod % p;
    proof {
        lemma_mod_bound(a as int * b as int, FIELD_ORDER as int);
    }
    r as u64
}

/// An element of the degree-2 extension field: `c0 + c1 * X` with
/// `X^2 = 7`, both coordinates canonical base-field elements.
#[derive(Debug, Clone, Copy, PartialEq, Eq, Structural)]
pub struct ExtElem {
    /// The constant coordinate.
    pub c0: u64,
    /// The `X` coordinate.
    pub c1: u64,
}

/// Whether both coordinates are canonical.
pub open spec fn ext_wf(x: ExtElem) -> bool {
    base_wf(x.c0) && base_wf(x.c1)
}

/// The extension element standing for a base-field element.
pub open spec fn spec_ext_from_base(a: u64) -> ExtElem {
    ExtElem { c0: a, c1: 0 }
}

/// Componentwise extension addition.
pub open spec fn spec_ext_add(x: ExtElem, y: ExtElem) -> ExtElem {
    ExtElem {
        c0: spec_add(x.c0 as int, y.c0 as int) as u64,
        c1: spec_add(x.c1 as int, y.c1 as int) as u64,
    }
}

/// Componentwise extension subtraction.
pub open spec fn spec_ext_sub(x: ExtElem, y: ExtElem) -> ExtElem {
    ExtElem {
        c0: spec_sub(x.c0 as int, y.c0 as int) as u64,
        c1: spec_sub(x.c1 as int, y.c1 as int) as u64,
    }
}

/// Extension multiplication:
/// `(a0 + a1 X)(b0 + b1 X) = (a0 b0 + 7 a1 b1) + (a0 b1 + a1 b0) X`.
pub open spec fn spec_ext_mul(x: ExtElem, y: ExtElem) -> ExtElem {
    ExtElem {
        c0: (((x.c0 as int) * (y.c0 as int) + (EXT_NONRESIDUE as int) * ((x.c1 as int) * (y.c1
            as int))) % (FIELD_ORDER as int)) as u64,
        c1: (((x.c0 as int) * (y.c1 as int) + (x.c1 as int) * (y.c0 as int)) % (FIELD_ORDER
            as int)) as u64,
    }
}

/// The zero of the extension field.
pub fn ext_zero() -> (r: ExtElem)
    ensures
        r == (ExtElem { c0: 0u64, c1: 0u64 }),
        ext_wf(r),
{
    ExtElem { c0: 0, c1: 0 }
}

/// The one of the extension field.
pub fn ext_one() -> (r: ExtElem)
    ensures
        r == (ExtElem { c0: 1u64, c1: 0u64 }),
        ext_wf(r),
{
    ExtElem { c0: 1, c1: 0 }
}

/// Embeds a canonical base-field element into the extension.
pub fn ext_from_base(a: u64) -> (r: ExtElem)
    requires
        base_wf(a),
    ensures
        r == spec_ext_from_base(a),
        ext_wf(r),
{
    ExtElem { c0: a, c1: 0 }
}

/// Extension addition of well-formed elements.
pub fn ext_add(x: ExtElem, y: ExtElem) -> (r: ExtElem)
    requires
        ext_wf(x),
        ext_wf(y),
    ensures
        r == spec_ext_add(x, y),
        ext_wf(r),
{
    ExtElem { c0: field_add(x.c0, y.c0), c1: field_add(x.c1, y.c1) }
}

/// Extension subtraction of well-formed elements.
pub fn ext_sub(x: ExtElem, y: ExtElem) -> (r: ExtElem)
    requires
        ext_wf(x),
        ext_wf(y),
    ensures
        r == spec_ext_sub(x, y),
        ext_wf(r),
{
    ExtElem { c0: field_sub(x.c0, y.c0), c1: field_sub(x.c1, y.c1) }
}

/// Extension multiplication of well-formed elements.
pub fn ext_mul(x: ExtElem, y: ExtElem) -> (r: ExtElem)
    requires
        ext_wf(x),
        ext_wf(y),
    ensures
        r == spec_ext_mul(x, y),
        ext_wf(r),
{
    let p = FIELD_ORDER as u128;
    let ghost pi = FIELD_ORDER as int;
    let ghost a0 = x.c0 as int;
    let ghost a1 = x.c1 as int;
    let ghost b0 = y.c0 as int;
    let ghost b1 = y.c1 as int;
    let ghost w = EXT_NONRESIDUE as int;
    proof {
        lemma_prod_in_range(x.c0, y.c0);
        lemma_prod_in_range(x.c1, y.c1);
        lemma_prod_in_range(x.c0, y.c1);
        lemma_prod_in_range(x.c1, y.c0);
        lemma_mod_bound(a0 * b0, pi);
        lemma_mod_bound(a1 * b1, pi);
        lemma_mod_bound(a0 * b1, pi);
        lemma_mod_bound(a1 * b0, pi);
    }
    let m00 = ((x.c0 as u128) * (y.c0 as u128)) % p;
    let m11 = ((x.c1 as u128) * (y.c1 as u128)) % p;
    let m01 = ((x.c0 as u128) * (y.c1 as u128)) % p;
    let m10 = ((x.c1 as u128) * (y.c0 as u128)) % p;
    let c0 = (m00 + (EXT_NONRESIDUE as u128) * m11) % p;
    let c1 = (m01 + m10) % p;
    proof {
        // Fold the reduction of each partial product back in, one
        // modular-noop step at a time.
        lemma_add_mod_noop_right(m00 as int, w * m11, pi);
        assert((m00 + w * m11) % pi == (m00 + (w * m11) % pi) % pi);
        lemma_mul_mod_noop_right(w, a1 * b1, pi);
        assert((w * m11) % pi == (w * (a1 * b1)) % pi);
        lemma_add_mod_noop_right(m00 as int, w * (a1 * b1), pi);
        assert((m00 + (w * (a1 * b1)) % pi) % pi == (m00 + w * (a1 * b1)) % pi);
        lemma_add_mod_noop_right(a0 * b0 % pi, w * (a1 * b1), pi);
        lemma_add_mod_noop(a0 * b0, w * (a1 * b1), pi);
        assert((m00 + w * (a1 * b1)) % pi == (a0 * b0 + w * (a1 * b1)) % pi);
        assert(c0 == (a0 * b0 + w * (a1 * b1)) % pi);
        lemma_add_mod_noop(a0 * b1, a1 * b0, pi);
        assert(c1 == (a0 * b1 + a1 * b0) % pi);
        lemma_mod_bound(a0 * b0 + w * (a1 * b1), pi);
        lemma_mod_bound(a0 * b1 + a1 * b0, pi);
    }
    ExtElem { c0: c0 as u64, c1: c1 as u64 }
}

/// `x` squared `k` times: `x` to the power `2^k`.
pub open spec fn spec_ext_pow2(x: ExtElem, k: nat) -> ExtElem
    decreases k,
{
    if k == 0 {
        x
    } else {
        let y = spec_ext_pow2(x, (k - 1) as nat);
        spec_ext_mul(y, y)
    }
}

/// Raises a well-formed extension element to the power `2^k` by
/// repeated squaring.
pub fn ext_exp_power_of_2(x: ExtElem, k: usize) -> (r: ExtElem)
    requires
        ext_wf(x),
    ensures
        r == spec_ext_pow2(x, k as nat),
        ext_wf(r),
{
    let mut acc = x;
    let mut i: usize = 0;
    while i < k
        invariant
            i <= k,
            ext_wf(acc),
            acc == spec_ext_pow2(x, i as nat),
        decreases k - i,
    {
        acc = ext_mul(acc, acc);
        i = i + 1;
    }
    acc
}

} // verus!
