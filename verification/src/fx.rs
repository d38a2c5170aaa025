//! Fixed-point scalar arithmetic.
//!
//! Every coordinate, depth and matrix entry in this crate is an `Fx`: a
//! signed 16.16 fixed-point number, i.e. an `i64` count of `1 / FX_ONE`
//! units.  All arithmetic on `Fx` is exact integer arithmetic on the raw
//! counts, so contracts can state results precisely.

use vstd::prelude::*;

verus! {

/// Raw units per 1.0.
pub const FX_ONE: i64 = 65536;

/// Truncating fixed-point product: `a * b / FX_ONE`, rounded toward zero.
pub open spec fn fx_mul_spec(a: int, b: int) -> int {
    if a * b >= 0 {
        (a * b) / (FX_ONE as int)
    } else {
        -((-(a * b)) / (FX_ONE as int))
    }
}

/// A 16.16 fixed-point number; `raw` counts units of `1 / FX_ONE`.
#[derive(Clone, Copy, Debug, PartialEq, Eq, Structural)]
pub struct Fx {
    pub raw: i64,
}

impl Fx {
    pub fn new(raw: i64) -> (r: Fx)
        ensures
            r.raw == raw,
    {
        Fx { raw }
    }

    /// The fixed-point value of a whole number.
    pub fn from_int(v: i32) -> (r: Fx)
        ensures
            r.raw == v * FX_ONE,
    {
        Fx { raw: (v as i64) * FX_ONE }
    }

    pub fn zero() -> (r: Fx)
        ensures
            r.raw == 0,
    {
        Fx { raw: 0 }
    }

    pub fn one() -> (r: Fx)
        ensures
            r.raw == FX_ONE,
    {
        Fx { raw: FX_ONE }
    }

    pub fn add(self, rhs: Fx) -> (r: Fx)
        requires
            i64::MIN <= self.raw + rhs.raw <= i64::MAX,
        ensures
            r.raw == self.raw + rhs.raw,
    {
        Fx { raw: self.raw + rhs.raw }
    }

    pub fn sub(self, rhs: Fx) -> (r: Fx)
        requires
            i64::MIN <= self.raw - rhs.raw <= i64::MAX,
        ensures
            r.raw == self.raw - rhs.raw,
    {
        Fx { raw: self.raw - rhs.raw }
    }

    pub fn neg(self) -> (r: Fx)
        requires
            self.raw != i64::MIN,
        ensures
            r.raw == -self.raw,
    {
        Fx { raw: -self.raw }
    }

    pub fn mul(self, rhs: Fx) -> (r: Fx)
        requires
            i64::MIN <= fx_mul_spec(self.raw as int, rhs.raw as int) <= i64::MAX,
        ensures
            r.raw == fx_mul_spec(self.raw as int, rhs.raw as int),
    {
        let wide = fx_wide_mul(self.raw, rhs.raw);
        Fx { raw: wide as i64 }
    }

    pub fn lt(self, rhs: Fx) -> (r: bool)
        ensures
            r == (self.raw < rhs.raw),
    {
        self.raw < rhs.raw
    }
}

/// Fixed-point product of two raw values, wide enough never to overflow.
pub fn fx_wide_mul(a: i64, b: i64) -> (r: i128)
    ensures
        r == fx_mul_spec(a as int, b as int),
{
    let wa: i128 = a as i128;
    let wb: i128 = b as i128;
    let ua: u128 = if wa >= 0 { wa as u128 } else { (-wa) as u128 };
    let ub: u128 = if wb >= 0 { wb as u128 } else { (-wb) as u128 };
    proof {
        assert(ua <= 0x8000_0000_0000_0000u128);
        assert(ub <= 0x8000_0000_0000_0000u128);
        assert(ua * ub <= 0x8000_0000_0000_0000u128 * 0x8000_0000_0000_0000u128) by (nonlinear_arith)
            requires
                ua <= 0x8000_0000_0000_0000u128,
                ub <= 0x8000_0000_0000_0000u128,
        ;
    }
    let p: u128 = ua * ub;
    let q: u128 = p / 65536;
    let neg: bool = (a < 0) != (b < 0);
    proof {
        assert(q <= p) by {
            vstd::arithmetic::div_mod::lemma_div_is_ordered_by_denominator(p as int, 1, 65536);
        }
        let ab = (a as int) * (b as int);
        if a >= 0 && b >= 0 {
            assert(ab >= 0 && ab == ua * ub) by (nonlinear_arith)
                requires
                    a >= 0,
                    b >= 0,
                    ab == (a as int) * (b as int),
                    ua == a as int,
                    ub == b as int,
            ;
        } else if a < 0 && b < 0 {
            assert(ab >= 0 && ab == ua * ub) by (nonlinear_arith)
                requires
                    a < 0,
                    b < 0,
                    ab == (a as int) * (b as int),
                    ua == -(a as int),
                    ub == -(b as int),
            ;
        } else if a < 0 && b >= 0 {
            assert(ab <= 0 && -ab == ua * ub) by (nonlinear_arith)
                requires
                    a < 0,
                    b >= 0,
                    ab == (a as int) * (b as int),
                    ua == -(a as int),
                    ub == b as int,
            ;
        } else {
            assert(ab <= 0 && -ab == ua * ub) by (nonlinear_arith)
                requires
                    a >= 0,
                    b < 0,
                    ab == (a as int) * (b as int),
                    ua == a as int,
                    ub == -(b as int),
            ;
        }
    }
    if neg {
        -(q as i128)
    } else {
        q as i128
    }
}

/// Fixed-point dot product of two quadruples of raw values, wide enough
/// never to overflow.
pub fn fx_dot4(a0: i64, a1: i64, a2: i64, a3: i64, b0: i64, b1: i64, b2: i64, b3: i64) -> (r:
    i128)
    ensures
        r == fx_mul_spec(a0 as int, b0 as int) + fx_mul_spec(a1 as int, b1 as int) + fx_mul_spec(
            a2 as int,
            b2 as int,
        ) + fx_mul_spec(a3 as int, b3 as int),
{
    let t0 = fx_wide_mul(a0, b0);
    let t1 = fx_wide_mul(a1, b1);
    let t2 = fx_wide_mul(a2, b2);
    let t3 = fx_wide_mul(a3, b3);
    proof {
        lemma_fx_mul_spec_abs(a0 as int, b0 as int, 0x8000_0000_0000_0000, 0x8000_0000_0000_0000);
        lemma_fx_mul_spec_abs(a1 as int, b1 as int, 0x8000_0000_0000_0000, 0x8000_0000_0000_0000);
        lemma_fx_mul_spec_abs(a2 as int, b2 as int, 0x8000_0000_0000_0000, 0x8000_0000_0000_0000);
        lemma_fx_mul_spec_abs(a3 as int, b3 as int, 0x8000_0000_0000_0000, 0x8000_0000_0000_0000);
    }
    t0 + t1 + t2 + t3
}

/// Floor of the square root: `r * r <= n < (r + 1) * (r + 1)`.
pub fn isqrt128(n: u128) -> (r: u64)
    ensures
        (r as int) * (r as int) <= n,
        n < (r + 1) * (r + 1),
{
    let mut lo: u128 = 0;
    let mut hi: u128 = 0x1_0000_0000_0000_0000;
    proof {
        assert(n < 0x1_0000_0000_0000_0000u128 as int * (0x1_0000_0000_0000_0000u128 as int));
    }
    while lo + 1 < hi
        invariant
            lo < hi <= 0x1_0000_0000_0000_0000u128,
            lo * lo <= n,
            n < hi * hi,
        decreases hi - lo,
    {
        let mid: u128 = lo + (hi - lo) / 2;
        proof {
            assert(mid * mid < 0x1_0000_0000_0000_0000u128 * 0x1_0000_0000_0000_0000u128)
                by (nonlinear_arith)
                requires
                    mid < 0x1_0000_0000_0000_0000u128,
            ;
        }
        let sq: u128 = mid * mid;
        if sq <= n {
            lo = mid;
        } else {
            hi = mid;
        }
    }
    proof {
        assert(lo < 0x1_0000_0000_0000_0000u128);
    }
    lo as u64
}

/// The magnitude of a fixed-point product: if `-aa <= a <= aa` and
/// `-bb <= b <= bb`, then `fx_mul_spec(a, b)` lies within
/// `(aa * bb) / FX_ONE` of zero.
pub proof fn lemma_fx_mul_spec_abs(a: int, b: int, aa: int, bb: int)
    requires
        -aa <= a <= aa,
        -bb <= b <= bb,
    ensures
        -((aa * bb) / (FX_ONE as int)) <= fx_mul_spec(a, b) <= (aa * bb) / (FX_ONE as int),
{
    assert(0 <= aa && 0 <= bb);
    let ab = a * b;
    assert(-(aa * bb) <= ab <= aa * bb) by (nonlinear_arith)
        requires
            -aa <= a <= aa,
            -bb <= b <= bb,
            ab == a * b,
    ;
    if ab >= 0 {
        vstd::arithmetic::div_mod::lemma_div_is_ordered(ab, aa * bb, FX_ONE as int);
        vstd::arithmetic::div_mod::lemma_div_pos_is_pos(ab, FX_ONE as int);
    } else {
        vstd::arithmetic::div_mod::lemma_div_is_ordered(-ab, aa * bb, FX_ONE as int);
        vstd::arithmetic::div_mod::lemma_div_pos_is_pos(-ab, FX_ONE as int);
    }
}

/// Multiplying by the fixed-point one is exact.
pub proof fn lemma_fx_mul_one(a: int)
    ensures
        fx_mul_spec(a, FX_ONE as int) == a,
        fx_mul_spec(FX_ONE as int, a) == a,
{
    if a >= 0 {
        assert(a * (FX_ONE as int) >= 0) by (nonlinear_arith)
            requires
                a >= 0,
        ;
        assert((a * (FX_ONE as int)) / (FX_ONE as int) == a) by {
            vstd::arithmetic::div_mod::lemma_div_by_multiple(a, FX_ONE as int);
        }
    } else {
        assert(a * (FX_ONE as int) < 0) by (nonlinear_arith)
            requires
                a < 0,
        ;
        assert(-(a * (FX_ONE as int)) == (-a) * (FX_ONE as int)) by (nonlinear_arith);
        assert(((-a) * (FX_ONE as int)) / (FX_ONE as int) == -a) by {
            vstd::arithmetic::div_mod::lemma_div_by_multiple(-a, FX_ONE as int);
        }
    }
    assert(a * (FX_ONE as int) == (FX_ONE as int) * a) by (nonlinear_arith);
}

/// Multiplying by zero gives zero.
pub proof fn lemma_fx_mul_zero(a: int)
    ensures
        fx_mul_spec(a, 0) == 0,
        fx_mul_spec(0, a) == 0,
{
    assert(a * 0 == 0) by (nonlinear_arith);
    assert(0 * a == 0) by (nonlinear_arith);
}

} // verus!
