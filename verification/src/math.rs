//! Integer arithmetic underpinning the fixed-point geometry: a floor square
//! root and truncating (round-toward-zero) division.

use vstd::prelude::*;

verus! {

use vstd::arithmetic::div_mod::{
    lemma_div_is_ordered, lemma_div_multiples_vanish, lemma_div_nonincreasing,
    lemma_div_pos_is_pos, lemma_fundamental_div_mod, lemma_mod_bound,
};

/// The largest `r` with `r * r <= n`.
pub open spec fn sqrt_floor(n: nat) -> nat
    decreases n,
{
    if n == 0 {
        0
    } else {
        let r = sqrt_floor((n - 1) as nat);
        if (r + 1) * (r + 1) <= n {
            (r + 1) as nat
        } else {
            r
        }
    }
}

/// `sqrt_floor` is what its name says: its square is at most `n` and the next
/// square is beyond `n`.
pub proof fn lemma_sqrt_floor(n: nat)
    ensures
        sqrt_floor(n) * sqrt_floor(n) <= n,
        n < (sqrt_floor(n) + 1) * (sqrt_floor(n) + 1),
    decreases n,
{
    let s = sqrt_floor(n);
    if n == 0 {
        assert(s == 0);
        assert(n < (s + 1) * (s + 1)) by (nonlinear_arith)
            requires n == 0 && s == 0;
    } else {
        lemma_sqrt_floor((n - 1) as nat);
        let r = sqrt_floor((n - 1) as nat);
        assert(r * r <= n - 1);
        assert(n - 1 < (r + 1) * (r + 1));
        if (r + 1) * (r + 1) <= n {
            assert(s == r + 1);
            assert(n < (s + 1) * (s + 1)) by (nonlinear_arith)
                requires s == r + 1 && n <= (r + 1) * (r + 1);
        } else {
            assert(s == r);
        }
    }
}

/// A value bracketed by two consecutive squares is the floor square root.
pub proof fn lemma_sqrt_floor_is(n: nat, r: nat)
    requires
        r * r <= n,
        n < (r + 1) * (r + 1),
    ensures
        sqrt_floor(n) == r,
{
    lemma_sqrt_floor(n);
    let s = sqrt_floor(n);
    if s < r {
        assert((s + 1) * (s + 1) <= r * r) by (nonlinear_arith)
            requires s + 1 <= r;
    }
    if r < s {
        assert((r + 1) * (r + 1) <= s * s) by (nonlinear_arith)
            requires r + 1 <= s;
    }
}

/// An upper bound on the radicand gives an upper bound on the root.
pub proof fn lemma_sqrt_floor_le(n: nat, k: nat)
    requires
        n < (k + 1) * (k + 1),
    ensures
        sqrt_floor(n) <= k,
{
    lemma_sqrt_floor(n);
    let s = sqrt_floor(n);
    if k < s {
        assert((k + 1) * (k + 1) <= s * s) by (nonlinear_arith)
            requires k + 1 <= s;
    }
}

/// Floor square root, by binary search.
pub fn isqrt(n: u64) -> (r: u64)
    requires
        n < 0x4000_0000_0000_0000,
    ensures
        r == sqrt_floor(n as nat),
{
    let mut lo: u64 = 0;
    let mut hi: u64 = 0x7fff_ffff;
    while lo < hi
        invariant
            lo <= hi <= 0x7fff_ffff,
            lo * lo <= n,
            n < (hi + 1) * (hi + 1),
        decreases hi - lo,
    {
        let mid = lo + (hi - lo + 1) / 2;
        assert(lo < mid <= hi);
        assert(mid * mid <= 0x7fff_ffff * 0x7fff_ffff) by (nonlinear_arith)
            requires mid <= 0x7fff_ffff;
        if mid * mid <= n {
            lo = mid;
        } else {
            hi = mid - 1;
        }
    }
    proof {
        lemma_sqrt_floor_is(n as nat, lo as nat);
    }
    lo
}

/// Division rounded toward zero, for a positive divisor. Matches hardware
/// signed division, unlike the Euclidean `/` of specifications.
pub open spec fn div_tz(n: int, d: int) -> int {
    if n >= 0 {
        n / d
    } else {
        -((-n) / d)
    }
}

/// Rounding toward zero never grows the magnitude and errs by less than one
/// divisor; the error has the sign that rounding toward zero dictates.
pub proof fn lemma_div_tz_error(n: int, d: int)
    requires
        0 < d,
    ensures
        n >= 0 ==> 0 <= n - div_tz(n, d) * d < d && 0 <= div_tz(n, d) <= n,
        n < 0 ==> -d < n - div_tz(n, d) * d <= 0 && n <= div_tz(n, d) <= 0,
{
    let m = if n >= 0 { n } else { -n };
    let q = m / d;
    lemma_fundamental_div_mod(m, d);
    lemma_mod_bound(m, d);
    lemma_div_pos_is_pos(m, d);
    assert(m == d * q + m % d);
    assert(q <= q * d) by (nonlinear_arith)
        requires 0 <= q, 1 <= d;
    assert(q * d == d * q) by (nonlinear_arith);
    assert(q <= m);
    if n >= 0 {
        assert(n - div_tz(n, d) * d == m % d);
    } else {
        assert(div_tz(n, d) == -q);
        assert(n - div_tz(n, d) * d == -(m % d)) by {
            assert((-q) * d == -(q * d)) by (nonlinear_arith);
        }
    }
}

/// A bound on the dividend as a multiple of the divisor bounds the quotient.
pub proof fn lemma_div_tz_bound(n: int, d: int, c: int)
    requires
        0 < d,
        0 <= c,
        -(c * d) <= n <= c * d,
    ensures
        -c <= div_tz(n, d) <= c,
{
    let m = if n >= 0 { n } else { -n };
    lemma_div_is_ordered(m, c * d, d);
    lemma_div_multiples_vanish(c, d);
    assert(c * d == d * c) by (nonlinear_arith);
    lemma_div_pos_is_pos(m, d);
    assert(0 <= m / d <= c);
}

/// `(a * b) / d`, rounded toward zero.
pub fn mul_div(a: i64, b: i64, d: i64) -> (r: i64)
    requires
        0 < d,
        -0x7fff_ffff_ffff_ffff <= a * b <= 0x7fff_ffff_ffff_ffff,
    ensures
        r == div_tz(a * b, d as int),
{
    let p: i64 = a * b;
    if p >= 0 {
        proof {
            lemma_div_pos_is_pos(p as int, d as int);
            lemma_div_nonincreasing(p as int, d as int);
        }
        ((p as u64) / (d as u64)) as i64
    } else {
        proof {
            lemma_div_pos_is_pos(-p as int, d as int);
            lemma_div_nonincreasing(-p as int, d as int);
        }
        let q: u64 = ((-p) as u64) / (d as u64);
        -(q as i64)
    }
}

} // verus!
