use vstd::prelude::*;
use vstd::arithmetic::div_mod::{
    lemma_div_is_ordered, lemma_div_multiples_vanish, lemma_div_nonincreasing,
    lemma_div_pos_is_pos, lemma_fundamental_div_mod, lemma_mod_bound,
};
use vstd::arithmetic::mul::lemma_mul_inequality;

verus! {

/// Floor of the square root, defined by counting up.
pub open spec fn isqrt_spec(n: nat) -> nat
    decreases n,
{
    if n == 0 {
        0
    } else {
        let r = isqrt_spec((n - 1) as nat);
        if (r + 1) * (r + 1) <= n {
            r + 1
        } else {
            r
        }
    }
}

/// `isqrt_spec(n)` is the floor of the square root of `n`.
pub proof fn lemma_isqrt_bounds(n: nat)
    ensures
        isqrt_spec(n) * isqrt_spec(n) <= n,
        n < (isqrt_spec(n) + 1) * (isqrt_spec(n) + 1),
    decreases n,
{
    if n > 0 {
        lemma_isqrt_bounds((n - 1) as nat);
        let r = isqrt_spec((n - 1) as nat);
        assert(r * r <= n - 1);
        assert(n - 1 < (r + 1) * (r + 1));
        if (r + 1) * (r + 1) <= n {
            assert(isqrt_spec(n) == r + 1);
            assert(n < (r + 2) * (r + 2)) by (nonlinear_arith)
                requires
                    n <= (r + 1) * (r + 1),
                    0 <= r,
            ;
            assert(isqrt_spec(n) * isqrt_spec(n) <= n);
            assert(n < (isqrt_spec(n) + 1) * (isqrt_spec(n) + 1));
        } else {
            assert(isqrt_spec(n) == r);
            assert(isqrt_spec(n) * isqrt_spec(n) <= n);
            assert(n < (isqrt_spec(n) + 1) * (isqrt_spec(n) + 1));
        }
    } else {
        assert(n == 0);
        assert(isqrt_spec(n) == 0);
        assert((isqrt_spec(n) + 1) * (isqrt_spec(n) + 1) == 1) by (nonlinear_arith)
            requires
                isqrt_spec(n) == 0,
        ;
    }
}

/// Only the floor of the square root sits between the two squares.
pub proof fn lemma_isqrt_unique(n: nat, r: nat)
    requires
        r * r <= n,
        n < (r + 1) * (r + 1),
    ensures
        r == isqrt_spec(n),
{
    lemma_isqrt_bounds(n);
    let s = isqrt_spec(n);
    if r < s {
        assert(false) by (nonlinear_arith)
            requires
                r < s,
                s * s <= n,
                n < (r + 1) * (r + 1),
                0 <= r,
                0 <= s,
        ;
    }
    if s < r {
        assert(false) by (nonlinear_arith)
            requires
                s < r,
                r * r <= n,
                n < (s + 1) * (s + 1),
                0 <= r,
                0 <= s,
        ;
    }
}

/// Floor square root by bisection.
pub fn isqrt(n: u64) -> (r: u64)
    requires
        n < 0x4000_0000_0000_0000,
    ensures
        r == isqrt_spec(n as nat),
        r * r <= n,
        n < (r + 1) * (r + 1),
{
    let mut lo: u64 = 0;
    let mut hi: u64 = 0x8000_0000;
    assert(hi * hi > n) by (nonlinear_arith)
        requires
            hi == 0x8000_0000u64,
            n < 0x4000_0000_0000_0000,
    ;
    while lo + 1 < hi
        invariant
            lo < hi <= 0x8000_0000,
            lo * lo <= n,
            n < hi * hi,
            n < 0x4000_0000_0000_0000,
        decreases hi - lo,
    {
        let mid: u64 = lo + (hi - lo) / 2;
        assert(lo < mid < hi);
        assert(mid * mid <= 0x4000_0000_0000_0000) by (nonlinear_arith)
            requires
                mid <= 0x8000_0000u64,
        ;
        if mid * mid <= n {
            lo = mid;
        } else {
            hi = mid;
        }
    }
    proof {
        lemma_isqrt_unique(n as nat, lo as nat);
    }
    lo
}

/// A number whose square is at most `n` is at most the floor root of `n`.
pub proof fn lemma_sq_le_implies_le(c: int, n: int, m: int)
    requires
        c * c <= n,
        n < (m + 1) * (m + 1),
        0 <= m,
    ensures
        -m <= c <= m,
{
    assert(-m <= c <= m) by (nonlinear_arith)
        requires
            c * c <= n,
            n < (m + 1) * (m + 1),
            0 <= m,
    ;
}

/// The value of `c * k / m` with the division truncated toward zero, as Rust
/// integer division truncates.
pub open spec fn scale_trunc(c: int, k: int, m: int) -> int {
    if c >= 0 {
        (c * k) / m
    } else {
        -(((-c) * k) / m)
    }
}

/// `c * k / m`, truncated toward zero.
pub fn mul_div(c: i64, k: u64, m: u64) -> (r: i64)
    requires
        -250_000_000 <= c <= 250_000_000,
        k <= 10_000_000,
        1 <= m,
    ensures
        r == scale_trunc(c as int, k as int, m as int),
        -2_500_000_000_000_000 <= r <= 2_500_000_000_000_000,
{
    let a: u64 = if c >= 0 {
        c as u64
    } else {
        (-c) as u64
    };
    assert(a * k <= 2_500_000_000_000_000) by (nonlinear_arith)
        requires
            a <= 250_000_000u64,
            k <= 10_000_000u64,
    ;
    let q: u64 = (a * k) / m;
    proof {
        lemma_div_nonincreasing((a * k) as int, m as int);
        lemma_div_pos_is_pos((a * k) as int, m as int);
    }
    let qi: i64 = q as i64;
    if c >= 0 {
        qi
    } else {
        -qi
    }
}

/// Scaling a component no longer than the divisor keeps it within `k`.
pub proof fn lemma_scale_trunc_le(c: int, k: int, m: int)
    requires
        -m <= c <= m,
        1 <= m,
        0 <= k,
    ensures
        -k <= scale_trunc(c, k, m) <= k,
{
    if c >= 0 {
        lemma_mul_inequality(c, m, k);
        lemma_div_is_ordered(c * k, m * k, m);
        lemma_div_multiples_vanish(k, m);
        lemma_div_pos_is_pos(c * k, m);
        assert(c * k >= 0) by (nonlinear_arith)
            requires
                c >= 0,
                k >= 0,
        ;
    } else {
        lemma_mul_inequality(-c, m, k);
        lemma_div_is_ordered((-c) * k, m * k, m);
        lemma_div_multiples_vanish(k, m);
        lemma_div_pos_is_pos((-c) * k, m);
        assert((-c) * k >= 0) by (nonlinear_arith)
            requires
                c < 0,
                k >= 0,
        ;
    }
}

/// The scaled value, multiplied back by the divisor, stays within `|c| * k`.
pub proof fn lemma_scale_trunc_mul_bound(c: int, k: int, m: int)
    requires
        1 <= m,
        0 <= k,
    ensures
        crate::geom::iabs(scale_trunc(c, k, m)) * m <= crate::geom::iabs(c) * k,
        0 <= crate::geom::iabs(scale_trunc(c, k, m)),
{
    let a = crate::geom::iabs(c);
    assert(a * k >= 0) by (nonlinear_arith)
        requires
            a >= 0,
            k >= 0,
    ;
    lemma_fundamental_div_mod(a * k, m);
    lemma_mod_bound(a * k, m);
    lemma_div_pos_is_pos(a * k, m);
    assert(((a * k) / m) * m <= a * k) by (nonlinear_arith)
        requires
            a * k == m * ((a * k) / m) + (a * k) % m,
            0 <= (a * k) % m,
    ;
    if c >= 0 {
        assert(scale_trunc(c, k, m) == (a * k) / m);
    } else {
        assert(scale_trunc(c, k, m) == -((a * k) / m));
    }
}

/// Bounds on the inputs bound the scaled value times the divisor.
pub proof fn lemma_scale_trunc_bounded(c: int, k: int, m: int, cb: int, kb: int)
    requires
        1 <= m,
        0 <= k <= kb,
        -cb <= c <= cb,
    ensures
        -(cb * kb) <= scale_trunc(c, k, m) * m <= cb * kb,
{
    lemma_scale_trunc_mul_bound(c, k, m);
    let t = scale_trunc(c, k, m);
    assert(crate::geom::iabs(c) * k <= cb * kb) by (nonlinear_arith)
        requires
            0 <= crate::geom::iabs(c) <= cb,
            0 <= k <= kb,
    ;
    assert(-(cb * kb) <= t * m <= cb * kb) by (nonlinear_arith)
        requires
            crate::geom::iabs(t) * m <= cb * kb,
            t <= crate::geom::iabs(t),
            -crate::geom::iabs(t) <= t,
            0 <= crate::geom::iabs(t),
            0 <= m,
    ;
}

} // verus!
