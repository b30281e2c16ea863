//! Fixed-point arithmetic on `i64` quantities that count millionths.
//!
//! A quantity `q` stands for the rational number `q / SCALE`. Quotients are
//! rounded toward negative infinity; a result that does not fit an `i64` is
//! clamped to the nearest bound.

use vstd::prelude::*;
use vstd::arithmetic::div_mod::{
    lemma_fundamental_div_mod, lemma_fundamental_div_mod_converse, lemma_mod_bound,
};

verus! {

/// The raw value of the quantity one.
pub const SCALE: i64 = 1_000_000;

/// The raw value of the quantity one hundred.
pub const HUNDRED: i64 = 100_000_000;

/// The nearest value to `x` that an `i64` can hold.
pub open spec fn clamp(x: int) -> int {
    if x < i64::MIN {
        i64::MIN as int
    } else if x > i64::MAX {
        i64::MAX as int
    } else {
        x
    }
}

/// The largest integer not above `n / d`.
pub open spec fn floor_div(n: int, d: int) -> int
    recommends
        d != 0,
{
    if d > 0 {
        n / d
    } else {
        (-n) / (-d)
    }
}

/// The absolute value of `x`.
pub open spec fn abs(x: int) -> int {
    if x < 0 {
        -x
    } else {
        x
    }
}

/// The larger of `a` and `b`.
pub open spec fn max2(a: int, b: int) -> int {
    if a >= b {
        a
    } else {
        b
    }
}

/// The quantity `a * b`, rounded down and clamped.
pub open spec fn product(a: int, b: int) -> int {
    clamp((a * b) / (SCALE as int))
}

/// The quantity `a / b`, rounded down and clamped.
pub open spec fn quotient(a: int, b: int) -> int
    recommends
        b != 0,
{
    clamp(floor_div(a * SCALE, b))
}

/// Where `value` lies between `lo` and `hi`, in percent of the way from `lo`
/// to `hi`; zero where the two coincide.
pub open spec fn percent_in_range(value: i64, lo: i64, hi: i64) -> i64 {
    if hi == lo {
        0
    } else {
        clamp(floor_div(HUNDRED * (value - lo), hi - lo)) as i64
    }
}

/// The integer square root: the largest `r` with `r * r <= x`.
pub open spec fn int_sqrt(x: nat) -> nat
    decreases x,
{
    if x == 0 {
        0
    } else {
        let r = 2 * int_sqrt(x / 4);
        if (r + 1) * (r + 1) <= x {
            r + 1
        } else {
            r
        }
    }
}

/// The square of `int_sqrt(x)` does not exceed `x`, and the square of the
/// next number does.
pub proof fn lemma_int_sqrt_bounds(x: nat)
    ensures
        int_sqrt(x) * int_sqrt(x) <= x,
        x < (int_sqrt(x) + 1) * (int_sqrt(x) + 1),
    decreases x,
{
    let r = int_sqrt(x);
    if x == 0 {
        assert(r == 0);
        assert(r * r == 0 && (r + 1) * (r + 1) == 1) by (nonlinear_arith)
            requires
                r == 0,
        ;
    } else {
        let y: nat = x / 4;
        lemma_int_sqrt_bounds(y);
        let s = int_sqrt(y);
        let t = 2 * s;
        assert(4 * y <= x < 4 * y + 4);
        assert(t * t <= x && x < (t + 2) * (t + 2)) by (nonlinear_arith)
            requires
                t == 2 * s,
                s * s <= y,
                y < (s + 1) * (s + 1),
                4 * y <= x < 4 * y + 4,
        ;
        if (t + 1) * (t + 1) <= x {
            assert(r == t + 1);
            assert((r + 1) * (r + 1) == (t + 2) * (t + 2)) by (nonlinear_arith)
                requires
                    r == t + 1,
            ;
        } else {
            assert(r == t);
        }
    }
}

/// The bounds that hold of `int_sqrt(x)` hold of no other number.
pub proof fn lemma_int_sqrt_unique(x: nat, r: nat)
    requires
        r * r <= x,
        x < (r + 1) * (r + 1),
    ensures
        r == int_sqrt(x),
{
    lemma_int_sqrt_bounds(x);
    let s = int_sqrt(x);
    assert(r == s) by (nonlinear_arith)
        requires
            r * r <= x,
            x < (r + 1) * (r + 1),
            s * s <= x,
            x < (s + 1) * (s + 1),
    ;
}

/// A value between `lo` and `hi` lies between zero and one hundred percent
/// of the way.
pub proof fn lemma_percent_in_scale(value: i64, lo: i64, hi: i64)
    requires
        lo <= value <= hi,
    ensures
        0 <= percent_in_range(value, lo, hi) <= HUNDRED,
{
    if hi != lo {
        let n = HUNDRED * (value - lo);
        let d = hi - lo;
        lemma_fundamental_div_mod(n, d);
        lemma_mod_bound(n, d);
        assert(0 <= n / d <= HUNDRED) by (nonlinear_arith)
            requires
                n == d * (n / d) + n % d,
                0 <= n % d < d,
                n == HUNDRED * (value - lo),
                d == hi - lo,
                lo <= value <= hi,
                HUNDRED == 100_000_000,
        ;
    }
}

/// Clamps a wide integer into a quantity.
pub fn saturate(x: i128) -> (r: i64)
    ensures
        r == clamp(x as int),
{
    if x < i64::MIN as i128 {
        i64::MIN
    } else if x > i64::MAX as i128 {
        i64::MAX
    } else {
        x as i64
    }
}

/// The quotient of `n` by a positive `d`, rounded toward negative infinity.
pub fn div_floor(n: i128, d: i128) -> (q: i128)
    requires
        d > 0,
    ensures
        q == floor_div(n as int, d as int),
        q == (n as int) / (d as int),
{
    let t: i128 = n / d;
    let r: i128 = n % d;
    proof {
        if n >= 0 {
            lemma_fundamental_div_mod(n as int, d as int);
        } else {
            lemma_fundamental_div_mod(-(n as int), d as int);
            lemma_mod_bound(-(n as int), d as int);
        }
        assert(n == t * d + r) by (nonlinear_arith)
            requires
                n >= 0 ==> n == d * t + r,
                n < 0 ==> -n == d * (-t) + (-r),
        ;
        lemma_mod_bound(n as int, d as int);
    }
    if r < 0 {
        proof {
            assert(t > i128::MIN) by (nonlinear_arith)
                requires
                    n == t * d + r,
                    r < 0,
                    d > 0,
                    n >= i128::MIN,
            ;
            assert(n == (t - 1) * d + (r + d)) by (nonlinear_arith)
                requires
                    n == t * d + r,
            ;
            lemma_fundamental_div_mod_converse(n as int, d as int, t - 1, r + d);
        }
        t - 1
    } else {
        proof {
            lemma_fundamental_div_mod_converse(n as int, d as int, t as int, r as int);
        }
        t
    }
}

/// The sum of two quantities, clamped.
pub fn fx_add(a: i64, b: i64) -> (r: i64)
    ensures
        r == clamp(a + b),
{
    saturate(a as i128 + b as i128)
}

/// The difference of two quantities, clamped.
pub fn fx_sub(a: i64, b: i64) -> (r: i64)
    ensures
        r == clamp(a - b),
{
    saturate(a as i128 - b as i128)
}

/// The product of two quantities, rounded down and clamped.
pub fn fx_mul(a: i64, b: i64) -> (r: i64)
    ensures
        r == product(a as int, b as int),
{
    assert(-0x4000_0000_0000_0000_0000_0000_0000_0000 <= a * b
        <= 0x4000_0000_0000_0000_0000_0000_0000_0000) by (nonlinear_arith)
        requires
            -0x8000_0000_0000_0000 <= a <= 0x8000_0000_0000_0000,
            -0x8000_0000_0000_0000 <= b <= 0x8000_0000_0000_0000,
    ;
    let wide: i128 = (a as i128) * (b as i128);
    saturate(div_floor(wide, SCALE as i128))
}

/// The quantity `n / d` of two wide integers, rounded down and clamped.
pub fn ratio(n: i128, d: i128) -> (r: i64)
    requires
        d != 0,
        -0x1_0000_0000_0000_0000_0000_0000 <= n <= 0x1_0000_0000_0000_0000_0000_0000,
        d > i128::MIN,
    ensures
        r == quotient(n as int, d as int),
{
    assert(n * SCALE == n * 1_000_000);
    let wide: i128 = n * (SCALE as i128);
    if d > 0 {
        saturate(div_floor(wide, d))
    } else {
        saturate(div_floor(-wide, -d))
    }
}

/// The quotient of two quantities, rounded down and clamped.
pub fn fx_div(a: i64, b: i64) -> (r: i64)
    requires
        b != 0,
    ensures
        r == quotient(a as int, b as int),
{
    ratio(a as i128, b as i128)
}

/// Where `value` lies between `lo` and `hi`, in percent.
pub fn percent_of_range(value: i64, lo: i64, hi: i64) -> (pct: i64)
    ensures
        pct == percent_in_range(value, lo, hi),
{
    if hi == lo {
        return 0;
    }
    let rise: i128 = value as i128 - lo as i128;
    assert(HUNDRED * rise == 100_000_000 * rise);
    let wide: i128 = (HUNDRED as i128) * rise;
    let span: i128 = hi as i128 - lo as i128;
    if span > 0 {
        saturate(div_floor(wide, span))
    } else {
        saturate(div_floor(-wide, -span))
    }
}

/// The integer square root of `x`, found by bisection.
pub fn isqrt(x: u128) -> (r: u64)
    ensures
        r == int_sqrt(x as nat),
{
    let mut lo: u128 = 0;
    let mut hi: u128 = 0x1_0000_0000_0000_0000;
    assert(x < hi * hi) by (nonlinear_arith)
        requires
            hi == 0x1_0000_0000_0000_0000,
            x <= u128::MAX,
    ;
    while hi - lo > 1
        invariant
            lo < hi <= 0x1_0000_0000_0000_0000,
            lo * lo <= x,
            x < hi * hi,
        decreases hi - lo,
    {
        let mid: u128 = lo + (hi - lo) / 2;
        assert(mid * mid <= u128::MAX) by (nonlinear_arith)
            requires
                mid <= 0xffff_ffff_ffff_ffff,
        ;
        if mid * mid <= x {
            lo = mid;
        } else {
            hi = mid;
        }
    }
    proof {
        lemma_int_sqrt_unique(x as nat, lo as nat);
    }
    lo as u64
}

} // verus!
