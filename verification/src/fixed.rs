//! Fixed-point scalars: square roots, signed division and clamping.
use vstd::prelude::*;

verus! {

/// Number of fixed-point steps in one world unit.
pub const UNIT: i32 = 1000;

/// The square of [`UNIT`].
pub const UNIT_SQUARED: i128 = 1_000_000;

/// Nanoseconds in one second.
pub const NANOS_PER_SECOND: u64 = 1_000_000_000;

/// The ratio one, in parts per billion. A ratio is a `u32` that counts such
/// parts; one above this constant stands for one.
pub const RATIO_ONE: u32 = 1_000_000_000;

/// The parts of a ratio, held to at most one.
pub open spec fn ratio_parts(ratio: u32) -> int {
    if ratio > RATIO_ONE {
        RATIO_ONE as int
    } else {
        ratio as int
    }
}

/// The point between `start` and `end` that lies `ratio` of the way along.
pub open spec fn lerp_of(start: int, end: int, ratio: u32) -> int {
    start + div_toward_zero((end - start) * ratio_parts(ratio), RATIO_ONE as int)
}

/// `r` is the largest integer whose square does not exceed `n`.
pub open spec fn is_floor_sqrt(n: int, r: int) -> bool {
    0 <= r && r * r <= n && n < (r + 1) * (r + 1)
}

/// `r` is the smallest non-negative integer whose square reaches `n`.
pub open spec fn is_ceil_sqrt(n: int, r: int) -> bool {
    0 <= r && n <= r * r && (r == 0 || (r - 1) * (r - 1) < n)
}

/// The square root of `n`, rounded down.
pub open spec fn floor_sqrt_of(n: int) -> int {
    choose|r: int| is_floor_sqrt(n, r)
}

/// The square root of `n`, rounded up.
pub open spec fn ceil_sqrt_of(n: int) -> int {
    choose|r: int| is_ceil_sqrt(n, r)
}

/// Squaring is monotone on the non-negative integers.
pub proof fn lemma_square_monotone(a: int, b: int)
    requires
        0 <= a <= b,
    ensures
        a * a <= b * b,
{
    assert(a * a <= b * b) by (nonlinear_arith)
        requires
            0 <= a <= b,
    ;
}

/// Two integers that both are the rounded-down root of `n` are equal.
pub proof fn lemma_floor_sqrt_unique(n: int, r: int, s: int)
    requires
        is_floor_sqrt(n, r),
        is_floor_sqrt(n, s),
    ensures
        r == s,
{
    if r < s {
        lemma_square_monotone(r + 1, s);
    } else if s < r {
        lemma_square_monotone(s + 1, r);
    }
}

/// Two integers that both are the rounded-up root of `n` are equal.
pub proof fn lemma_ceil_sqrt_unique(n: int, r: int, s: int)
    requires
        is_ceil_sqrt(n, r),
        is_ceil_sqrt(n, s),
    ensures
        r == s,
{
    if r < s {
        lemma_square_monotone(r, s - 1);
    } else if s < r {
        lemma_square_monotone(s, r - 1);
    }
}

/// Every non-negative integer has a square root rounded up.
pub proof fn lemma_ceil_sqrt_exists(n: int)
    requires
        0 <= n,
    ensures
        is_ceil_sqrt(n, ceil_sqrt_of(n)),
    decreases n,
{
    if n == 0 {
        assert(is_ceil_sqrt(0, 0));
    } else {
        lemma_ceil_sqrt_exists(n - 1);
        let r = ceil_sqrt_of(n - 1);
        if n <= r * r {
            if r == 0 {
                assert(false);
            }
            assert(is_ceil_sqrt(n, r));
        } else {
            assert(r * r == n - 1);
            assert((r + 1) * (r + 1) == r * r + 2 * r + 1) by (nonlinear_arith);
            assert(is_ceil_sqrt(n, r + 1));
        }
    }
}

/// Square root rounded down.
pub fn floor_sqrt(n: u128) -> (r: u128)
    ensures
        is_floor_sqrt(n as int, r as int),
        r == floor_sqrt_of(n as int),
        r < 0x1_0000_0000_0000_0000,
{
    let mut low: u128 = 0;
    let mut high: u128 = 0x1_0000_0000_0000_0000;
    assert(n < high * high) by (nonlinear_arith)
        requires
            high == 0x1_0000_0000_0000_0000u128,
            n <= u128::MAX,
    ;
    while high - low > 1
        invariant
            low < high <= 0x1_0000_0000_0000_0000,
            low * low <= n,
            n < high * high,
        decreases high - low,
    {
        let mid: u128 = low + (high - low) / 2;
        assert(mid * mid <= u128::MAX) by (nonlinear_arith)
            requires
                mid < 0x1_0000_0000_0000_0000u128,
        ;
        if mid * mid <= n {
            low = mid;
        } else {
            high = mid;
        }
    }
    proof {
        assert(is_floor_sqrt(n as int, low as int));
        lemma_floor_sqrt_unique(n as int, low as int, floor_sqrt_of(n as int));
    }
    low
}

/// Square root rounded up.
pub fn ceil_sqrt(n: u128) -> (r: u128)
    ensures
        is_ceil_sqrt(n as int, r as int),
        r == ceil_sqrt_of(n as int),
        r <= 0x1_0000_0000_0000_0000,
{
    let root: u128 = floor_sqrt(n);
    let r: u128 = if root * root == n {
        root
    } else {
        root + 1
    };
    proof {
        if r == root && root > 0 {
            lemma_square_monotone(root - 1, root as int);
            assert((root - 1) * (root - 1) < root * root) by (nonlinear_arith)
                requires
                    root >= 1,
            ;
        }
        assert(is_ceil_sqrt(n as int, r as int));
        lemma_ceil_sqrt_unique(n as int, r as int, ceil_sqrt_of(n as int));
    }
    r
}

/// The square of a coordinate.
pub fn squared(d: i32) -> (r: u128)
    ensures
        r == d * d,
{
    proof {
        lemma_product_bound(d as int, d as int, 0x8000_0000, 0x8000_0000);
        assert(d * d >= 0) by (nonlinear_arith);
    }
    let wide: i128 = d as i128;
    (wide * wide) as u128
}

/// `v` brought into the range of `i32`: values beyond either end become that end.
pub open spec fn saturated(v: int) -> int {
    if v < i32::MIN {
        i32::MIN as int
    } else if v > i32::MAX {
        i32::MAX as int
    } else {
        v
    }
}

/// Narrows to `i32`, stopping at the ends of its range.
pub fn saturate(v: i128) -> (r: i32)
    ensures
        r == saturated(v as int),
{
    if v < i32::MIN as i128 {
        i32::MIN
    } else if v > i32::MAX as i128 {
        i32::MAX
    } else {
        v as i32
    }
}

/// The quotient of `a` by a positive `b`, rounded toward zero.
pub open spec fn div_toward_zero(a: int, b: int) -> int
    recommends
        b > 0,
{
    if a >= 0 {
        a / b
    } else {
        -((-a) / b)
    }
}

/// The quotient rounded toward zero is no larger in magnitude than the
/// dividend, and has its sign or is zero.
pub proof fn lemma_div_toward_zero_bounds(a: int, b: int)
    requires
        b > 0,
    ensures
        a >= 0 ==> 0 <= div_toward_zero(a, b) <= a,
        a <= 0 ==> a <= div_toward_zero(a, b) <= 0,
        a >= 0 ==> div_toward_zero(a, b) * b <= a,
        a <= 0 ==> div_toward_zero(a, b) * b >= a,
{
    if a >= 0 {
        vstd::arithmetic::div_mod::lemma_div_pos_is_pos(a, b);
        vstd::arithmetic::div_mod::lemma_div_is_ordered_by_denominator(a, 1, b);
        vstd::arithmetic::div_mod::lemma_fundamental_div_mod(a, b);
        vstd::arithmetic::div_mod::lemma_mod_bound(a, b);
        assert(a / b * b == b * (a / b)) by (nonlinear_arith);
    } else {
        vstd::arithmetic::div_mod::lemma_div_pos_is_pos(-a, b);
        vstd::arithmetic::div_mod::lemma_div_is_ordered_by_denominator(-a, 1, b);
        vstd::arithmetic::div_mod::lemma_fundamental_div_mod(-a, b);
        vstd::arithmetic::div_mod::lemma_mod_bound(-a, b);
        assert((-((-a) / b)) * b == -(b * ((-a) / b))) by (nonlinear_arith);
    }
}

/// What division rounded toward zero leaves over is less than the divisor.
pub proof fn lemma_div_toward_zero_remainder(a: int, b: int)
    requires
        b > 0,
    ensures
        a >= 0 ==> a - div_toward_zero(a, b) * b < b,
        a <= 0 ==> div_toward_zero(a, b) * b - a < b,
{
    if a >= 0 {
        vstd::arithmetic::div_mod::lemma_fundamental_div_mod(a, b);
        vstd::arithmetic::div_mod::lemma_mod_bound(a, b);
        assert(a / b * b == b * (a / b)) by (nonlinear_arith);
    } else {
        vstd::arithmetic::div_mod::lemma_fundamental_div_mod(-a, b);
        vstd::arithmetic::div_mod::lemma_mod_bound(-a, b);
        assert((-((-a) / b)) * b == -(b * ((-a) / b))) by (nonlinear_arith);
    }
}

/// `a * b / d`, rounded toward zero.
pub open spec fn mul_div_of(a: int, b: int, d: int) -> int
    recommends
        d > 0,
{
    div_toward_zero(a * b, d)
}

/// The product of two bounded integers is bounded by the product of the bounds.
pub proof fn lemma_product_bound(a: int, b: int, bound_a: int, bound_b: int)
    requires
        -bound_a <= a <= bound_a,
        -bound_b <= b <= bound_b,
    ensures
        -(bound_a * bound_b) <= a * b <= bound_a * bound_b,
{
    assert(-(bound_a * bound_b) <= a * b <= bound_a * bound_b) by (nonlinear_arith)
        requires
            -bound_a <= a <= bound_a,
            -bound_b <= b <= bound_b,
    ;
}

/// `a * b / d`, rounded toward zero, for factors of at most 64 bits.
pub fn mul_div(a: i128, b: i128, d: i128) -> (r: i128)
    requires
        -0x1_0000_0000_0000_0000 <= a <= 0x1_0000_0000_0000_0000,
        -0x4000_0000_0000_0000 <= b <= 0x4000_0000_0000_0000,
        d > 0,
    ensures
        r == mul_div_of(a as int, b as int, d as int),
{
    proof {
        lemma_product_bound(a as int, b as int, 0x1_0000_0000_0000_0000, 0x4000_0000_0000_0000);
    }
    let product: i128 = a * b;
    product / d
}

/// Interpolation starts at `start`, ends at `end` and stays between them.
pub proof fn lemma_lerp_bounds(start: int, end: int, ratio: u32)
    ensures
        lerp_of(start, end, 0) == start,
        ratio >= RATIO_ONE ==> lerp_of(start, end, ratio) == end,
        start <= end ==> start <= lerp_of(start, end, ratio) <= end,
        end <= start ==> end <= lerp_of(start, end, ratio) <= start,
{
    let one = RATIO_ONE as int;
    let parts = ratio_parts(ratio);
    let span = end - start;
    assert(span * 0 == 0);
    assert(span * one / one == span && (-(span * one)) / one == -span) by (nonlinear_arith)
        requires
            one > 0,
    ;
    assert(span >= 0 ==> 0 <= span * parts <= span * one) by (nonlinear_arith)
        requires
            0 <= parts <= one,
    ;
    assert(span <= 0 ==> span * one <= span * parts <= 0) by (nonlinear_arith)
        requires
            0 <= parts <= one,
    ;
    lemma_div_toward_zero_monotone(span * parts, span * one, one);
    lemma_div_toward_zero_monotone(span * one, span * parts, one);
    lemma_div_toward_zero_bounds(span * parts, one);
    assert(div_toward_zero(span * one, one) == span);
}

/// Division rounded toward zero is monotone in the dividend.
pub proof fn lemma_div_toward_zero_monotone(a: int, b: int, d: int)
    requires
        d > 0,
    ensures
        a <= b ==> div_toward_zero(a, d) <= div_toward_zero(b, d),
{
    if a <= b {
        lemma_div_toward_zero_bounds(a, d);
        lemma_div_toward_zero_bounds(b, d);
        if a >= 0 {
            vstd::arithmetic::div_mod::lemma_div_is_ordered(a, b, d);
        } else if b <= 0 {
            vstd::arithmetic::div_mod::lemma_div_is_ordered(-b, -a, d);
        }
    }
}

/// Interpolation is monotone in the ratio.
pub proof fn lemma_lerp_monotone(start: int, end: int, earlier: u32, later: u32)
    requires
        earlier <= later,
    ensures
        start <= end ==> lerp_of(start, end, earlier) <= lerp_of(start, end, later),
        end <= start ==> lerp_of(start, end, later) <= lerp_of(start, end, earlier),
{
    let one = RATIO_ONE as int;
    let span = end - start;
    let p = ratio_parts(earlier);
    let q = ratio_parts(later);
    assert(span >= 0 ==> span * p <= span * q) by (nonlinear_arith)
        requires
            0 <= p <= q,
    ;
    assert(span <= 0 ==> span * q <= span * p) by (nonlinear_arith)
        requires
            0 <= p <= q,
    ;
    lemma_div_toward_zero_monotone(span * p, span * q, one);
    lemma_div_toward_zero_monotone(span * q, span * p, one);
}

/// Interpolates between two coordinates.
pub fn lerp(start: i32, end: i32, ratio: u32) -> (r: i32)
    ensures
        r == lerp_of(start as int, end as int, ratio),
{
    let parts: u32 = if ratio > RATIO_ONE {
        RATIO_ONE
    } else {
        ratio
    };
    let span: i128 = end as i128 - start as i128;
    let step: i128 = mul_div(span, parts as i128, RATIO_ONE as i128);
    proof {
        lemma_lerp_bounds(start as int, end as int, ratio);
    }
    (start as i128 + step) as i32
}

} // verus!
