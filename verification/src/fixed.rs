//! Fixed-point scalars.
//!
//! A scalar is an `i64` that counts millionths: the raw value `r` stands for
//! the number `r / ONE`. Sums and differences are exact. Products and
//! quotients are rounded toward zero, and the components of a normalised
//! vector to the nearest scalar: either way an operation commutes with
//! negation.

use vstd::prelude::*;

verus! {

/// The raw value of the number one.
pub const ONE: i64 = 1_000_000;

/// The largest raw magnitude of a coordinate for which every intermediate
/// value of the kernel is representable.
pub const COORD_MAX: i64 = 1_000_000_000_000;

/// The absolute value of an integer.
pub open spec fn magnitude_of(a: int) -> int {
    if a < 0 {
        -a
    } else {
        a
    }
}

/// The quotient of `a` by `b`, rounded toward zero.
pub open spec fn trunc_div(a: int, b: int) -> int
    recommends
        b != 0,
{
    if a >= 0 {
        if b > 0 {
            a / b
        } else {
            -(a / (-b))
        }
    } else {
        if b > 0 {
            -((-a) / b)
        } else {
            (-a) / (-b)
        }
    }
}

/// Whether an integer is the raw value of a scalar.
pub open spec fn representable(a: int) -> bool {
    i64::MIN <= a <= i64::MAX
}

/// Whether a raw value lies within the coordinate range.
pub open spec fn in_range(a: int) -> bool {
    -COORD_MAX <= a <= COORD_MAX
}

/// The quotient of two integers, rounded toward zero.
pub fn quotient(a: i128, b: i128) -> (q: i128)
    requires
        b != 0,
        a != i128::MIN,
        b != i128::MIN,
    ensures
        q == trunc_div(a as int, b as int),
{
    let ua: i128 = if a < 0 { -a } else { a };
    let ub: i128 = if b < 0 { -b } else { b };
    let uq: i128 = ua / ub;
    if (a < 0) == (b < 0) {
        uq
    } else {
        -uq
    }
}

/// The quotient of `a` by a positive `b`, rounded to the nearest integer,
/// and away from zero where two are equally near.
pub open spec fn round_div(a: int, b: int) -> int
    recommends
        b > 0,
{
    if a >= 0 {
        (2 * a + b) / (2 * b)
    } else {
        -((b - 2 * a) / (2 * b))
    }
}

/// The quotient of an integer by a positive one, rounded to the nearest
/// integer. Both must be under `2^125` in magnitude.
pub fn rounded_quotient(a: i128, b: i128) -> (q: i128)
    requires
        0 < b < 0x2000_0000_0000_0000_0000_0000_0000_0000,
        -0x2000_0000_0000_0000_0000_0000_0000_0000 < a < 0x2000_0000_0000_0000_0000_0000_0000_0000,
    ensures
        q == round_div(a as int, b as int),
{
    if a >= 0 {
        (2 * a + b) / (2 * b)
    } else {
        -((b - 2 * a) / (2 * b))
    }
}

/// Whether `r` is the square root of `n`, rounded down.
pub open spec fn is_floor_sqrt(n: int, r: int) -> bool {
    0 <= r && r * r <= n < (r + 1) * (r + 1)
}

/// The square root of `n`, rounded down.
pub open spec fn floor_sqrt(n: int) -> int
    recommends
        n >= 0,
{
    choose|r: int| is_floor_sqrt(n, r)
}

/// At most one integer is the rounded-down square root of `n`.
pub proof fn lemma_floor_sqrt_unique(n: int, a: int, b: int)
    requires
        is_floor_sqrt(n, a),
        is_floor_sqrt(n, b),
    ensures
        a == b,
{
    if a < b {
        assert((a + 1) * (a + 1) <= b * b) by (nonlinear_arith)
            requires
                0 <= a,
                a + 1 <= b,
        ;
    }
    if b < a {
        assert((b + 1) * (b + 1) <= a * a) by (nonlinear_arith)
            requires
                0 <= b,
                b + 1 <= a,
        ;
    }
}

/// Every natural number has a rounded-down square root.
pub proof fn lemma_floor_sqrt_exists(n: int)
    requires
        n >= 0,
    ensures
        is_floor_sqrt(n, floor_sqrt(n)),
    decreases n,
{
    if n == 0 {
        assert(is_floor_sqrt(0, 0));
    } else {
        lemma_floor_sqrt_exists(n - 1);
        let r = floor_sqrt(n - 1);
        if n < (r + 1) * (r + 1) {
            assert(is_floor_sqrt(n, r));
        } else {
            assert((r + 2) * (r + 2) > (r + 1) * (r + 1)) by (nonlinear_arith)
                requires
                    0 <= r,
            ;
            assert(is_floor_sqrt(n, r + 1));
        }
    }
}

/// An integer that meets the defining bounds is the rounded-down square root.
pub proof fn lemma_floor_sqrt_is(n: int, r: int)
    requires
        is_floor_sqrt(n, r),
    ensures
        floor_sqrt(n) == r,
{
    lemma_floor_sqrt_unique(n, r, floor_sqrt(n));
}

/// The square root of `n`, rounded down.
pub fn isqrt(n: u128) -> (r: u128)
    ensures
        r == floor_sqrt(n as int),
        is_floor_sqrt(n as int, r as int),
        r < 0x1_0000_0000_0000_0000,
{
    let mut lo: u128 = 0;
    let mut hi: u128 = 0x1_0000_0000_0000_0000;
    assert(0x1_0000_0000_0000_0000int * 0x1_0000_0000_0000_0000int > u128::MAX) by (nonlinear_arith);
    while hi - lo > 1
        invariant
            lo < hi <= 0x1_0000_0000_0000_0000,
            lo * lo <= n < hi * hi,
        decreases hi - lo,
    {
        let mid: u128 = lo + (hi - lo) / 2;
        let q: u128 = n / mid;
        proof {
            assert(q * mid <= n < (q + 1) * mid) by (nonlinear_arith)
                requires
                    mid > 0,
                    q == n as int / mid as int,
            ;
        }
        if mid <= q {
            proof {
                assert(mid * mid <= q * mid) by (nonlinear_arith)
                    requires
                        0 <= mid <= q,
                ;
            }
            lo = mid;
        } else {
            proof {
                assert((q + 1) * mid <= mid * mid) by (nonlinear_arith)
                    requires
                        0 <= q + 1 <= mid,
                ;
            }
            hi = mid;
        }
    }
    proof {
        lemma_floor_sqrt_is(n as int, lo as int);
    }
    lo
}

/// The product of two scalars: their raw product over `ONE`, rounded toward
/// zero.
pub open spec fn fx_mul(a: int, b: int) -> int {
    trunc_div(a * b, ONE as int)
}

/// The quotient of two scalars: `ONE` times the raw dividend over the raw
/// divisor, rounded toward zero.
pub open spec fn fx_div(a: int, b: int) -> int
    recommends
        b != 0,
{
    trunc_div(a * ONE, b)
}

/// The raw product of two `i64` values lies within `2^126` of zero.
pub proof fn lemma_product_bounds(a: int, b: int)
    requires
        representable(a),
        representable(b),
    ensures
        -0x4000_0000_0000_0000_0000_0000_0000_0000 < a * b
            <= 0x4000_0000_0000_0000_0000_0000_0000_0000,
{
    assert(-0x4000_0000_0000_0000_0000_0000_0000_0000 < a * b
        <= 0x4000_0000_0000_0000_0000_0000_0000_0000) by (nonlinear_arith)
        requires
            -0x8000_0000_0000_0000 <= a <= 0x7fff_ffff_ffff_ffff,
            -0x8000_0000_0000_0000 <= b <= 0x7fff_ffff_ffff_ffff,
    ;
}

/// The exact product of two raw values.
pub fn wide_product(a: i64, b: i64) -> (p: i128)
    ensures
        p == a * b,
        -0x4000_0000_0000_0000_0000_0000_0000_0000 < p <= 0x4000_0000_0000_0000_0000_0000_0000_0000,
{
    proof {
        lemma_product_bounds(a as int, b as int);
    }
    (a as i128) * (b as i128)
}

/// The product of two scalars, before it is narrowed to a scalar.
pub fn scaled_product(a: i64, b: i64) -> (p: i128)
    ensures
        p == fx_mul(a as int, b as int),
{
    quotient(wide_product(a, b), ONE as i128)
}

/// The quotient of two scalars, before it is narrowed to a scalar.
pub fn scaled_quotient(a: i64, b: i64) -> (q: i128)
    requires
        b != 0,
    ensures
        q == fx_div(a as int, b as int),
{
    quotient(wide_product(a, ONE), b as i128)
}

/// A wide value that is known to be the raw value of a scalar, as a scalar.
pub fn narrow(v: i128) -> (r: i64)
    requires
        representable(v as int),
    ensures
        r == v,
{
    v as i64
}

/// A raw value over `ONE` is a scalar only if the raw value is within
/// `ONE` times the scalar range.
pub proof fn lemma_scaled_bounds(a: int)
    requires
        representable(trunc_div(a, ONE as int)),
    ensures
        -9_223_372_036_854_775_809_000_000 < a < 9_223_372_036_854_775_808_000_000,
{
    let m = magnitude_of(a);
    assert(m == (m / 1_000_000) * 1_000_000 + m % 1_000_000);
}

/// A square is not negative.
pub proof fn lemma_square_nonnegative(a: int)
    ensures
        a * a >= 0,
{
    assert(a * a >= 0) by (nonlinear_arith);
}

/// The product of two bounded integers is bounded by the product of the
/// bounds.
pub proof fn lemma_product_magnitude(a: int, b: int, ma: int, mb: int)
    requires
        -ma <= a <= ma,
        -mb <= b <= mb,
    ensures
        -(ma * mb) <= a * b <= ma * mb,
{
    assert(-(ma * mb) <= a * b <= ma * mb) by (nonlinear_arith)
        requires
            -ma <= a <= ma,
            -mb <= b <= mb,
    ;
}

/// Rounding toward zero brings a quotient by `ONE` no further from zero
/// than the exact quotient.
pub proof fn lemma_scaled_magnitude(a: int, m: int)
    requires
        -(m * ONE) <= a <= m * ONE,
    ensures
        -m <= trunc_div(a, ONE as int) <= m,
{
    let k = magnitude_of(a);
    assert(k == (k / 1_000_000) * 1_000_000 + k % 1_000_000);
    assert(m * ONE == m * 1_000_000);
}

} // verus!
