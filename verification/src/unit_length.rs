//! Why a normalised vector has unit length, and why it does not depend on
//! how long the vector was.

use crate::fixed::{
    fx_mul, is_floor_sqrt, lemma_floor_sqrt_exists, lemma_square_nonnegative, magnitude_of,
    round_div, ONE,
};
use crate::vector3::{lemma_norm_sq_positive, Triple};
use vstd::prelude::*;

verus! {

/// The components of a normalised vector are at most `ONE` in magnitude,
/// and the fine length of a non-zero vector is at least `ONE`.
pub proof fn lemma_unit_components(t: Triple)
    requires
        !t.is_zero(),
    ensures
        t.fine_length() >= ONE,
        is_floor_sqrt(t.norm_sq() * ONE * ONE, t.fine_length()),
        -ONE <= t.unit().x <= ONE,
        -ONE <= t.unit().y <= ONE,
        -ONE <= t.unit().z <= ONE,
{
    let q = t.norm_sq();
    let m = t.fine_length();
    lemma_norm_sq_positive(t);
    lemma_floor_sqrt_exists(q * ONE * ONE);
    lemma_square_nonnegative(t.x);
    lemma_square_nonnegative(t.y);
    lemma_square_nonnegative(t.z);
    assert(m >= 1_000_000) by (nonlinear_arith)
        requires
            m >= 0,
            (m + 1) * (m + 1) > q * 1_000_000 * 1_000_000,
            q >= 1,
    ;
    lemma_unit_component(t.x, q, m);
    lemma_unit_component(t.y, q, m);
    lemma_unit_component(t.z, q, m);
}

/// One component `c` of a vector of squared norm `q` and fine length `m`,
/// divided by that length, is at most `ONE` in magnitude.
proof fn lemma_unit_component(c: int, q: int, m: int)
    requires
        c * c <= q,
        m >= 1,
        (m + 1) * (m + 1) > q * ONE * ONE,
    ensures
        -ONE <= round_div(c * ONE * ONE, m) <= ONE,
{
    let a = magnitude_of(c);
    assert(a * a == c * c) by (nonlinear_arith)
        requires
            a == c || a == -c,
    ;
    assert(a * 1_000_000 <= m) by (nonlinear_arith)
        requires
            a >= 0,
            m >= 1,
            a * a <= q,
            (m + 1) * (m + 1) > q * 1_000_000 * 1_000_000,
    ;
    let n = a * 1_000_000_000_000;
    assert(magnitude_of(c * ONE * ONE) == n);
    let e = (2 * n + m) / (2 * m);
    assert(0 <= e <= 1_000_000) by (nonlinear_arith)
        requires
            a >= 0,
            m >= 1,
            a * 1_000_000 <= m,
            n == a * 1_000_000_000_000,
            e == (2 * n + m) / (2 * m),
    ;
}

/// Each component of a vector of unit length is at most `ONE + 1` in
/// magnitude, and so within the coordinate range.
pub proof fn lemma_unit_in_range(t: Triple)
    requires
        t.is_unit(),
    ensures
        -ONE - 1 <= t.x <= ONE + 1,
        -ONE - 1 <= t.y <= ONE + 1,
        -ONE - 1 <= t.z <= ONE + 1,
        999_999 * 999_999 <= t.norm_sq() < 1_000_002 * 1_000_002,
        t.in_range(),
{
    let q = t.norm_sq();
    lemma_square_nonnegative(t.x);
    lemma_square_nonnegative(t.y);
    lemma_square_nonnegative(t.z);
    lemma_floor_sqrt_exists(q);
    let r = t.length();
    assert(999_999 * 999_999 <= q < 1_000_002 * 1_000_002) by (nonlinear_arith)
        requires
            999_999 <= r <= 1_000_001,
            r * r <= q < (r + 1) * (r + 1),
    ;
    lemma_square_bound(t.x);
    lemma_square_bound(t.y);
    lemma_square_bound(t.z);
}

/// An integer whose square is under `(ONE + 2)^2` is at most `ONE + 1` in
/// magnitude.
proof fn lemma_square_bound(c: int)
    requires
        c * c < 1_000_002 * 1_000_002,
    ensures
        -ONE - 1 <= c <= ONE + 1,
{
    assert(-1_000_001 <= c <= 1_000_001) by (nonlinear_arith)
        requires
            c * c < 1_000_002 * 1_000_002,
    ;
}

/// What is known of the magnitude `e` of one component of a normalised
/// vector and of `f`, which is `2e - 1` or zero where `e` is zero: where `c`
/// is the component before and `m` the fine length, `f * m` is at most
/// twice the magnitude of `c * ONE * ONE`, which is less than
/// `(2e + 1) * m`.
spec fn squeezed(c: int, m: int, e: int, f: int) -> bool {
    &&& e == magnitude_of(round_div(c * ONE * ONE, m))
    &&& e >= 0
    &&& f >= 0
    &&& e * e == round_div(c * ONE * ONE, m) * round_div(c * ONE * ONE, m)
    &&& 4 * (e * e) <= f * f + 2 * f + 1
    &&& (f * f) * (m * m) <= 4 * ((c * c) * 1_000_000_000_000_000_000_000_000)
    &&& ((2 * e + 1) * (2 * e + 1)) * (m * m) >= 4 * ((c * c)
        * 1_000_000_000_000_000_000_000_000)
}

/// How far one component of a normalised vector is from the exact quotient.
proof fn lemma_component_squeeze(c: int, m: int) -> (r: (int, int))
    requires
        m >= 1,
    ensures
        squeezed(c, m, r.0, r.1),
{
    let a = magnitude_of(c);
    let n = a * 1_000_000_000_000;
    let e = (2 * n + m) / (2 * m);
    let d = round_div(c * ONE * ONE, m);
    assert(c >= 0 ==> 2 * (c * ONE * ONE) + m == 2 * n + m);
    assert(c < 0 ==> m - 2 * (c * ONE * ONE) == 2 * n + m);
    assert(e >= 0 && e * (2 * m) <= 2 * n + m < (e + 1) * (2 * m)) by (nonlinear_arith)
        requires
            n >= 0,
            m >= 1,
            e == (2 * n + m) / (2 * m),
    ;
    assert(d == e || d == -e);
    assert(e * e == d * d) by (nonlinear_arith)
        requires
            d == e || d == -e,
    ;
    let f = if e == 0 {
        0
    } else {
        2 * e - 1
    };
    assert(0 <= f * m <= 2 * n < (2 * e + 1) * m) by (nonlinear_arith)
        requires
            e * (2 * m) <= 2 * n + m < (e + 1) * (2 * m),
            f == 0 || f == 2 * e - 1,
            f >= 0,
            n >= 0,
            m >= 1,
    ;
    assert((f * f) * (m * m) <= 4 * (n * n)) by (nonlinear_arith)
        requires
            0 <= f * m <= 2 * n,
    ;
    assert(((2 * e + 1) * (2 * e + 1)) * (m * m) >= 4 * (n * n)) by (nonlinear_arith)
        requires
            0 <= 2 * n < (2 * e + 1) * m,
    ;
    assert(n * n == (c * c) * 1_000_000_000_000_000_000_000_000) by (nonlinear_arith)
        requires
            n == a * 1_000_000_000_000,
            a == c || a == -c,
    ;
    assert(4 * (e * e) <= f * f + 2 * f + 1) by (nonlinear_arith)
        requires
            e >= 0,
            f == 0 && e == 0 || f == 2 * e - 1,
    ;
    (e, f)
}

/// A non-zero vector, normalised, has length one to within one step: its
/// length, rounded down, is `ONE - 1`, `ONE` or `ONE + 1`.
pub proof fn lemma_unit_length(t: Triple)
    requires
        !t.is_zero(),
    ensures
        t.unit().is_unit(),
        999_999 * 999_999 <= t.unit().norm_sq() < 1_000_002 * 1_000_002,
{
    let q = t.norm_sq();
    let m = t.fine_length();
    let u = t.unit();
    lemma_unit_components(t);
    let (ex, fx) = lemma_component_squeeze(t.x, m);
    let (ey, fy) = lemma_component_squeeze(t.y, m);
    let (ez, fz) = lemma_component_squeeze(t.z, m);
    let n2 = u.norm_sq();
    let k2 = 1_000_000_000_000_000_000_000_000int;
    assert(n2 == ex * ex + ey * ey + ez * ez);
    let mm = m * m;
    assert(mm >= 1_000_000_000_000) by (nonlinear_arith)
        requires
            mm == m * m,
            m >= 1_000_000,
    ;
    let qk = q * 1_000_000_000_000;
    assert(qk == q * ONE * ONE);
    assert(mm <= qk < (m + 1) * (m + 1));
    assert(q * k2 == qk * 1_000_000_000_000);
    // From above: the components less half a step each.
    let fq = fx * fx + fy * fy + fz * fz;
    assert(fq * mm <= 4 * (q * k2)) by (nonlinear_arith)
        requires
            fq == fx * fx + fy * fy + fz * fz,
            q == t.x * t.x + t.y * t.y + t.z * t.z,
            (fx * fx) * mm <= 4 * ((t.x * t.x) * k2),
            (fy * fy) * mm <= 4 * ((t.y * t.y) * k2),
            (fz * fz) * mm <= 4 * ((t.z * t.z) * k2),
    ;
    assert(fq < 2_000_002 * 2_000_002) by (nonlinear_arith)
        requires
            fq * mm <= 4 * (qk * 1_000_000_000_000),
            qk < (m + 1) * (m + 1),
            mm == m * m,
            m >= 1_000_000,
            fq >= 0,
    ;
    let g = fx + fy + fz;
    assert(g * g <= 3 * fq) by (nonlinear_arith)
        requires
            fq == fx * fx + fy * fy + fz * fz,
            g == fx + fy + fz,
    ;
    assert(g <= 3_464_105) by (nonlinear_arith)
        requires
            g * g <= 3 * fq,
            fq < 2_000_002 * 2_000_002,
            g >= 0,
    ;
    assert(4 * n2 <= fq + 2 * g + 3);
    assert(n2 < 1_000_002 * 1_000_002);
    // From below: the components plus half a step each.
    let w = (2 * ex + 1) * (2 * ex + 1) + (2 * ey + 1) * (2 * ey + 1) + (2 * ez + 1) * (2 * ez
        + 1);
    assert(w * mm >= 4 * (q * k2)) by (nonlinear_arith)
        requires
            w == (2 * ex + 1) * (2 * ex + 1) + (2 * ey + 1) * (2 * ey + 1) + (2 * ez + 1) * (2
                * ez + 1),
            q == t.x * t.x + t.y * t.y + t.z * t.z,
            ((2 * ex + 1) * (2 * ex + 1)) * mm >= 4 * ((t.x * t.x) * k2),
            ((2 * ey + 1) * (2 * ey + 1)) * mm >= 4 * ((t.y * t.y) * k2),
            ((2 * ez + 1) * (2 * ez + 1)) * mm >= 4 * ((t.z * t.z) * k2),
    ;
    assert(w >= 4_000_000_000_000) by (nonlinear_arith)
        requires
            w * mm >= 4 * (qk * 1_000_000_000_000),
            qk >= mm,
            mm >= 1,
    ;
    let a = ex + ey + ez;
    assert(w == 4 * n2 + 4 * a + 3) by (nonlinear_arith)
        requires
            w == (2 * ex + 1) * (2 * ex + 1) + (2 * ey + 1) * (2 * ey + 1) + (2 * ez + 1) * (2
                * ez + 1),
            n2 == ex * ex + ey * ey + ez * ez,
            a == ex + ey + ez,
    ;
    assert(a * a <= 3 * n2) by (nonlinear_arith)
        requires
            n2 == ex * ex + ey * ey + ez * ez,
            a == ex + ey + ez,
    ;
    if n2 < 999_999 * 999_999 {
        assert(a <= 1_732_049) by (nonlinear_arith)
            requires
                a * a <= 3 * n2,
                n2 < 999_999 * 999_999,
                a >= 0,
        ;
        assert(false);
    }
    lemma_floor_sqrt_exists(n2);
    let r = u.length();
    assert(r <= 1_000_001) by (nonlinear_arith)
        requires
            r >= 0,
            r * r <= n2,
            n2 < 1_000_002 * 1_000_002,
    ;
    assert(r >= 999_999) by (nonlinear_arith)
        requires
            r >= 0,
            (r + 1) * (r + 1) > n2,
            n2 >= 999_999 * 999_999,
    ;
}

/// Whether the scalar `w` is `v` or the scalar one step nearer to zero.
pub open spec fn same_or_one_nearer_zero(v: int, w: int) -> bool {
    &&& (v >= 0 ==> v - 1 <= w <= v)
    &&& (v <= 0 ==> v <= w <= v + 1)
    &&& (v == 0 ==> w == 0)
}

/// A whole multiple of a vector is that vector stretched by a whole scalar.
pub proof fn lemma_multiple_is_scaled(t: Triple, k: int)
    ensures
        t.scaled(k * ONE) == t.multiple(k),
{
    lemma_whole_product(t.x, k);
    lemma_whole_product(t.y, k);
    lemma_whole_product(t.z, k);
}

/// The product of a scalar and a whole scalar is exact.
proof fn lemma_whole_product(c: int, k: int)
    ensures
        fx_mul(c, k * ONE) == k * c,
{
    let p = k * c;
    assert(c * (k * 1_000_000) == p * 1_000_000) by (nonlinear_arith)
        requires
            p == k * c,
    ;
}

/// Normalising does not depend on the length: a whole multiple of a vector
/// has the same normalised vector, to within one step in each component,
/// and a negative multiple has the opposite one. Each component of the
/// multiple's is that of the vector's, or one step nearer to zero.
pub proof fn lemma_unit_of_multiple(t: Triple, k: int)
    requires
        !t.is_zero(),
        k != 0,
    ensures
        !t.multiple(k).is_zero(),
        k > 0 ==> {
            &&& same_or_one_nearer_zero(t.unit().x, t.multiple(k).unit().x)
            &&& same_or_one_nearer_zero(t.unit().y, t.multiple(k).unit().y)
            &&& same_or_one_nearer_zero(t.unit().z, t.multiple(k).unit().z)
        },
        k < 0 ==> {
            &&& same_or_one_nearer_zero(-t.unit().x, t.multiple(k).unit().x)
            &&& same_or_one_nearer_zero(-t.unit().y, t.multiple(k).unit().y)
            &&& same_or_one_nearer_zero(-t.unit().z, t.multiple(k).unit().z)
        },
{
    let h = magnitude_of(k);
    let s = t.multiple(k);
    let q = t.norm_sq();
    let m = t.fine_length();
    let m2 = s.fine_length();
    lemma_norm_sq_positive(t);
    lemma_norm_sq_positive(s);
    lemma_unit_components(t);
    let hh = h * h;
    lemma_multiple_square(t.x, k);
    lemma_multiple_square(t.y, k);
    lemma_multiple_square(t.z, k);
    let (xx, yy, zz) = (t.x * t.x, t.y * t.y, t.z * t.z);
    assert(hh * (xx + yy + zz) == hh * xx + hh * yy + hh * zz) by (nonlinear_arith);
    assert(s.norm_sq() == (h * h) * q);
    assert((h * h) * q >= 1) by (nonlinear_arith)
        requires
            h >= 1,
            q >= 1,
    ;
    lemma_unit_components(s);
    // The fine length of the multiple lies between the multiple of the fine
    // length and that of the next integer.
    let qk = q * 1_000_000_000_000;
    assert(qk == q * ONE * ONE);
    assert(s.norm_sq() * ONE * ONE == (h * h) * qk) by (nonlinear_arith)
        requires
            s.norm_sq() == (h * h) * q,
            qk == q * 1_000_000_000_000,
    ;
    assert(h * m <= m2 < h * m + h) by (nonlinear_arith)
        requires
            h >= 1,
            m >= 0,
            m2 >= 0,
            m * m <= qk < (m + 1) * (m + 1),
            m2 * m2 <= (h * h) * qk < (m2 + 1) * (m2 + 1),
    ;
    lemma_square_nonnegative(t.x);
    lemma_square_nonnegative(t.y);
    lemma_square_nonnegative(t.z);
    lemma_multiple_component(t.x, k, m, m2);
    lemma_multiple_component(t.y, k, m, m2);
    lemma_multiple_component(t.z, k, m, m2);
}

/// The square of a multiple is the square of the factor times the square
/// of what was multiplied.
proof fn lemma_multiple_square(c: int, k: int)
    ensures
        (k * c) * (k * c) == (magnitude_of(k) * magnitude_of(k)) * (c * c),
{
    let h = magnitude_of(k);
    assert((k * c) * (k * c) == (h * h) * (c * c)) by (nonlinear_arith)
        requires
            h == k || h == -k,
    ;
}

/// One component `c` of a vector of fine length `m`, and the same
/// component of the vector taken `k` times over, of fine length `m2`.
proof fn lemma_multiple_component(c: int, k: int, m: int, m2: int)
    requires
        k != 0,
        m >= ONE,
        -ONE <= round_div(c * ONE * ONE, m) <= ONE,
        magnitude_of(k) * m <= m2 < magnitude_of(k) * m + magnitude_of(k),
    ensures
        k > 0 ==> same_or_one_nearer_zero(
            round_div(c * ONE * ONE, m),
            round_div((k * c) * ONE * ONE, m2),
        ),
        k < 0 ==> same_or_one_nearer_zero(
            -round_div(c * ONE * ONE, m),
            round_div((k * c) * ONE * ONE, m2),
        ),
{
    let h = magnitude_of(k);
    let a = magnitude_of(c);
    let n = a * 1_000_000_000_000;
    let n2 = h * n;
    let e = (2 * n + m) / (2 * m);
    let e2 = (2 * n2 + m2) / (2 * m2);
    assert(m2 >= 1) by (nonlinear_arith)
        requires
            h >= 1,
            m >= 1,
            h * m <= m2,
    ;
    let v = round_div(c * ONE * ONE, m);
    let w = round_div((k * c) * ONE * ONE, m2);
    assert(n2 >= 0 && magnitude_of(k * c) == h * a && n2 == (h * a) * 1_000_000_000_000)
        by (nonlinear_arith)
        requires
            h >= 1,
            a >= 0,
            h == k || h == -k,
            a == c || a == -c,
            n == a * 1_000_000_000_000,
            n2 == h * n,
    ;
    assert(magnitude_of(v) == e);
    assert(magnitude_of(w) == e2);
    assert(e >= 0 && e * (2 * m) <= 2 * n + m < (e + 1) * (2 * m)) by (nonlinear_arith)
        requires
            n >= 0,
            m >= 1,
            e == (2 * n + m) / (2 * m),
    ;
    assert(e2 >= 0 && e2 * (2 * m2) <= 2 * n2 + m2 < (e2 + 1) * (2 * m2)) by (nonlinear_arith)
        requires
            n2 >= 0,
            m2 >= 1,
            e2 == (2 * n2 + m2) / (2 * m2),
    ;
    assert((2 * e - 1) * m <= 2 * n < (2 * e + 1) * m) by (nonlinear_arith)
        requires
            e * (2 * m) <= 2 * n + m < (e + 1) * (2 * m),
    ;
    assert((2 * e2 - 1) * m2 <= 2 * n2 < (2 * e2 + 1) * m2) by (nonlinear_arith)
        requires
            e2 * (2 * m2) <= 2 * n2 + m2 < (e2 + 1) * (2 * m2),
    ;
    // The multiple's component is no larger.
    if e2 >= e + 1 {
        assert((2 * e + 1) * (h * m) <= (2 * e2 - 1) * m2) by (nonlinear_arith)
            requires
                0 <= 2 * e + 1 <= 2 * e2 - 1,
                0 <= h * m <= m2,
        ;
        assert((2 * e + 1) * (h * m) == h * ((2 * e + 1) * m)) by (nonlinear_arith);
        assert(h * ((2 * e + 1) * m) > h * (2 * n)) by (nonlinear_arith)
            requires
                h >= 1,
                (2 * e + 1) * m > 2 * n,
        ;
        assert(h * (2 * n) == 2 * n2) by (nonlinear_arith)
            requires
                n2 == h * n,
        ;
        assert(false);
    }
    // Nor smaller by two steps or more.
    if e2 + 2 <= e {
        assert((2 * e2 + 1) * m2 <= (2 * e - 3) * (h * m + h - 1)) by (nonlinear_arith)
            requires
                0 <= 2 * e2 + 1 <= 2 * e - 3,
                0 <= m2 <= h * m + h - 1,
        ;
        assert((2 * e - 3) * (h * m + h - 1) < h * ((2 * e - 3) * (m + 1))) by (nonlinear_arith)
            requires
                2 * e - 3 >= 1,
                h >= 1,
        ;
        assert(h * (2 * n) == 2 * n2) by (nonlinear_arith)
            requires
                n2 == h * n,
        ;
        assert(2 * n < (2 * e - 3) * (m + 1)) by (nonlinear_arith)
            requires
                h >= 1,
                h * (2 * n) < h * ((2 * e - 3) * (m + 1)),
        ;
        assert((2 * e - 3) * (m + 1) == (2 * e - 1) * m - 2 * m + 2 * e - 3) by (nonlinear_arith);
        assert(false);
    }
    assert(n == 0 ==> e == 0) by (nonlinear_arith)
        requires
            e >= 0,
            m >= 1,
            e * (2 * m) <= 2 * n + m,
    ;
    assert(c == 0 ==> k * c == 0) by (nonlinear_arith);
    assert((k * c < 0) == ((k < 0) != (c < 0)) || c == 0) by (nonlinear_arith)
        requires
            k != 0,
    ;
}

} // verus!
