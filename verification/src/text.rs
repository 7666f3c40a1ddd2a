//! The decimal text of scalars, vectors and rays.

use crate::fixed::{magnitude_of, ONE};
use crate::ray::Ray;
use crate::vector3::{Triple, Vector3};
use vstd::prelude::*;
use vstd::string::StringExecFns;

verus! {

/// The character of a decimal digit.
pub open spec fn digit(d: int) -> char
    recommends
        0 <= d <= 9,
{
    if d == 0 {
        '0'
    } else if d == 1 {
        '1'
    } else if d == 2 {
        '2'
    } else if d == 3 {
        '3'
    } else if d == 4 {
        '4'
    } else if d == 5 {
        '5'
    } else if d == 6 {
        '6'
    } else if d == 7 {
        '7'
    } else if d == 8 {
        '8'
    } else {
        '9'
    }
}

/// The decimal digits of a natural number, without leading zeros.
pub open spec fn decimal(n: nat) -> Seq<char>
    decreases n,
{
    if n < 10 {
        seq![digit(n as int)]
    } else {
        decimal(n / 10).push(digit((n % 10) as int))
    }
}

/// The decimal digits of the fraction `f / (10 * place)`, without trailing
/// zeros: `place` is the weight of the first digit.
pub open spec fn fraction(f: nat, place: nat) -> Seq<char>
    decreases place,
{
    if f == 0 || place == 0 {
        Seq::empty()
    } else {
        seq![digit((f / place) as int)] + fraction(f % place, place / 10)
    }
}

/// The text of a scalar: a minus sign where it is negative, its whole part,
/// and, where it has a fractional part, a point and up to six digits.
pub open spec fn scalar_text(raw: int) -> Seq<char> {
    let m = magnitude_of(raw);
    let sign = if raw < 0 {
        seq!['-']
    } else {
        Seq::empty()
    };
    let whole = decimal((m / (ONE as int)) as nat);
    let part = if m % (ONE as int) == 0 {
        Seq::empty()
    } else {
        seq!['.'] + fraction((m % (ONE as int)) as nat, 100_000)
    };
    sign + whole + part
}

/// The text of a vector: `[x, y, z]`.
pub open spec fn vector_text(t: Triple) -> Seq<char> {
    seq!['['] + scalar_text(t.x) + seq![',', ' '] + scalar_text(t.y) + seq![',', ' ']
        + scalar_text(t.z) + seq![']']
}

/// The text of a ray: `origin + t * direction`.
pub open spec fn ray_text(origin: Triple, direction: Triple) -> Seq<char> {
    vector_text(origin) + seq![' ', '+', ' ', 't', ' ', '*', ' '] + vector_text(direction)
}

/// The text of one decimal digit.
fn digit_str(d: u64) -> (s: &'static str)
    requires
        d <= 9,
    ensures
        s@ == seq![digit(d as int)],
{
    proof {
        reveal_strlit("0");
        reveal_strlit("1");
        reveal_strlit("2");
        reveal_strlit("3");
        reveal_strlit("4");
        reveal_strlit("5");
        reveal_strlit("6");
        reveal_strlit("7");
        reveal_strlit("8");
        reveal_strlit("9");
    }
    let s: &'static str = if d == 0 {
        "0"
    } else if d == 1 {
        "1"
    } else if d == 2 {
        "2"
    } else if d == 3 {
        "3"
    } else if d == 4 {
        "4"
    } else if d == 5 {
        "5"
    } else if d == 6 {
        "6"
    } else if d == 7 {
        "7"
    } else if d == 8 {
        "8"
    } else {
        "9"
    };
    assert(s@ =~= seq![digit(d as int)]);
    s
}

/// Appends the decimal digits of `n`.
fn push_decimal(out: &mut String, n: u64)
    ensures
        final(out)@ == old(out)@ + decimal(n as nat),
    decreases n,
{
    if n >= 10 {
        push_decimal(out, n / 10);
    }
    out.append(digit_str(n % 10));
    assert(final(out)@ =~= old(out)@ + decimal(n as nat));
}

/// Appends the digits of the fraction `f / 1_000_000`.
fn push_fraction(out: &mut String, f: u64)
    requires
        f < 1_000_000,
    ensures
        final(out)@ == old(out)@ + fraction(f as nat, 100_000),
{
    let mut rest: u64 = f;
    let mut place: u64 = 100_000;
    let ghost start = out@;
    while rest != 0 && place != 0
        invariant
            rest < 10 * place || rest == 0,
            place == 100_000 || place == 10_000 || place == 1_000 || place == 100 || place == 10
                || place == 1 || place == 0,
            start + fraction(f as nat, 100_000) == out@ + fraction(rest as nat, place as nat),
        decreases place,
    {
        let ghost before = out@;
        out.append(digit_str(rest / place));
        assert(before + fraction(rest as nat, place as nat) =~= out@ + fraction(
            (rest % place) as nat,
            (place / 10) as nat,
        ));
        rest = rest % place;
        place = place / 10;
    }
    assert(fraction(rest as nat, place as nat) =~= Seq::<char>::empty());
    assert(out@ + Seq::<char>::empty() =~= out@);
}

/// Appends the text of a scalar.
fn push_scalar(out: &mut String, raw: i64)
    ensures
        final(out)@ == old(out)@ + scalar_text(raw as int),
{
    let m: u64 = if raw < 0 {
        (-(raw as i128)) as u64
    } else {
        raw as u64
    };
    proof {
        reveal_strlit("-");
        reveal_strlit(".");
    }
    if raw < 0 {
        out.append("-");
    }
    push_decimal(out, m / 1_000_000);
    if m % 1_000_000 != 0 {
        out.append(".");
        push_fraction(out, m % 1_000_000);
    }
    assert(final(out)@ =~= old(out)@ + scalar_text(raw as int));
}

/// Appends the text of a vector.
fn push_vector(out: &mut String, v: &Vector3)
    ensures
        final(out)@ == old(out)@ + vector_text(v@),
{
    proof {
        reveal_strlit("[");
        reveal_strlit(", ");
        reveal_strlit("]");
    }
    out.append("[");
    push_scalar(out, v.x);
    out.append(", ");
    push_scalar(out, v.y);
    out.append(", ");
    push_scalar(out, v.z);
    out.append("]");
    assert(final(out)@ =~= old(out)@ + vector_text(v@));
}

impl Vector3 {
    /// The text of the vector: `[x, y, z]`, each component in decimal.
    pub fn to_text(&self) -> (s: String)
        ensures
            s@ == vector_text(self@),
    {
        let mut out = String::new();
        push_vector(&mut out, self);
        assert(out@ =~= vector_text(self@));
        out
    }
}

impl Ray {
    /// The text of the ray: `origin + t * direction`.
    pub fn to_text(&self) -> (s: String)
        ensures
            s@ == ray_text(self.origin@, self.direction@),
    {
        proof {
            reveal_strlit(" + t * ");
        }
        let mut out = String::new();
        push_vector(&mut out, &self.origin);
        out.append(" + t * ");
        push_vector(&mut out, &self.direction);
        assert(out@ =~= ray_text(self.origin@, self.direction@));
        out
    }
}

} // verus!
