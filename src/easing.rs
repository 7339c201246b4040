use vstd::prelude::*;
use crate::geometry::{COORD_LIMIT, lemma_div_bounded, within};

verus! {

/// A fraction `num / den` of the remaining distance covered in one frame.
#[derive(Clone, Copy, Debug, PartialEq, Eq, Structural)]
pub struct Rate {
    pub num: i64,
    pub den: i64,
}

/// The largest denominator of a rate.
pub const RATE_DEN_LIMIT: i64 = 100;

pub open spec fn rate_ok(r: Rate) -> bool {
    0 < r.num <= r.den <= RATE_DEN_LIMIT
}

/// One frame of movement over a distance `d`: the fraction of `d`, rounded
/// away from zero so that every frame makes progress.
pub open spec fn ease_step(d: int, num: int, den: int) -> int {
    if d >= 0 {
        (d * num + den - 1) / den
    } else {
        -((-d * num + den - 1) / den)
    }
}

/// Where a value at `a` heading for `b` stands after one frame.
pub open spec fn eased(a: int, b: int, r: Rate) -> int {
    a + ease_step(b - a, r.num as int, r.den as int)
}

proof fn lemma_step_positive(d: int, num: int, den: int)
    requires
        d > 0,
        0 < num <= den,
    ensures
        1 <= ease_step(d, num, den) <= d,
{
    let x = d * num + den - 1;
    let q = x / den;
    lemma_div_bounded(x, den);
    assert(d * num >= 1) by (nonlinear_arith)
        requires
            d > 0,
            num > 0,
    {}
    assert(d * num <= d * den) by (nonlinear_arith)
        requires
            d > 0,
            num <= den,
    {}
    assert(q >= 1) by (nonlinear_arith)
        requires
            x < q * den + den,
            x >= den,
            den > 0,
    {}
    assert(q <= d) by (nonlinear_arith)
        requires
            q * den <= x,
            x < d * den + den,
            den > 0,
    {}
}

/// One frame never overshoots the goal, and it always gets strictly closer
/// unless it is already there.
pub proof fn lemma_ease_progress(a: int, b: int, r: Rate)
    requires
        rate_ok(r),
    ensures
        a <= b ==> a <= eased(a, b, r) <= b,
        b <= a ==> b <= eased(a, b, r) <= a,
        a != b ==> eased(a, b, r) != a,
        a == b ==> eased(a, b, r) == b,
{
    if a < b {
        lemma_step_positive(b - a, r.num as int, r.den as int);
    } else if b < a {
        lemma_step_positive(a - b, r.num as int, r.den as int);
    } else {
        assert(0 * r.num == 0);
        vstd::arithmetic::div_mod::lemma_fundamental_div_mod_converse(
            r.den - 1,
            r.den as int,
            0,
            r.den - 1,
        );
    }
}

/// Moves `a` towards `b` by the fraction `r` of the gap, rounded away from
/// zero, never past `b`.
pub fn ease(a: i64, b: i64, r: Rate) -> (out: i64)
    requires
        rate_ok(r),
        within(a as int, COORD_LIMIT as int),
        within(b as int, COORD_LIMIT as int),
    ensures
        out as int == eased(a as int, b as int, r),
{
    proof {
        lemma_ease_progress(a as int, b as int, r);
    }
    let d = b - a;
    if d >= 0 {
        proof {
            assert(d * r.num <= d * RATE_DEN_LIMIT) by (nonlinear_arith)
                requires
                    0 <= d,
                    r.num <= RATE_DEN_LIMIT,
            {}
        }
        a + (d * r.num + r.den - 1) / r.den
    } else {
        let e = a - b;
        proof {
            assert(e * r.num <= e * RATE_DEN_LIMIT) by (nonlinear_arith)
                requires
                    0 <= e,
                    r.num <= RATE_DEN_LIMIT,
            {}
        }
        a - (e * r.num + r.den - 1) / r.den
    }
}

} // verus!
