//! Fixed-point scalar arithmetic.
//!
//! Every coordinate, angle and time in this library is an `i64` number of
//! fixed-point units, with `ONE` units to the unit quantity (one world unit,
//! one radian, one second).  An extent equal to `INF` stands for an unbounded
//! ("infinite") half-width; finite coordinates are kept far below it, so sums
//! and differences of valid values never overflow.

use vstd::prelude::*;
use vstd::arithmetic::div_mod::{
    lemma_fundamental_div_mod, lemma_fundamental_div_mod_converse_div,
};

verus! {

/// Number of fixed-point units in 1.0 (one world unit, radian or second).
pub const ONE: i64 = 65536;

/// Sentinel extent standing for an unbounded half-width.
pub const INF: i64 = 0x4000_0000_0000_0000;

/// Largest magnitude a finite coordinate may have.
pub const MAX_COORD: i64 = 0x100_0000_0000;

/// Largest corner magnitude of a bounded box; finite boxes built from
/// coordinates in range stay well inside it.
pub const MAX_SPAN: i64 = 0x2000_0000_0000;

/// Headroom for intermediate corner arithmetic: box operations accept corners
/// up to this magnitude without overflowing.
pub const WIDE_ROOM: i64 = 0x2000_0000_0000_0000;

/// Largest number of boxes one merge call folds; far more than memory holds,
/// and small enough that the folded corners keep arithmetic headroom.
pub const MAX_MERGE_LEN: u64 = 0x10_0000_0000_0000;

/// Tolerance, in units, of the "almost equal" comparisons.
pub const EPSILON: i64 = 16;

/// A scalar that may stand for a finite coordinate.
pub open spec fn in_coord_range(v: int) -> bool {
    -MAX_COORD <= v <= MAX_COORD
}

/// Two scalars are almost equal when they differ by at most `EPSILON` units.
pub open spec fn spec_almost_eq(a: int, b: int) -> bool {
    -EPSILON <= a - b <= EPSILON
}

/// Tolerance comparison of two scalars.
pub fn almost_eq(a: i64, b: i64) -> (r: bool)
    ensures
        r == spec_almost_eq(a as int, b as int),
{
    let d: i128 = a as i128 - b as i128;
    -(EPSILON as i128) <= d && d <= EPSILON as i128
}

/// The smaller of two scalars.
pub fn min2(a: i64, b: i64) -> (r: i64)
    ensures
        r == if a <= b { a as int } else { b as int },
{
    if a <= b { a } else { b }
}

/// The larger of two scalars.
pub fn max2(a: i64, b: i64) -> (r: i64)
    ensures
        r == if a >= b { a as int } else { b as int },
{
    if a >= b { a } else { b }
}

/// Floor of `s / 2`.
pub fn div2_floor(s: i64) -> (r: i64)
    requires
        i64::MIN < s,
    ensures
        r == s as int / 2,
{
    if s >= 0 {
        let q = s / 2;
        proof {
            lemma_fundamental_div_mod(s as int, 2);
        }
        q
    } else {
        let m = -s;
        let h = m / 2;
        let r0 = m % 2;
        proof {
            lemma_fundamental_div_mod(m as int, 2);
            lemma_fundamental_div_mod_converse_div(
                s as int,
                2,
                -(h as int) - r0 as int,
                r0 as int,
            );
        }
        -h - r0
    }
}

/// Ceiling of `d / 2`, for non-negative `d`.
pub fn div2_ceil(d: i64) -> (r: i64)
    requires
        0 <= d < i64::MAX,
    ensures
        r == (d + 1) as int / 2,
        d as int / 2 <= r <= d as int / 2 + 1,
        2 * r >= d,
{
    let q = (d + 1) / 2;
    proof {
        lemma_fundamental_div_mod(d as int + 1, 2);
        lemma_fundamental_div_mod(d as int, 2);
    }
    q
}

/// Floor of `a / b`, for positive `b`.
pub fn div_floor(a: i64, b: i64) -> (r: i64)
    requires
        i64::MIN < a,
        0 < b,
    ensures
        r == a as int / b as int,
        0 <= a ==> 0 <= r <= a,
        a < 0 ==> a <= r < 0,
{
    if a >= 0 {
        let q = a / b;
        proof {
            lemma_fundamental_div_mod(a as int, b as int);
            assert(0 <= q as int && q as int <= a as int) by (nonlinear_arith)
                requires
                    a as int == b as int * (a as int / b as int) + a as int % b as int,
                    q as int == a as int / b as int,
                    0 <= (a as int % b as int) && (a as int % b as int) < b as int,
                    0 < b as int,
                    0 <= a as int,
            ;
        }
        q
    } else {
        let m = -a;
        let q0 = m / b;
        let rem = m % b;
        if rem == 0 {
            proof {
                lemma_fundamental_div_mod(m as int, b as int);
                assert(a as int == (-(q0 as int)) * b as int + 0 && 1 <= q0 as int && q0 as int <= m as int)
                    by (nonlinear_arith)
                    requires
                        a as int == -(m as int),
                        m as int == b as int * (m as int / b as int) + m as int % b as int,
                        q0 as int == m as int / b as int,
                        m as int % b as int == 0,
                        0 < b as int,
                        0 < m as int,
                ;
                lemma_fundamental_div_mod_converse_div(a as int, b as int, -(q0 as int), 0);
            }
            -q0
        } else {
            proof {
                lemma_fundamental_div_mod(m as int, b as int);
                assert(a as int == (-(q0 as int) - 1) * b as int + (b as int - rem as int)
                    && 0 <= q0 as int && (q0 as int) < m as int) by (nonlinear_arith)
                    requires
                        a as int == -(m as int),
                        m as int == b as int * (m as int / b as int) + m as int % b as int,
                        q0 as int == m as int / b as int,
                        rem as int == m as int % b as int,
                        0 < rem as int && (rem as int) < b as int,
                        0 < b as int,
                        0 < m as int,
                ;
                lemma_fundamental_div_mod_converse_div(
                    a as int,
                    b as int,
                    -(q0 as int) - 1,
                    b as int - rem as int,
                );
            }
            -q0 - 1
        }
    }
}

/// Floor of `a / b` on wide intermediates, for positive `b`.
pub fn div_floor_wide(a: i128, b: i128) -> (r: i128)
    requires
        i128::MIN < a,
        0 < b,
    ensures
        r == a as int / b as int,
        0 <= a ==> 0 <= r <= a,
        a < 0 ==> a <= r < 0,
{
    if a >= 0 {
        let q = a / b;
        proof {
            lemma_fundamental_div_mod(a as int, b as int);
            assert(0 <= q as int && q as int <= a as int) by (nonlinear_arith)
                requires
                    a as int == b as int * (a as int / b as int) + a as int % b as int,
                    q as int == a as int / b as int,
                    0 <= (a as int % b as int) && (a as int % b as int) < b as int,
                    0 < b as int,
                    0 <= a as int,
            ;
        }
        q
    } else {
        let m = -a;
        let q0 = m / b;
        let rem = m % b;
        if rem == 0 {
            proof {
                lemma_fundamental_div_mod(m as int, b as int);
                assert(a as int == (-(q0 as int)) * b as int + 0 && 1 <= q0 as int && q0 as int
                    <= m as int) by (nonlinear_arith)
                    requires
                        a as int == -(m as int),
                        m as int == b as int * (m as int / b as int) + m as int % b as int,
                        q0 as int == m as int / b as int,
                        m as int % b as int == 0,
                        0 < b as int,
                        0 < m as int,
                ;
                lemma_fundamental_div_mod_converse_div(a as int, b as int, -(q0 as int), 0);
            }
            -q0
        } else {
            proof {
                lemma_fundamental_div_mod(m as int, b as int);
                assert(a as int == (-(q0 as int) - 1) * b as int + (b as int - rem as int) && 0
                    <= q0 as int && (q0 as int) < m as int) by (nonlinear_arith)
                    requires
                        a as int == -(m as int),
                        m as int == b as int * (m as int / b as int) + m as int % b as int,
                        q0 as int == m as int / b as int,
                        rem as int == m as int % b as int,
                        0 < rem as int && (rem as int) < b as int,
                        0 < b as int,
                        0 < m as int,
                ;
                lemma_fundamental_div_mod_converse_div(
                    a as int,
                    b as int,
                    -(q0 as int) - 1,
                    b as int - rem as int,
                );
            }
            -q0 - 1
        }
    }
}

} // verus!
