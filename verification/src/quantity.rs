//! Real quantities.
//!
//! A quantity is a fixed-point number in millionths, or one of the three
//! non-finite values of binary floating point. Comparisons follow IEEE 754:
//! any comparison with NaN is false, and the infinities order below and
//! above every finite value.

use vstd::prelude::*;

verus! {

/// A real quantity: `Finite(m)` stands for `m / 1_000_000`.
#[derive(Debug, Clone, Copy)]
pub enum Real {
    Finite(i64),
    PosInf,
    NegInf,
    NaN,
}

/// One unit (1.0) in millionths.
pub const UNIT: i64 = 1_000_000;

/// Quantities as exact mathematical values, for specifications.
pub enum ExtReal {
    Fin(int),
    PInf,
    NInf,
    NotANumber,
}

pub open spec fn ext(r: Real) -> ExtReal {
    match r {
        Real::Finite(m) => ExtReal::Fin(m as int),
        Real::PosInf => ExtReal::PInf,
        Real::NegInf => ExtReal::NInf,
        Real::NaN => ExtReal::NotANumber,
    }
}

/// A finite value, from millionths.
pub open spec fn fin(m: int) -> ExtReal {
    ExtReal::Fin(m)
}

pub open spec fn is_finite(r: Real) -> bool {
    r is Finite
}

/// `a < b`.
pub open spec fn ext_lt(a: ExtReal, b: ExtReal) -> bool {
    match (a, b) {
        (ExtReal::NotANumber, _) => false,
        (_, ExtReal::NotANumber) => false,
        (ExtReal::NInf, ExtReal::NInf) => false,
        (ExtReal::NInf, _) => true,
        (_, ExtReal::NInf) => false,
        (ExtReal::PInf, _) => false,
        (ExtReal::Fin(_), ExtReal::PInf) => true,
        (ExtReal::Fin(x), ExtReal::Fin(y)) => x < y,
    }
}

/// `a <= b`.
pub open spec fn ext_le(a: ExtReal, b: ExtReal) -> bool {
    match (a, b) {
        (ExtReal::NotANumber, _) => false,
        (_, ExtReal::NotANumber) => false,
        (ExtReal::NInf, _) => true,
        (_, ExtReal::PInf) => true,
        (ExtReal::PInf, _) => false,
        (_, ExtReal::NInf) => false,
        (ExtReal::Fin(x), ExtReal::Fin(y)) => x <= y,
    }
}

/// `a + b`.
pub open spec fn ext_add(a: ExtReal, b: ExtReal) -> ExtReal {
    match (a, b) {
        (ExtReal::NotANumber, _) => ExtReal::NotANumber,
        (_, ExtReal::NotANumber) => ExtReal::NotANumber,
        (ExtReal::PInf, ExtReal::NInf) => ExtReal::NotANumber,
        (ExtReal::NInf, ExtReal::PInf) => ExtReal::NotANumber,
        (ExtReal::PInf, _) => ExtReal::PInf,
        (_, ExtReal::PInf) => ExtReal::PInf,
        (ExtReal::NInf, _) => ExtReal::NInf,
        (_, ExtReal::NInf) => ExtReal::NInf,
        (ExtReal::Fin(x), ExtReal::Fin(y)) => ExtReal::Fin(x + y),
    }
}

/// `a < b`.
pub open spec fn lt(a: Real, b: Real) -> bool {
    ext_lt(ext(a), ext(b))
}

/// `a <= b`.
pub open spec fn le(a: Real, b: Real) -> bool {
    ext_le(ext(a), ext(b))
}

/// `0.0 <= r && r <= 1.0`.
pub open spec fn in_unit_range(r: Real) -> bool {
    le(Real::Finite(0), r) && le(r, Real::Finite(UNIT))
}

/// `r.is_finite()`.
pub fn finite(r: Real) -> (b: bool)
    ensures
        b == is_finite(r),
{
    match r {
        Real::Finite(_) => true,
        _ => false,
    }
}

/// `a < b`.
pub fn real_lt(a: Real, b: Real) -> (r: bool)
    ensures
        r == lt(a, b),
{
    match (a, b) {
        (Real::NaN, _) => false,
        (_, Real::NaN) => false,
        (Real::NegInf, Real::NegInf) => false,
        (Real::NegInf, _) => true,
        (_, Real::NegInf) => false,
        (Real::PosInf, _) => false,
        (Real::Finite(_), Real::PosInf) => true,
        (Real::Finite(x), Real::Finite(y)) => x < y,
    }
}

/// `a <= b`.
pub fn real_le(a: Real, b: Real) -> (r: bool)
    ensures
        r == le(a, b),
{
    match (a, b) {
        (Real::NaN, _) => false,
        (_, Real::NaN) => false,
        (Real::NegInf, _) => true,
        (_, Real::PosInf) => true,
        (Real::PosInf, _) => false,
        (_, Real::NegInf) => false,
        (Real::Finite(x), Real::Finite(y)) => x <= y,
    }
}

/// `(0.0..=1.0).contains(&r)`.
pub fn unit_range_contains(r: Real) -> (b: bool)
    ensures
        b == in_unit_range(r),
{
    real_le(Real::Finite(0), r) && real_le(r, Real::Finite(UNIT))
}

/// `a + b < c` with the sum computed exactly.
pub fn sum_lt(a: Real, b: Real, c: Real) -> (r: bool)
    ensures
        r == ext_lt(ext_add(ext(a), ext(b)), ext(c)),
{
    match (a, b) {
        (Real::Finite(x), Real::Finite(y)) => {
            let s = (x as i128) + (y as i128);
            match c {
                Real::Finite(z) => s < (z as i128),
                Real::PosInf => true,
                Real::NegInf => false,
                Real::NaN => false,
            }
        },
        (Real::NaN, _) | (_, Real::NaN) => false,
        (Real::PosInf, Real::NegInf) | (Real::NegInf, Real::PosInf) => false,
        (Real::PosInf, _) | (_, Real::PosInf) => false,
        (Real::NegInf, _) | (_, Real::NegInf) => match c {
            Real::NegInf => false,
            Real::NaN => false,
            _ => true,
        },
    }
}

/// `c < a + b` with the sum computed exactly.
pub fn lt_sum(c: Real, a: Real, b: Real) -> (r: bool)
    ensures
        r == ext_lt(ext(c), ext_add(ext(a), ext(b))),
{
    match (a, b) {
        (Real::Finite(x), Real::Finite(y)) => {
            let s = (x as i128) + (y as i128);
            match c {
                Real::Finite(z) => (z as i128) < s,
                Real::PosInf => false,
                Real::NegInf => true,
                Real::NaN => false,
            }
        },
        (Real::NaN, _) | (_, Real::NaN) => false,
        (Real::PosInf, Real::NegInf) | (Real::NegInf, Real::PosInf) => false,
        (Real::PosInf, _) | (_, Real::PosInf) => match c {
            Real::PosInf => false,
            Real::NaN => false,
            _ => true,
        },
        (Real::NegInf, _) | (_, Real::NegInf) => false,
    }
}

} // verus!
