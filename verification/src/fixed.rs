//! Fixed-point arithmetic on thousandths.

use vstd::prelude::*;

verus! {

/// Number of sub-units in one whole unit of any quantity.
pub const SCALE: i64 = 1000;

/// `v` brought into the range of `i64`.
pub open spec fn saturate(v: int) -> i64 {
    if v < i64::MIN {
        i64::MIN
    } else if v > i64::MAX {
        i64::MAX
    } else {
        v as i64
    }
}

/// The quotient of `p` by `SCALE`, rounded toward zero.
pub open spec fn descale(p: int) -> int {
    if p >= 0 {
        p / (SCALE as int)
    } else {
        -((-p) / (SCALE as int))
    }
}

/// The product of two quantities in thousandths, itself in thousandths,
/// rounded toward zero.
pub open spec fn scaled_product(a: int, b: int) -> int {
    descale(a * b)
}

/// `v` limited to `lo..=hi`; where `hi < lo` the result is `lo`.
pub open spec fn clamp(v: int, lo: int, hi: int) -> int {
    let capped = if v > hi {
        hi
    } else {
        v
    };
    if capped < lo {
        lo
    } else {
        capped
    }
}

/// Half of `v`, rounded toward zero.
pub open spec fn half(v: int) -> int {
    if v >= 0 {
        v / 2
    } else {
        -((-v) / 2)
    }
}

/// Brings a wide intermediate result back into `i64`, saturating.
pub fn narrow(v: i128) -> (r: i64)
    ensures
        r == saturate(v as int),
{
    if v < i64::MIN as i128 {
        i64::MIN
    } else if v > i64::MAX as i128 {
        i64::MAX
    } else {
        v as i64
    }
}

/// `a + b`, saturating at the bounds of `i64`.
pub fn sum(a: i64, b: i64) -> (r: i64)
    ensures
        r == saturate(a + b),
{
    narrow(a as i128 + b as i128)
}

/// `a - b`, saturating at the bounds of `i64`.
pub fn difference(a: i64, b: i64) -> (r: i64)
    ensures
        r == saturate(a - b),
{
    narrow(a as i128 - b as i128)
}

/// The distance covered at `rate` thousandths per second in `dt`
/// milliseconds, rounded toward zero.
pub fn travel(rate: i64, dt: u64) -> (r: i128)
    ensures
        r == scaled_product(rate as int, dt as int),
        -0x4000_0000_0000_0000_0000_0000_0000_0000 < r < 0x4000_0000_0000_0000_0000_0000_0000_0000,
{
    assert(-0x8000_0000_0000_0000 * 0xffff_ffff_ffff_ffff <= rate * dt
        <= 0x7fff_ffff_ffff_ffff * 0xffff_ffff_ffff_ffff) by (nonlinear_arith)
        requires
            -0x8000_0000_0000_0000 <= rate <= 0x7fff_ffff_ffff_ffff,
            0 <= dt <= 0xffff_ffff_ffff_ffff,
    ;
    let p: i128 = (rate as i128) * (dt as i128);
    p / (SCALE as i128)
}

/// The exact product of two `i64` values.
pub fn product(a: i64, b: i64) -> (r: i128)
    ensures
        r == a * b,
{
    assert(-0x8000_0000_0000_0000 * 0x8000_0000_0000_0000 <= a * b
        <= 0x8000_0000_0000_0000 * 0x8000_0000_0000_0000) by (nonlinear_arith)
        requires
            -0x8000_0000_0000_0000 <= a <= 0x7fff_ffff_ffff_ffff,
            -0x8000_0000_0000_0000 <= b <= 0x7fff_ffff_ffff_ffff,
    ;
    (a as i128) * (b as i128)
}

/// `v` limited to `lo..=hi`; where `hi < lo` the result is `lo`.
pub fn clamp_to(v: i64, lo: i64, hi: i64) -> (r: i64)
    ensures
        r == clamp(v as int, lo as int, hi as int),
{
    let capped: i64 = if v > hi {
        hi
    } else {
        v
    };
    if capped < lo {
        lo
    } else {
        capped
    }
}

/// Half of `v`, rounded toward zero.
pub fn halved(v: i64) -> (r: i64)
    ensures
        r == half(v as int),
{
    v / 2
}

} // verus!
