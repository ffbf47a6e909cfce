//! Raster-region painting library.
//!
//! Geometric regions (rectangles, canonical right triangles, polygons built
//! from them, and tessellated grids of polygons) are scan-converted into
//! exact sets of integer lattice points and painted onto an in-memory image
//! buffer. All geometry is done in integer arithmetic, so the pixel sets and
//! the collision policy of the painting engine are stated and proved exactly.

pub mod point;
pub mod rectangle;
pub mod triangle;
pub mod coverage;
pub mod polygon;
pub mod images;
pub mod region;
pub mod encode;
pub mod tessellation;
pub mod hexagon;
pub mod rect_poly;
pub mod transformers;
pub mod region_filter;

use vstd::prelude::*;

verus! {

/// Rounded division `a / b` for `b > 0`, rounding halves away from zero.
///
/// This is the integer form of rounding the exact rational `a / b` to the
/// nearest integer, used wherever a scan line crosses a sloped triangle edge.
pub open spec fn round_div(a: int, b: int) -> int
    recommends
        b > 0,
{
    if a >= 0 {
        (2 * a + b) / (2 * b)
    } else {
        -((2 * -a + b) / (2 * b))
    }
}

/// Truncated division (quotient rounded toward zero), as the `/` operator of
/// the target machine computes it on signed integers.
pub open spec fn trunc_div(a: int, b: int) -> int
    recommends
        b > 0,
{
    if a >= 0 {
        a / b
    } else {
        -((-a) / b)
    }
}

/// Truncated remainder, the `%` operator of the target machine on signed
/// integers: the sign follows the dividend.
pub open spec fn trunc_mod(a: int, b: int) -> int
    recommends
        b > 0,
{
    if a >= 0 {
        a % b
    } else {
        -((-a) % b)
    }
}

/// Executable form of [`round_div`] on 64-bit operands.
pub fn round_div_i64(a: i64, b: i64) -> (r: i64)
    requires
        b > 0,
        -0x2000_0000_0000_0000 <= a < 0x2000_0000_0000_0000,
        b < 0x2000_0000_0000_0000,
    ensures
        r == round_div(a as int, b as int),
{
    if a >= 0 {
        (2 * a + b) / (2 * b)
    } else {
        -((2 * -a + b) / (2 * b))
    }
}

/// Executable form of [`trunc_div`] on 32-bit operands.
pub fn trunc_div_i32(a: i32, b: i32) -> (r: i32)
    requires
        b > 0,
        a > i32::MIN,
    ensures
        r == trunc_div(a as int, b as int),
{
    if a >= 0 {
        a / b
    } else {
        -((-a) / b)
    }
}

/// Executable form of [`trunc_mod`] on 32-bit operands.
pub fn trunc_mod_i32(a: i32, b: i32) -> (r: i32)
    requires
        b > 0,
        a > i32::MIN,
    ensures
        r == trunc_mod(a as int, b as int),
{
    if a >= 0 {
        a % b
    } else {
        -((-a) % b)
    }
}

/// `round_div` recovers exact integer multiples of the divisor.
pub proof fn lemma_round_div_exact(c: int, b: int)
    by (nonlinear_arith)
    requires
        b > 0,
    ensures
        round_div(c * b, b) == c,
{
}

/// `round_div` is monotone in the numerator.
pub proof fn lemma_round_div_mono(a1: int, a2: int, b: int)
    by (nonlinear_arith)
    requires
        b > 0,
        a1 <= a2,
    ensures
        round_div(a1, b) <= round_div(a2, b),
{
}

/// A numerator between two multiples of the divisor rounds to a quotient
/// between the two factors.
pub proof fn lemma_round_div_bounds(a: int, b: int, lo: int, hi: int)
    requires
        b > 0,
        lo * b <= a,
        a <= hi * b,
    ensures
        lo <= round_div(a, b) <= hi,
{
    lemma_round_div_exact(lo, b);
    lemma_round_div_exact(hi, b);
    lemma_round_div_mono(lo * b, a, b);
    lemma_round_div_mono(a, hi * b, b);
}

} // verus!
