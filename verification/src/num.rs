//! Small integer helpers shared by the geometry, paint and layout code.
use vstd::prelude::*;

verus! {

/// The smaller of two integers.
pub open spec fn min_int(a: int, b: int) -> int {
    if a <= b { a } else { b }
}

/// The larger of two integers.
pub open spec fn max_int(a: int, b: int) -> int {
    if a >= b { a } else { b }
}

/// `a + b`, saturated at `u32::MAX`.
pub open spec fn sat_add(a: int, b: int) -> int {
    if a + b > u32::MAX { u32::MAX as int } else { a + b }
}

/// `a - b`, saturated at zero.
pub open spec fn sat_sub(a: int, b: int) -> int {
    if a - b < 0 { 0 } else { a - b }
}

/// `a * b`, saturated at `u32::MAX`.
pub open spec fn sat_mul(a: int, b: int) -> int {
    if a * b > u32::MAX { u32::MAX as int } else { a * b }
}

pub fn min_u32(a: u32, b: u32) -> (r: u32)
    ensures
        r == min_int(a as int, b as int),
{
    if a <= b {
        a
    } else {
        b
    }
}

pub fn max_u32(a: u32, b: u32) -> (r: u32)
    ensures
        r == max_int(a as int, b as int),
{
    if a >= b {
        a
    } else {
        b
    }
}

pub fn sat_add_u32(a: u32, b: u32) -> (r: u32)
    ensures
        r == sat_add(a as int, b as int),
{
    a.saturating_add(b)
}

pub fn sat_sub_u32(a: u32, b: u32) -> (r: u32)
    ensures
        r == sat_sub(a as int, b as int),
{
    a.saturating_sub(b)
}

pub fn sat_mul_u32(a: u32, b: u32) -> (r: u32)
    ensures
        r == sat_mul(a as int, b as int),
{
    if a == 0 || b == 0 {
        return 0;
    }
    if a > u32::MAX / b {
        proof {
            assert(a * b > u32::MAX) by (nonlinear_arith)
                requires
                    a > u32::MAX / b,
                    b > 0,
            ;
        }
        u32::MAX
    } else {
        proof {
            assert(a * b <= u32::MAX) by (nonlinear_arith)
                requires
                    a <= u32::MAX / b,
                    b > 0,
            ;
        }
        a * b
    }
}

} // verus!
