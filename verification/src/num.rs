//! Saturating integer arithmetic: sums and differences that stop at the
//! bounds of the machine type.

use vstd::prelude::*;

verus! {

/// The `i32` nearest to `x`.
pub open spec fn clamp_i32(x: int) -> i32 {
    if x > i32::MAX {
        i32::MAX
    } else if x < i32::MIN {
        i32::MIN
    } else {
        x as i32
    }
}

/// The `usize` nearest to `x`.
pub open spec fn clamp_usize(x: int) -> usize {
    if x > usize::MAX {
        usize::MAX
    } else if x < 0 {
        0
    } else {
        x as usize
    }
}

/// The larger of two integers.
pub open spec fn max_int(a: int, b: int) -> int {
    if a >= b {
        a
    } else {
        b
    }
}

/// The smaller of two integers.
pub open spec fn min_int(a: int, b: int) -> int {
    if a <= b {
        a
    } else {
        b
    }
}

/// The distance between two numbers.
pub open spec fn abs_diff(a: int, b: int) -> int {
    if a >= b {
        a - b
    } else {
        b - a
    }
}

/// Half of `x`, rounded towards zero.
pub open spec fn half(x: i32) -> int {
    if x >= 0 {
        x / 2
    } else {
        -((-x) / 2)
    }
}

/// Half of `x`, rounded towards zero.
pub fn half_i32(x: i32) -> (r: i32)
    ensures
        r == half(x),
{
    x / 2
}

/// Half of `x`, rounded down.
pub fn floor_half_i32(x: i32) -> (r: i32)
    ensures
        r == x / 2,
{
    if x >= 0 {
        x / 2
    } else {
        let n: i64 = -(x as i64);
        let h: i64 = -((n + 1) / 2);
        h as i32
    }
}

/// `a + b`, stopping at the bounds of `i32`.
pub fn sat_add(a: i32, b: i32) -> (r: i32)
    ensures
        r == clamp_i32(a + b),
{
    let s: i64 = a as i64 + b as i64;
    if s > i32::MAX as i64 {
        i32::MAX
    } else if s < i32::MIN as i64 {
        i32::MIN
    } else {
        s as i32
    }
}

/// `a - b`, stopping at the bounds of `i32`.
pub fn sat_sub(a: i32, b: i32) -> (r: i32)
    ensures
        r == clamp_i32(a - b),
{
    let s: i64 = a as i64 - b as i64;
    if s > i32::MAX as i64 {
        i32::MAX
    } else if s < i32::MIN as i64 {
        i32::MIN
    } else {
        s as i32
    }
}

/// `a * b`, stopping at the bounds of `i32`.
pub fn sat_mul(a: i32, b: i32) -> (r: i32)
    ensures
        r == clamp_i32(a * b),
{
    assert(-4611686018427387904 <= a * b <= 4611686018427387904) by (nonlinear_arith)
        requires
            -2147483648 <= a <= 2147483647,
            -2147483648 <= b <= 2147483647,
    ;
    let s: i64 = a as i64 * b as i64;
    if s > i32::MAX as i64 {
        i32::MAX
    } else if s < i32::MIN as i64 {
        i32::MIN
    } else {
        s as i32
    }
}

/// The larger of `a` and `b`.
pub fn max_i32(a: i32, b: i32) -> (r: i32)
    ensures
        r == max_int(a as int, b as int),
{
    if a >= b {
        a
    } else {
        b
    }
}

/// `a + 1`, stopping at `usize::MAX`.
pub fn step_up(a: usize) -> (r: usize)
    ensures
        r == clamp_usize(a + 1),
{
    if a == usize::MAX {
        a
    } else {
        a + 1
    }
}

/// `a - 1`, stopping at zero.
pub fn step_down(a: usize) -> (r: usize)
    ensures
        r == clamp_usize(a - 1),
{
    if a == 0 {
        a
    } else {
        a - 1
    }
}

/// The distance between `a` and `b`.
pub fn distance(a: usize, b: usize) -> (r: usize)
    ensures
        r == abs_diff(a as int, b as int),
{
    if a >= b {
        a - b
    } else {
        b - a
    }
}

/// `a + d` where that is a `usize`.
pub open spec fn offset(a: usize, d: i32) -> Option<usize> {
    if 0 <= a + d <= usize::MAX {
        Some((a + d) as usize)
    } else {
        None
    }
}

/// `a + d`, unless that lies outside `usize`.
pub fn checked_offset(a: usize, d: i32) -> (r: Option<usize>)
    ensures
        r == offset(a, d),
{
    if d >= 0 {
        a.checked_add(d as usize)
    } else {
        let back: i64 = -(d as i64);
        a.checked_sub(back as usize)
    }
}

/// `a + d`, stopping at the bounds of `usize`.
pub fn sat_offset(a: usize, d: i32) -> (r: usize)
    ensures
        r == clamp_usize(a + d),
{
    if d >= 0 {
        a.saturating_add(d as usize)
    } else {
        let back: i64 = -(d as i64);
        a.saturating_sub(back as usize)
    }
}

} // verus!
