//! Fixed-point units and the rounding rules of the simulation.

use vstd::prelude::*;

verus! {

/// Raw units in one tile, and in one second.
pub const UNIT: i64 = 60_000;

/// Raw units in one pixel of the artwork: a tile is fifteen pixels wide.
pub const PIXEL: i64 = 4_000;

/// Simulation ticks in one second.
pub const TICKS_PER_SECOND: i64 = 60;

/// Duration of one simulation tick, in raw units of time.
pub const TICK: i64 = 1_000;

/// Largest magnitude that a coordinate or a speed of a well-formed state may have.
pub const COORD_LIMIT: i64 = 0x100_0000_0000;

/// The end of the machine's range, at which the timers that count "time
/// since" stop growing: more than four million years.
pub const TIMER_CEILING: i64 = 0x7fff_ffff_ffff_ffff;

/// The "time since" of something that has not happened yet: 9999 seconds.
pub const LONG_AGO: i64 = 9_999 * UNIT;

/// Index of the grid cell that holds the raw coordinate `a`: the floor of `a / UNIT`.
pub open spec fn cell_index(a: int) -> int {
    a / (UNIT as int)
}

/// Quotient rounded toward zero.
pub open spec fn trunc_div(a: int, d: int) -> int
    recommends
        d > 0,
{
    if a >= 0 {
        a / d
    } else {
        -((-a) / d)
    }
}

/// Absolute value.
pub open spec fn magnitude(a: int) -> int {
    if a >= 0 {
        a
    } else {
        -a
    }
}

/// `a` held to the interval `[lo, hi]`.
pub open spec fn clamped(a: int, lo: int, hi: int) -> int {
    if a < lo {
        lo
    } else if a > hi {
        hi
    } else {
        a
    }
}

/// The grid cell of a raw coordinate.
pub fn cell_of(a: i64) -> (c: i64)
    ensures
        c == cell_index(a as int),
        c * UNIT <= a < (c + 1) * UNIT,
{
    if a >= 0 {
        a / UNIT
    } else {
        let q: i64 = a / UNIT;
        let r: i64 = a % UNIT;
        if r == 0 {
            q
        } else {
            q - 1
        }
    }
}

/// Division that rounds toward zero, as the controller's rates do.
pub fn div_toward_zero(a: i64, d: i64) -> (q: i64)
    requires
        d > 0,
    ensures
        q == trunc_div(a as int, d as int),
        magnitude(q as int) <= magnitude(a as int),
{
    proof {
        if a >= 0 {
            vstd::arithmetic::div_mod::lemma_div_is_ordered_by_denominator(a as int, 1, d as int);
            vstd::arithmetic::div_mod::lemma_div_pos_is_pos(a as int, d as int);
        } else {
            vstd::arithmetic::div_mod::lemma_div_is_ordered_by_denominator(-a as int, 1, d as int);
            vstd::arithmetic::div_mod::lemma_div_pos_is_pos(-a as int, d as int);
        }
    }
    a / d
}

/// Absolute value of a raw quantity.
pub fn abs_of(a: i64) -> (m: i64)
    requires
        a > i64::MIN,
    ensures
        m == magnitude(a as int),
{
    if a >= 0 {
        a
    } else {
        -a
    }
}

/// Holds `a` to `[lo, hi]`.
pub fn clamp_to(a: i64, lo: i64, hi: i64) -> (r: i64)
    requires
        lo <= hi,
    ensures
        r == clamped(a as int, lo as int, hi as int),
        lo <= r <= hi,
{
    if a < lo {
        lo
    } else if a > hi {
        hi
    } else {
        a
    }
}

} // verus!
