//! Coordinate arithmetic of window placement, panning and resizing.
//!
//! Coordinates are `i32` and extents `u32`; sums that leave the `i32` range wrap
//! around, two's-complement style, as the compositor's release build does.

use vstd::prelude::*;
use crate::swc::swc_rectangle;

verus! {

/// The `i32` that `v` wraps to: the value congruent to `v` modulo 2^32 in
/// the range of `i32`.
pub open spec fn wrap_i32(v: int) -> i32 {
    (((v + 0x8000_0000) % 0x1_0000_0000) - 0x8000_0000) as i32
}

/// Smallest width a keyboard resize leaves a window with.
pub const MIN_WINDOW_WIDTH: i32 = 120;
/// Smallest height a keyboard resize leaves a window with.
pub const MIN_WINDOW_HEIGHT: i32 = 90;
/// Distance a keyboard move shifts a window by.
pub const MOVE_STEP: i32 = 64;
/// Amount a keyboard resize grows or shrinks a window by.
pub const RESIZE_STEP: i32 = 48;
/// Smallest width given to a newly placed window (unless the screen is narrower).
pub const PLACEMENT_MIN_WIDTH: u32 = 480;
/// Smallest height given to a newly placed window (unless the screen is lower).
pub const PLACEMENT_MIN_HEIGHT: u32 = 320;
/// Diagonal step between successive placements.
pub const SPAWN_STEP: u32 = 28;
/// Number of distinct placement offsets before they repeat.
pub const SPAWN_CYCLE: u32 = 8;
/// Horizontal gap left between the focused window and one placed beside it.
pub const PLACEMENT_GAP: i32 = 36;

/// Wraps an exact integer into `i32`.
pub fn wrap_to_i32(v: i64) -> (r: i32)
    requires
        -0x4_0000_0000 <= v <= 0x4_0000_0000,
    ensures
        r == wrap_i32(v as int),
{
    let shifted: u64 = (v + 0x4_8000_0000) as u64;
    let m: u64 = shifted % 0x1_0000_0000;
    proof {
        let a = v as int + 0x8000_0000;
        assert((a + 4 * 0x1_0000_0000) % 0x1_0000_0000 == a % 0x1_0000_0000) by (nonlinear_arith);
    }
    let r: i64 = m as i64 - 0x8000_0000;
    r as i32
}

/// `a + b`, wrapped into `i32`.
pub fn add_wrapping(a: i32, b: i32) -> (r: i32)
    ensures
        r == wrap_i32(a + b),
{
    wrap_to_i32(a as i64 + b as i64)
}

/// `a - b`, wrapped into `i32`.
pub fn sub_wrapping(a: i32, b: i32) -> (r: i32)
    ensures
        r == wrap_i32(a - b),
{
    wrap_to_i32(a as i64 - b as i64)
}

/// The midpoint of a span that starts at `origin` and is `extent` long
/// (rounded toward the origin), wrapped into `i32`.
pub open spec fn center_of(origin: i32, extent: u32) -> i32 {
    wrap_i32(origin + extent / 2)
}

pub fn center(origin: i32, extent: u32) -> (r: i32)
    ensures
        r == center_of(origin, extent),
{
    wrap_to_i32(origin as i64 + (extent / 2) as i64)
}

/// The extent given to a newly placed window along one axis of a screen span of
/// `total`: three quarters of the span (the product saturating at `u32::MAX`),
/// raised to `minimum`, then capped at `total`.
pub open spec fn placement_extent_of(total: u32, minimum: u32) -> u32 {
    let three_quarters: u32 = if total * 3 > u32::MAX { (u32::MAX / 4) as u32 } else { (total * 3 / 4) as u32 };
    let raised: u32 = if three_quarters < minimum { minimum } else { three_quarters };
    if raised > total { total } else { raised }
}

pub fn placement_extent(total: u32, minimum: u32) -> (r: u32)
    ensures
        r == placement_extent_of(total, minimum),
        r <= total,
        minimum <= total ==> minimum <= r,
{
    let product: u32 = if total > u32::MAX / 3 { u32::MAX } else { total * 3 };
    let three_quarters: u32 = product / 4;
    let raised: u32 = if three_quarters < minimum { minimum } else { three_quarters };
    if raised > total { total } else { raised }
}

/// The diagonal offset of the `index`-th placement: `(index mod 8) * 28`.
pub open spec fn spawn_offset_of(index: u32) -> i32 {
    ((index % 8) * 28) as i32
}

pub fn spawn_offset(index: u32) -> (r: i32)
    ensures
        r == spawn_offset_of(index),
        0 <= r <= 196,
{
    ((index % SPAWN_CYCLE) * SPAWN_STEP) as i32
}

/// Where a new window of `width` x `height` goes when nothing is focused beside
/// it: centred in `usable`, then shifted down and right by `offset`.
pub open spec fn centered_placement_of(usable: swc_rectangle, width: u32, height: u32, offset: i32) -> swc_rectangle {
    swc_rectangle {
        x: wrap_i32(usable.x + (usable.width - width) / 2 + offset),
        y: wrap_i32(usable.y + (usable.height - height) / 2 + offset),
        width,
        height,
    }
}

pub fn centered_placement(usable: swc_rectangle, width: u32, height: u32, offset: i32) -> (r: swc_rectangle)
    requires
        width <= usable.width,
        height <= usable.height,
        0 <= offset <= 196,
    ensures
        r == centered_placement_of(usable, width, height, offset),
{
    let x = wrap_to_i32(usable.x as i64 + ((usable.width - width) / 2) as i64 + offset as i64);
    let y = wrap_to_i32(usable.y as i64 + ((usable.height - height) / 2) as i64 + offset as i64);
    swc_rectangle { x, y, width, height }
}

/// Where a new window of `width` x `height` goes beside the focused window whose
/// geometry is `beside`: `PLACEMENT_GAP` to its right and shifted by `offset`
/// (half of it downwards).
pub open spec fn beside_placement_of(beside: swc_rectangle, width: u32, height: u32, offset: i32) -> swc_rectangle {
    swc_rectangle {
        x: wrap_i32(beside.x + beside.width + 36 + offset),
        y: wrap_i32(beside.y + offset / 2),
        width,
        height,
    }
}

pub fn beside_placement(beside: swc_rectangle, width: u32, height: u32, offset: i32) -> (r: swc_rectangle)
    requires
        0 <= offset <= 196,
    ensures
        r == beside_placement_of(beside, width, height, offset),
{
    let x = wrap_to_i32(beside.x as i64 + beside.width as i64 + PLACEMENT_GAP as i64 + offset as i64);
    let y = wrap_to_i32(beside.y as i64 + (offset / 2) as i64);
    swc_rectangle { x, y, width, height }
}

/// The extent a window of `extent` gets when resized by `delta`, never below
/// `minimum`; the sum is taken in `i32`, wrapping.
pub open spec fn resized_extent_of(extent: u32, delta: i32, minimum: i32) -> u32 {
    let v = wrap_i32(extent + delta);
    (if v < minimum { minimum } else { v }) as u32
}

pub fn resized_extent(extent: u32, delta: i32, minimum: i32) -> (r: u32)
    requires
        minimum >= 0,
    ensures
        r == resized_extent_of(extent, delta, minimum),
        r >= minimum,
{
    let v = wrap_to_i32(extent as i64 + delta as i64);
    let m = if v < minimum { minimum } else { v };
    m as u32
}

/// `wrap_i32(a)` differs from `a` by a multiple of 2^32.
pub proof fn lemma_wrap_offset(a: int)
    ensures
        wrap_i32(a) == a - 0x1_0000_0000 * ((a + 0x8000_0000) / 0x1_0000_0000),
{
    vstd::arithmetic::div_mod::lemma_fundamental_div_mod(a + 0x8000_0000, 0x1_0000_0000);
    assert(0 <= (a + 0x8000_0000) % 0x1_0000_0000 < 0x1_0000_0000) by {
        vstd::arithmetic::div_mod::lemma_mod_bound(a + 0x8000_0000, 0x1_0000_0000);
    }
}

/// Adding a multiple of 2^32 does not change what a number wraps to.
pub proof fn lemma_wrap_periodic(a: int, k: int)
    ensures
        wrap_i32(a + 0x1_0000_0000 * k) == wrap_i32(a),
{
    vstd::arithmetic::div_mod::lemma_mod_multiples_vanish(k, a + 0x8000_0000, 0x1_0000_0000);
    assert(a + 0x1_0000_0000 * k + 0x8000_0000 == 0x1_0000_0000 * k + (a + 0x8000_0000));
    assert((a + 0x1_0000_0000 * k + 0x8000_0000) % 0x1_0000_0000 == (a + 0x8000_0000) % 0x1_0000_0000);
}

/// A number in the `i32` range wraps to itself.
pub proof fn lemma_wrap_small(a: int)
    requires
        i32::MIN <= a <= i32::MAX,
    ensures
        wrap_i32(a) == a,
{
    vstd::arithmetic::div_mod::lemma_small_mod((a + 0x8000_0000) as nat, 0x1_0000_0000);
}

} // verus!
