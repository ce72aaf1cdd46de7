//! The geometric data the tessellation works on: grid points, colors and
//! sites, together with the coordinate-difference helpers every distance
//! metric is built from.

use vstd::prelude::*;

verus! {

/// A grid location. Every query the classifier answers lies on the integer
/// grid, and site positions are snapped to it as well.
#[derive(Clone, Copy, PartialEq, Eq, Structural, Debug)]
pub struct Point {
    pub x: i32,
    pub y: i32,
}

/// An RGBA color with 8-bit channels; alpha 255 is fully opaque.
#[derive(Clone, Copy, PartialEq, Eq, Structural, Debug)]
pub struct Color {
    pub r: u8,
    pub g: u8,
    pub b: u8,
    pub a: u8,
}

/// A colored reference point competing to own grid cells.
#[derive(Clone, Copy, PartialEq, Eq, Structural, Debug)]
pub struct Site {
    pub pos: Point,
    pub color: Color,
}

/// The color a classification falls back to when there is no site at all:
/// opaque black.
pub open spec fn opaque_black() -> Color {
    Color { r: 0, g: 0, b: 0, a: 255 }
}

/// |a - b| over mathematical integers.
pub open spec fn abs_diff(a: int, b: int) -> int {
    if a >= b {
        a - b
    } else {
        b - a
    }
}

/// Absolute difference of the two x coordinates.
pub open spec fn delta_x(a: Point, b: Point) -> int {
    abs_diff(a.x as int, b.x as int)
}

/// Absolute difference of the two y coordinates.
pub open spec fn delta_y(a: Point, b: Point) -> int {
    abs_diff(a.y as int, b.y as int)
}

/// Absolute difference of two machine coordinates, widened so that no pair
/// of `i32` values can overflow.
pub fn abs_delta(a: i32, b: i32) -> (d: u64)
    ensures
        d == abs_diff(a as int, b as int),
{
    let wa = a as i64;
    let wb = b as i64;
    if wa >= wb {
        (wa - wb) as u64
    } else {
        (wb - wa) as u64
    }
}

} // verus!
