//! Plain-value points and colours handed to the point-draw path.

use vstd::prelude::*;

verus! {

/// A signed pixel coordinate; the origin is the top-left corner.
#[derive(Clone, Copy, Debug, PartialEq, Eq, Structural)]
pub struct Point {
    pub x: i32,
    pub y: i32,
}

/// An opaque RGB colour; the alpha channel of every drawn pixel is 255.
#[derive(Clone, Copy, Debug, PartialEq, Eq, Structural)]
pub struct Color {
    pub r: u8,
    pub g: u8,
    pub b: u8,
}

/// One coloured point of a draw stream.
#[derive(Clone, Copy, Debug, PartialEq, Eq, Structural)]
pub struct Pixel {
    pub point: Point,
    pub color: Color,
}

} // verus!
