//! Colours as four 8-bit channels.

use vstd::prelude::*;
use crate::random::pick;

verus! {

/// A colour: red, green, blue and alpha, each an 8-bit channel.
#[derive(Debug, Clone, Copy, PartialEq, Eq, Structural)]
pub struct Color {
    pub r: u8,
    pub g: u8,
    pub b: u8,
    pub a: u8,
}

impl Color {
    /// Every colour channel lies in `lo..hi` and the colour is opaque.
    pub open spec fn in_band(self, lo: int, hi: int) -> bool {
        &&& lo <= self.r < hi
        &&& lo <= self.g < hi
        &&& lo <= self.b < hi
        &&& self.a == 255
    }

    /// An opaque colour with the given channels.
    pub fn rgb(r: u8, g: u8, b: u8) -> (c: Color)
        ensures
            c == (Color { r, g, b, a: 255 }),
    {
        Color { r, g, b, a: 255 }
    }

    /// An opaque colour whose three colour channels are drawn at random from
    /// `low..high`.
    pub fn random(low: u8, high: u8) -> (c: Color)
        requires
            low < high,
        ensures
            c.in_band(low as int, high as int),
    {
        let r = pick(low as i32, high as i32) as u8;
        let g = pick(low as i32, high as i32) as u8;
        let b = pick(low as i32, high as i32) as u8;
        Color::rgb(r, g, b)
    }

    /// Opaque black.
    pub fn black() -> (c: Color)
        ensures
            c == (Color { r: 0, g: 0, b: 0, a: 255 }),
    {
        Color { r: 0, g: 0, b: 0, a: 255 }
    }
}

} // verus!
