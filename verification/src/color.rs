//! Straight (non-premultiplied) 8-bit RGBA colors.

use vstd::prelude::*;

verus! {

/// An RGBA color with 8 bits per channel.
#[derive(Clone, Copy, Debug, PartialEq, Eq, Hash, Structural)]
pub struct ColorU {
    pub r: u8,
    pub g: u8,
    pub b: u8,
    pub a: u8,
}

impl ColorU {
    /// The color with the given channels.
    pub fn new(r: u8, g: u8, b: u8, a: u8) -> (color: ColorU)
        ensures
            color == (ColorU { r, g, b, a }),
    {
        ColorU { r, g, b, a }
    }

    /// Opaque black.
    pub fn black() -> (color: ColorU)
        ensures
            color == (ColorU { r: 0, g: 0, b: 0, a: 255 }),
    {
        ColorU { r: 0, g: 0, b: 0, a: 255 }
    }

    /// A color is opaque when its alpha channel is saturated.
    pub open spec fn spec_is_opaque(&self) -> bool {
        self.a == 255
    }

    /// Whether the color hides everything beneath it.
    #[verifier::when_used_as_spec(spec_is_opaque)]
    pub fn is_opaque(&self) -> (opaque: bool)
        ensures
            opaque == self.spec_is_opaque(),
    {
        self.a == 255
    }

    /// The channel that a texel stores as its byte `index`: red, green,
    /// blue and alpha are the bytes 0, 1, 2 and 3.
    pub open spec fn channel(&self, index: int) -> u8 {
        if index == 0 {
            self.r
        } else if index == 1 {
            self.g
        } else if index == 2 {
            self.b
        } else {
            self.a
        }
    }

    /// Transparent black: what a texel holds that no paint has written.
    pub open spec fn transparent_black() -> ColorU {
        ColorU { r: 0, g: 0, b: 0, a: 0 }
    }
}

} // verus!
