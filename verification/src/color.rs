//! Colours as the editor's logic reads them: four 8-bit channels.

use vstd::prelude::*;

verus! {

/// A colour with red, green, blue and alpha channels.
#[derive(Clone, Copy, Debug, PartialEq, Eq, Structural)]
pub struct Color {
    pub r: u8,
    pub g: u8,
    pub b: u8,
    pub alpha: u8,
}

impl Color {
    /// Builds a colour from its four channels.
    pub fn rgba(r: u8, g: u8, b: u8, a: u8) -> (c: Color)
        ensures
            c == (Color { r, g, b, alpha: a }),
    {
        Color { r, g, b, alpha: a }
    }

    /// The alpha channel.
    pub fn a(&self) -> (a: u8)
        ensures
            a == self.alpha,
    {
        self.alpha
    }
}

} // verus!
