//! Colours.

use vstd::prelude::*;

verus! {

/// A colour by its red, green, blue and alpha parts, each from 0 to 255.
#[derive(Debug, Clone, Copy, PartialEq, Eq, Structural)]
pub struct Color {
    pub red: u8,
    pub green: u8,
    pub blue: u8,
    pub alpha: u8,
}

/// The colour with these parts.
pub fn rgba(red: u8, green: u8, blue: u8, alpha: u8) -> (r: Color)
    ensures
        r == (Color { red, green, blue, alpha }),
{
    Color { red, green, blue, alpha }
}

} // verus!
