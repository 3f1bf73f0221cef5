use vstd::prelude::*;

verus! {

/// A color value as the grid abstraction sees it: an opaque, comparable,
/// copyable triple of channels. Concrete devices may interpret the channels
/// however they like; the grid contract only moves such values around.
#[derive(Clone, Copy, Debug, PartialEq, Eq, Structural)]
pub struct Color {
    pub red: u8,
    pub green: u8,
    pub blue: u8,
}

impl Color {
    /// Builds a color from its three channels.
    pub fn new(red: u8, green: u8, blue: u8) -> (c: Color)
        ensures
            c == (Color { red, green, blue }),
    {
        Color { red, green, blue }
    }
}

} // verus!
