//! Colours of the logical pixel grid.

use vstd::prelude::*;

verus! {

/// A colour: red, green and blue, eight bits each.
#[derive(Clone, Copy, Debug, PartialEq, Eq, Hash, Structural)]
pub struct RGB8 {
    pub r: u8,
    pub g: u8,
    pub b: u8,
}

impl RGB8 {
    /// The colour with the given channels.
    pub fn new(r: u8, g: u8, b: u8) -> (colour: RGB8)
        ensures
            colour == (RGB8 { r, g, b }),
    {
        RGB8 { r, g, b }
    }

    /// Black: every channel off.
    pub open spec fn black() -> RGB8 {
        RGB8 { r: 0, g: 0, b: 0 }
    }

    /// Channel `c` of the colour: 0 is red, 1 is green, anything else blue.
    pub open spec fn channel(self, c: int) -> u8 {
        if c == 0 {
            self.r
        } else if c == 1 {
            self.g
        } else {
            self.b
        }
    }
}

} // verus!
