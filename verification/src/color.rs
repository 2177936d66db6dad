//! A 3-channel 8-bit color value.

use vstd::prelude::*;

verus! {

/// An output pixel color; each channel lies in `[0, 255]`.
#[derive(Clone, Copy, Debug, PartialEq, Eq, Structural)]
pub struct Color {
    pub r: u8,
    pub g: u8,
    pub b: u8,
}

impl Color {
    /// Builds a color from its three channels.
    pub fn new(r: u8, g: u8, b: u8) -> (c: Color)
        ensures
            c == (Color { r, g, b }),
    {
        Color { r, g, b }
    }

    /// The three channels as a byte vector, in `r`, `g`, `b` order.
    pub fn into_vec(self) -> (v: Vec<u8>)
        ensures
            v@ == seq![self.r, self.g, self.b],
    {
        let v = vec![self.r, self.g, self.b];
        proof {
            assert(v@ =~= seq![self.r, self.g, self.b]);
        }
        v
    }

    /// The three channels as a byte triple, in `r`, `g`, `b` order.
    pub fn into_array(self) -> (a: [u8; 3])
        ensures
            a@ == seq![self.r, self.g, self.b],
    {
        let a = [self.r, self.g, self.b];
        proof {
            assert(a@ =~= seq![self.r, self.g, self.b]);
        }
        a
    }
}

} // verus!
