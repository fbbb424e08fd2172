//! Colours of three 8-bit channels.

use crate::terminal::{background_cell, colored_space};
use vstd::prelude::*;

verus! {

/// A colour as red, green and blue intensities, each in `0..=255`.
#[derive(Debug, Clone, Copy, PartialEq, Eq, Structural)]
pub struct Color(pub u8, pub u8, pub u8);

/// One channel multiplied by `k`, held at the channel maximum instead of wrapping.
pub open spec fn saturating_channel(c: u8, k: u8) -> u8 {
    if c * k > 255 {
        255u8
    } else {
        (c * k) as u8
    }
}

impl Color {
    /// Black: no intensity on any channel. A fresh canvas is filled with it.
    pub fn new() -> (c: Color)
        ensures
            c == Color(0, 0, 0),
    {
        Color(0, 0, 0)
    }

    /// White: full intensity on every channel.
    pub fn white() -> (c: Color)
        ensures
            c == Color(255, 255, 255),
    {
        Color(255, 255, 255)
    }

    /// What `with_intensity` returns: every channel multiplied by `k` and
    /// saturated at 255.
    pub open spec fn intensified(self, k: u8) -> Color {
        Color(
            saturating_channel(self.0, k),
            saturating_channel(self.1, k),
            saturating_channel(self.2, k),
        )
    }

    /// Multiplies every channel by `k`. A product above 255 becomes 255; it
    /// never wraps around.
    pub fn with_intensity(&self, k: u8) -> (c: Color)
        ensures
            c == self.intensified(k),
    {
        let x: u8 = match self.0.checked_mul(k) {
            Some(e) => e,
            None => u8::MAX,
        };
        let y: u8 = match self.1.checked_mul(k) {
            Some(e) => e,
            None => u8::MAX,
        };
        let z: u8 = match self.2.checked_mul(k) {
            Some(e) => e,
            None => u8::MAX,
        };
        Color(x, y, z)
    }

    /// The colour as a terminal shows it: one space on a background of this
    /// colour, wrapped in the escape sequences that set and reset it.
    pub fn to_ascii(&self) -> (cell: String)
        ensures
            cell@ == background_cell(self.0, self.1, self.2),
    {
        colored_space(self.0, self.1, self.2)
    }
}

impl Default for Color {
    fn default() -> (c: Color)
        ensures
            c == Color(0, 0, 0),
    {
        Color(0, 0, 0)
    }
}

} // verus!
