//! What this crate takes on trust about the `colorful` crate, which writes
//! the escape sequences that colour text on a terminal.

use vstd::prelude::*;

verus! {

/// The character of one decimal digit.
pub open spec fn digit(d: nat) -> char
    recommends
        d < 10,
{
    (48 + d) as char
}

/// The decimal digits of `n`, without leading zeros.
pub open spec fn decimal(n: nat) -> Seq<char>
    decreases n,
{
    if n < 10 {
        seq![digit(n)]
    } else {
        decimal(n / 10).push(digit(n % 10))
    }
}

/// One space on a background of the given colour, as a terminal is told to
/// show it: the escape sequence that selects a 24-bit background, the three
/// channels in decimal with semicolons between them, `m`, the space, and the
/// escape sequence that resets all attributes.
pub open spec fn background_cell(r: u8, g: u8, b: u8) -> Seq<char> {
    seq!['\x1B', '[', '4', '8', ';', '2', ';'] + decimal(r as nat) + seq![';'] + decimal(g as nat)
        + seq![';'] + decimal(b as nat) + seq!['m', ' ', '\x1B', '[', '0', 'm']
}

/// `Colorful::bg_color` on a text of one space with the colour
/// `RGB::new(r, g, b)`, and what `Display` writes for the coloured text that
/// comes back. The source of `colorful` writes the background selector
/// `ESC [ 4 8 ; 2 ;`, the colour as `r;g;b`, `m`, the text, and the reset
/// `ESC [ 0 m`; it consults neither the terminal nor the environment.
#[verifier::external_body]
pub(crate) fn colored_space(r: u8, g: u8, b: u8) -> (cell: String)
    ensures
        cell@ == background_cell(r, g, b),
{
    colorful::Colorful::bg_color(" ", colorful::RGB::new(r, g, b)).to_string()
}

} // verus!
