use vstd::prelude::*;

verus! {

/// The packed 32-bit colour value for the given red, green and blue
/// components: lowest byte red, then green, then blue, with the alpha byte
/// fixed at full opacity.
pub open spec fn packed_colour(r: u8, g: u8, b: u8) -> u32 {
    (0xff00_0000u32 + (b as u32) * 0x1_0000 + (g as u32) * 0x100 + (r as u32)) as u32
}

/// Generate a u32 compatible with the presentation arrays from colour
/// components.
pub fn colour(r: u8, g: u8, b: u8) -> (c: u32)
    ensures
        c == packed_colour(r, g, b),
{
    0xff00_0000u32 + (b as u32) * 0x1_0000 + (g as u32) * 0x100 + (r as u32)
}

/// Basic colours for convenience.
///
/// Use into() to convert to a u32.
pub enum Colour {
    Black,
    Red,
    Green,
    Yellow,
    Blue,
    Magenta,
    Cyan,
    White,
}

/// The packed value that each basic colour converts to.
pub open spec fn colour_value(c: Colour) -> u32 {
    match c {
        Colour::Black => packed_colour(0, 0, 0),
        Colour::Red => packed_colour(255, 0, 0),
        Colour::Green => packed_colour(0, 255, 0),
        Colour::Yellow => packed_colour(255, 255, 0),
        Colour::Blue => packed_colour(0, 0, 255),
        Colour::Magenta => packed_colour(255, 0, 255),
        Colour::Cyan => packed_colour(0, 255, 255),
        Colour::White => packed_colour(255, 255, 255),
    }
}

impl From<Colour> for u32 {
    fn from(c: Colour) -> (v: u32) {
        match c {
            Colour::Black => colour(0, 0, 0),
            Colour::Red => colour(255, 0, 0),
            Colour::Green => colour(0, 255, 0),
            Colour::Yellow => colour(255, 255, 0),
            Colour::Blue => colour(0, 0, 255),
            Colour::Magenta => colour(255, 0, 255),
            Colour::Cyan => colour(0, 255, 255),
            Colour::White => colour(255, 255, 255),
        }
    }
}

impl vstd::std_specs::convert::FromSpecImpl<Colour> for u32 {
    open spec fn obeys_from_spec() -> bool {
        true
    }

    open spec fn from_spec(c: Colour) -> u32 {
        colour_value(c)
    }
}

} // verus!
