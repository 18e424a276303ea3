use vstd::prelude::*;

verus! {

/// A colour with an alpha channel, eight bits a channel.
#[derive(Debug, Default, Copy, Clone, PartialEq, Eq, Structural)]
pub struct Color {
    pub red: u8,
    pub green: u8,
    pub blue: u8,
    pub alpha: u8,
}

/// The fully transparent black.
pub open spec fn spec_empty() -> Color {
    Color { red: 0, green: 0, blue: 0, alpha: 0 }
}

/// The opaque white.
pub open spec fn spec_full() -> Color {
    Color { red: 255, green: 255, blue: 255, alpha: 255 }
}

impl Color {
    pub fn new(red: u8, green: u8, blue: u8, alpha: u8) -> (c: Self)
        ensures
            c == (Color { red, green, blue, alpha }),
    {
        Color { red, green, blue, alpha }
    }

    pub fn empty() -> (c: Self)
        ensures
            c == spec_empty(),
    {
        Color { red: 0, green: 0, blue: 0, alpha: 0 }
    }

    pub fn full() -> (c: Self)
        ensures
            c == spec_full(),
    {
        Color { red: 255, green: 255, blue: 255, alpha: 255 }
    }
}

} // verus!
