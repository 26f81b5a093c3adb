use vstd::prelude::*;

verus! {

/// A colour with three 8-bit channels and no alpha.
#[derive(Clone, Copy, Debug, PartialEq, Eq, Structural)]
pub struct Pixel {
    pub red: u8,
    pub green: u8,
    pub blue: u8,
}

impl Pixel {
    /// The colour with every channel at zero.
    pub open spec fn black() -> Pixel {
        Pixel { red: 0, green: 0, blue: 0 }
    }

    pub fn new(red: u8, green: u8, blue: u8) -> (r: Pixel)
        ensures
            r == (Pixel { red, green, blue }),
    {
        Pixel { red, green, blue }
    }
}

} // verus!
