use vstd::prelude::*;

verus! {

/// Width of the framebuffer in pixels.
pub const X_PIXELS: usize = 64;

/// Height of the framebuffer in pixels.
pub const Y_PIXELS: usize = 32;

/// State of one framebuffer pixel.
#[derive(Clone, Copy, Debug, PartialEq, Eq, Structural)]
pub enum OFstate {
    ON,
    OFF,
}

/// Category of a line in the on-screen log.
#[derive(Clone, Copy, Debug, PartialEq, Eq, Structural)]
pub enum TextType {
    Function,
}

impl OFstate {
    /// Whether the pixel is lit.
    pub open spec fn lit(self) -> bool {
        self == OFstate::ON
    }

    /// The pixel state that stands for `lit`.
    pub open spec fn of(lit: bool) -> OFstate {
        if lit {
            OFstate::ON
        } else {
            OFstate::OFF
        }
    }

    /// Tells whether the pixel is lit.
    pub fn is_on(self) -> (b: bool)
        ensures
            b == self.lit(),
    {
        match self {
            OFstate::ON => true,
            OFstate::OFF => false,
        }
    }

    /// The opposite state.
    pub fn toggled(self) -> (s: OFstate)
        ensures
            s.lit() == !self.lit(),
    {
        match self {
            OFstate::ON => OFstate::OFF,
            OFstate::OFF => OFstate::ON,
        }
    }
}

} // verus!
