//! Identity of a GPIO line.

use vstd::prelude::*;

verus! {

/// A physical pin: the chip that carries it and its offset on that chip.
#[derive(Clone, Copy, Debug, Eq, PartialEq, Hash, Ord, PartialOrd)]
pub struct GpioPin {
    pub chip: u8,
    pub offset: u8,
}

} // verus!
