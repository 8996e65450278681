//! The interrupt controller's register pair: a status word of pending
//! request bits and a mask word gating which of them may reach the CPU.

use vstd::prelude::*;

verus! {

/// Interrupt status and mask words, as a plain pair.
#[derive(Default)]
pub struct Interrupt {
    pub stat: u32,
    pub mask: u32,
}

impl Interrupt {
    pub fn new() -> (r: Interrupt)
        ensures
            r.stat == 0u32,
            r.mask == 0u32,
    {
        Interrupt { stat: 0, mask: 0 }
    }
}

} // verus!
