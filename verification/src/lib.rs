//! Core execution engine of a PlayStation 1 emulator: a MIPS R3000A-style
//! CPU with branch-delay semantics and precise exception delivery, its system
//! control coprocessor, a region-mapped memory bus, three hardware timers and
//! a minimal GPU command dispatcher writing RGB555 pixels into VRAM.
//!
//! Every state transition is specified against a mathematical view of the
//! machine (`view()` on each component) and verified against it.

pub mod bus;
pub mod cop0;
pub mod gpu;
pub mod cpu;
pub mod exe;
pub mod interrupts;
pub mod timer;

use vstd::prelude::*;

verus! {

/// A byte buffer of length `n` filled with zeroes, used to back the
/// memory regions and VRAM.
pub fn zero_bytes(n: usize) -> (v: Vec<u8>)
    ensures
        v@.len() == n,
        forall|j: int| 0 <= j < n ==> v@[j] == 0u8,
{
    let mut v: Vec<u8> = Vec::new();
    let mut i: usize = 0;
    while i < n
        invariant
            i <= n,
            v@.len() == i,
            forall|j: int| 0 <= j < i ==> v@[j] == 0u8,
        decreases n - i,
    {
        v.push(0);
        i = i + 1;
    }
    v
}

} // verus!
