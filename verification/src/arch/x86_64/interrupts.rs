use vstd::prelude::*;

verus! {

/// The interrupts that the local interrupt controller raises.
#[derive(Debug, Clone, Copy)]
pub enum InterruptIndex {
    Timer,
    Error,
    Spurious,
}

impl InterruptIndex {
    /// The number of the vector that the interrupt is delivered on.
    pub open spec fn vector(self) -> u8 {
        match self {
            InterruptIndex::Timer => 0xfe,
            InterruptIndex::Error => 0x31,
            InterruptIndex::Spurious => 0xff,
        }
    }

    /// The vector as a byte, as the interrupt controller takes it.
    pub fn as_u8(self) -> (result: u8)
        ensures
            result == self.vector(),
    {
        match self {
            InterruptIndex::Timer => 0xfe,
            InterruptIndex::Error => 0x31,
            InterruptIndex::Spurious => 0xff,
        }
    }

    /// The vector as an index into the table of handlers.
    pub fn as_usize(self) -> (result: usize)
        ensures
            result == self.vector(),
    {
        usize::from(self.as_u8())
    }
}

} // verus!
