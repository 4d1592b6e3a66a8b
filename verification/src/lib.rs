//! Heap-allocation core of a small x86-64 kernel.
//!
//! The library models the kernel's dynamic-memory subsystem over plain
//! addresses: a heap is a contiguous window of the address space, and every
//! allocation strategy hands out machine-word addresses inside that window.  Free
//! memory is tracked as `(start, size)` records rather than as intrusive
//! nodes written into the free memory itself, so every placement decision is
//! ordinary arithmetic that can be specified and proved.  The raw-memory
//! reinterpretation, the memory mapping that backs the window, and all
//! hardware access stay in the surrounding unverified shell.

#![allow(unused_imports)]
use vstd::prelude::*;

pub mod allocator;
pub mod driver;
pub mod interrupts;
pub mod memory;
pub mod task;
pub mod vga_buffer;

verus! {

/// Exit codes the kernel writes to the emulator's debug-exit port to end a
/// run.  The values are offset so neither collides with the emulator's own
/// exit codes; the port write itself is the shell's.
#[derive(Debug, Clone, Copy, PartialEq, Eq, Structural)]
pub enum QemuExitCode {
    Success,
    Failed,
}

impl QemuExitCode {
    /// The value written to the exit port for this outcome.
    pub fn code(self) -> (r: u32)
        ensures
            self is Success ==> r == 0x10,
            self is Failed ==> r == 0x11,
    {
        match self {
            QemuExitCode::Success => 0x10,
            QemuExitCode::Failed => 0x11,
        }
    }
}

} // verus!
