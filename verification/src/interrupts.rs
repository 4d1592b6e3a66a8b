//! Interrupt dispatch configuration.
//!
//! The hardware side -- loading the table into the CPU, acknowledging the
//! interrupt controller, reading the keyboard port -- belongs to the
//! unverified shell.  What is decided here, and verified, is the table the
//! kernel installs: which vector each handler serves and which handler runs
//! on the double-fault stack.

use vstd::prelude::*;

verus! {

/// First vector of the primary interrupt controller.  Vectors below 32
/// belong to CPU exceptions, so hardware interrupts are offset past them.
pub const PIC_1_OFFSET: u8 = 32;

/// First vector of the secondary controller, eight lines above the primary.
pub const PIC_2_OFFSET: u8 = PIC_1_OFFSET + 8;

/// Hardware interrupts the kernel serves, by controller line.
#[derive(Clone, Copy, Debug)]
pub enum InterruptIndex {
    Timer,
    Keyboard,
}

impl InterruptIndex {
    /// The interrupt's vector number: its line, offset by the controller's
    /// base.
    pub open spec fn spec_vector(self) -> u8 {
        match self {
            InterruptIndex::Timer => 32,
            InterruptIndex::Keyboard => 33,
        }
    }

    /// The vector as a byte, for programming the controller.
    pub fn as_u8(self) -> (r: u8)
        ensures
            r == self.spec_vector(),
    {
        match self {
            InterruptIndex::Timer => PIC_1_OFFSET,
            InterruptIndex::Keyboard => PIC_1_OFFSET + 1,
        }
    }

    /// The vector widened to an index, for addressing the dispatch table.
    pub fn as_usize(self) -> (r: usize)
        ensures
            r == self.spec_vector(),
    {
        self.as_u8() as usize
    }
}

/// The handlers the kernel installs.
#[derive(Clone, Copy, PartialEq, Eq, Structural, Debug)]
pub enum HandlerKind {
    Breakpoint,
    DoubleFault,
    PageFault,
    Timer,
    Keyboard,
}

/// One slot of the interrupt descriptor table: the vector, the handler
/// installed there, and whether the CPU must switch to the dedicated
/// double-fault stack before running it.
#[derive(Clone, Copy, PartialEq, Eq, Structural, Debug)]
pub struct IdtEntry {
    pub vector: u8,
    pub handler: HandlerKind,
    pub uses_fault_stack: bool,
}

/// The dispatch table the kernel runs with: the breakpoint, double-fault and
/// page-fault exceptions, and the two hardware interrupt lines.  Only the
/// double fault switches stacks, so a stack overflow cannot corrupt its
/// handler's own stack.
pub open spec fn idt_layout() -> Seq<IdtEntry> {
    seq![
        IdtEntry { vector: 3, handler: HandlerKind::Breakpoint, uses_fault_stack: false },
        IdtEntry { vector: 8, handler: HandlerKind::DoubleFault, uses_fault_stack: true },
        IdtEntry { vector: 14, handler: HandlerKind::PageFault, uses_fault_stack: false },
        IdtEntry { vector: 32, handler: HandlerKind::Timer, uses_fault_stack: false },
        IdtEntry { vector: 33, handler: HandlerKind::Keyboard, uses_fault_stack: false },
    ]
}

/// Builds the dispatch table for the shell to load into the CPU.
pub fn init_idt() -> (t: Vec<IdtEntry>)
    ensures
        t@ == idt_layout(),
{
    let mut t: Vec<IdtEntry> = Vec::new();
    t.push(IdtEntry { vector: 3, handler: HandlerKind::Breakpoint, uses_fault_stack: false });
    t.push(IdtEntry { vector: 8, handler: HandlerKind::DoubleFault, uses_fault_stack: true });
    t.push(IdtEntry { vector: 14, handler: HandlerKind::PageFault, uses_fault_stack: false });
    t.push(IdtEntry { vector: InterruptIndex::Timer.as_u8(), handler: HandlerKind::Timer,
        uses_fault_stack: false });
    t.push(IdtEntry { vector: InterruptIndex::Keyboard.as_u8(), handler: HandlerKind::Keyboard,
        uses_fault_stack: false });
    proof {
        assert(t@ =~= idt_layout());
    }
    t
}

} // verus!
