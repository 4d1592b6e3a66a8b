//! Keyboard input path.
//!
//! The keyboard interrupt handler reads one scancode from the controller
//! port and must finish quickly, so it only pushes the byte into a bounded
//! queue; an asynchronous task drains the queue, decodes the bytes into keys
//! and renders them.  The port read, the waking of the task and the decoding
//! tables are the shell's; the queue discipline and the rendering decision
//! are verified here.  In the kernel the queue is preallocated so the
//! handler never allocates.

use vstd::prelude::*;
use std::collections::VecDeque;

verus! {

/// How many scancodes may wait in the queue before input is dropped.
pub const SCANCODE_QUEUE_CAPACITY: usize = 100;

/// The make-code the keyboard sends for backspace.
pub const BACKSPACE_SCANCODE: u8 = 0x0E;

/// The stream of scancodes on their way from the interrupt handler to the
/// rendering task: a bounded queue drained front first.
pub struct ScancodeStream {
    queue: VecDeque<u8>,
}

impl View for ScancodeStream {
    type V = Seq<u8>;

    closed spec fn view(&self) -> Seq<u8> {
        self.queue@
    }
}

impl ScancodeStream {
    /// Creates the stream with an empty queue.
    pub fn new() -> (r: ScancodeStream)
        ensures
            r@ == Seq::<u8>::empty(),
    {
        ScancodeStream { queue: VecDeque::with_capacity(SCANCODE_QUEUE_CAPACITY) }
    }

    /// Accepts one scancode from the interrupt handler.  A full queue drops
    /// the byte and reports it, so the handler can warn instead of blocking.
    pub fn add_scancode(&mut self, scancode: u8) -> (accepted: bool)
        ensures
            accepted <==> old(self)@.len() < SCANCODE_QUEUE_CAPACITY,
            accepted ==> final(self)@ == old(self)@.push(scancode),
            !accepted ==> final(self)@ == old(self)@,
    {
        if self.queue.len() < SCANCODE_QUEUE_CAPACITY {
            self.queue.push_back(scancode);
            true
        } else {
            false
        }
    }

    /// One poll of the stream: the scancode waiting longest, or nothing when
    /// the queue is empty and the draining task parks until woken.
    pub fn poll_next(&mut self) -> (r: Option<u8>)
        ensures
            match r {
                Some(scancode) => old(self)@.len() > 0 && scancode == old(self)@[0] && final(
                    self)@ == old(self)@.skip(1),
                None => old(self)@.len() == 0 && final(self)@ == old(self)@,
            },
    {
        self.queue.pop_front()
    }
}

/// Whether a scancode's key is rendered as text.  The backspace make-code is
/// handled as an edit of the screen instead of being printed.
pub fn should_render(scancode: u8) -> (r: bool)
    ensures
        r <==> scancode != BACKSPACE_SCANCODE,
{
    scancode != BACKSPACE_SCANCODE
}

} // verus!
