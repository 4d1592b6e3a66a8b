//! Bump allocator: the simplest strategy.
//!
//! A cursor (`next`) advances monotonically through the heap window; freed
//! memory is never reused individually.  A counter tracks the live
//! allocations, and only when it returns to zero is the whole window
//! reclaimed by resetting the cursor to the start of the heap.

use vstd::prelude::*;
use crate::allocator::{is_alignment, spec_align_up, align_up, lemma_alignment_pos,
    lemma_align_up_properties, lemma_align_up_unrepresentable};

verus! {

/// Mathematical state of a bump allocator.
pub struct BumpModel {
    pub heap_start: int,
    pub heap_end: int,
    pub next: int,
    pub allocations: nat,
}

impl BumpModel {
    /// The states a bump allocator can actually be in: the cursor stays
    /// inside the heap window, and full quiescence means a reset cursor.
    pub open spec fn wf(self) -> bool {
        &&& 0 <= self.heap_start <= self.next <= self.heap_end <= u64::MAX
        &&& self.allocations <= u64::MAX
        &&& self.allocations == 0 ==> self.next == self.heap_start
    }
}

/// A request `(size, align)` succeeds exactly when the rounded-up cursor
/// still leaves `size` bytes before the end of the heap.
pub open spec fn bump_can_alloc(m: BumpModel, size: int, align: int) -> bool {
    spec_align_up(m.next, align) + size <= m.heap_end
}

/// State after a successful allocation: the cursor moves past the new block
/// and one more allocation is outstanding.
pub open spec fn bump_after_alloc(m: BumpModel, size: int, align: int) -> BumpModel {
    BumpModel {
        next: spec_align_up(m.next, align) + size,
        allocations: m.allocations + 1,
        ..m
    }
}

/// State after a deallocation: one less allocation is outstanding, and the
/// cursor resets to the start of the heap exactly on reaching quiescence.
pub open spec fn bump_after_dealloc(m: BumpModel) -> BumpModel {
    BumpModel {
        next: if m.allocations == 1 { m.heap_start } else { m.next },
        allocations: (m.allocations - 1) as nat,
        ..m
    }
}

/// Everything one call of `allocate` does, as a relation between the state
/// before (`pre`), the state after (`post`) and the result handed out.
pub open spec fn bump_alloc_post(
    pre: BumpModel,
    post: BumpModel,
    size: int,
    align: int,
    r: Option<u64>,
) -> bool {
    &&& (r is Some <==> bump_can_alloc(pre, size, align))
    &&& match r {
        Some(p) => p == spec_align_up(pre.next, align) && post == bump_after_alloc(
            pre, size, align),
        None => post == pre,
    }
}

/// Bump allocator state: heap bounds, the advancing cursor, and the number
/// of outstanding allocations.
pub struct BumpAllocator {
    heap_start: u64,
    heap_end: u64,
    next: u64,
    allocations: u64,
}

impl View for BumpAllocator {
    type V = BumpModel;

    closed spec fn view(&self) -> BumpModel {
        BumpModel {
            heap_start: self.heap_start as int,
            heap_end: self.heap_end as int,
            next: self.next as int,
            allocations: self.allocations as nat,
        }
    }
}

impl BumpAllocator {
    /// Creates a new empty bump allocator.
    pub fn new() -> (r: Self)
        ensures
            r@ == (BumpModel { heap_start: 0, heap_end: 0, next: 0, allocations: 0 }),
            r@.wf(),
    {
        BumpAllocator { heap_start: 0, heap_end: 0, next: 0, allocations: 0 }
    }

    /// Initializes the bump allocator with the given heap bounds.
    ///
    /// The caller must have provisioned `[heap_start, heap_start + heap_size)`
    /// as unused, mapped memory, and must call this only once.
    pub fn init(&mut self, heap_start: u64, heap_size: u64)
        requires
            old(self)@.allocations == 0,
            heap_start + heap_size <= u64::MAX,
        ensures
            final(self)@ == (BumpModel {
                heap_start: heap_start as int,
                heap_end: heap_start + heap_size,
                next: heap_start as int,
                allocations: 0,
            }),
            final(self)@.wf(),
    {
        self.heap_start = heap_start;
        self.heap_end = heap_start + heap_size;
        self.next = heap_start;
    }

    /// Serves `(size, align)` by rounding the cursor up to `align` and, when
    /// the block still fits below the end of the heap, committing the cursor
    /// past it.  Fails (returns `None`) exactly when the rounded cursor plus
    /// `size` overshoots the heap, leaving the state untouched.
    pub fn allocate(&mut self, size: u64, align: u64) -> (r: Option<u64>)
        requires
            old(self)@.wf(),
            is_alignment(align),
            old(self)@.allocations < u64::MAX,
        ensures
            final(self)@.wf(),
            bump_alloc_post(old(self)@, final(self)@, size as int, align as int, r),
            r matches Some(p) ==> {
                &&& p as int % align as int == 0
                &&& old(self)@.next <= p
                &&& p + size <= old(self)@.heap_end
            },
    {
        proof {
            lemma_alignment_pos(align);
            lemma_align_up_properties(self@.next, align as int);
        }
        let alloc_start: u64 = match self.next.checked_add(align - 1) {
            Some(_) => align_up(self.next, align),
            None => {
                proof {
                    lemma_align_up_unrepresentable(self.next, align);
                }
                return None;
            },
        };
        match alloc_start.checked_add(size) {
            Some(alloc_end) => {
                if alloc_end > self.heap_end {
                    None
                } else {
                    self.next = alloc_end;
                    self.allocations = self.allocations + 1;
                    Some(alloc_start)
                }
            },
            None => None,
        }
    }

    /// The number of outstanding allocations.
    pub fn outstanding(&self) -> (r: u64)
        ensures
            r == self@.allocations,
    {
        self.allocations
    }

    /// Releases one allocation.  No memory is recovered until the counter
    /// returns to zero, at which point the cursor resets to the start of the
    /// heap and the whole window is reclaimed at once.  The pointer and
    /// layout of the freed block play no part in this strategy.
    pub fn deallocate(&mut self, _ptr: u64, _size: u64, _align: u64)
        requires
            old(self)@.allocations >= 1,
        ensures
            final(self)@ == bump_after_dealloc(old(self)@),
            old(self)@.wf() ==> final(self)@.wf(),
    {
        self.allocations = self.allocations - 1;
        if self.allocations == 0 {
            self.next = self.heap_start;
        }
    }
}

/// State after a whole batch of allocation requests, served left to right.
pub open spec fn bump_after_allocs(m: BumpModel, reqs: Seq<(int, int)>) -> BumpModel
    decreases reqs.len(),
{
    if reqs.len() == 0 {
        m
    } else {
        bump_after_allocs(bump_after_alloc(m, reqs[0].0, reqs[0].1), reqs.skip(1))
    }
}

/// State after `n` deallocations.
pub open spec fn bump_after_deallocs(m: BumpModel, n: nat) -> BumpModel
    decreases n,
{
    if n == 0 {
        m
    } else {
        bump_after_deallocs(bump_after_dealloc(m), (n - 1) as nat)
    }
}

/// A batch of allocations raises the outstanding count by its length and
/// touches neither heap bound.
proof fn lemma_bump_allocs_count(m: BumpModel, reqs: Seq<(int, int)>)
    ensures
        bump_after_allocs(m, reqs).allocations == m.allocations + reqs.len(),
        bump_after_allocs(m, reqs).heap_start == m.heap_start,
        bump_after_allocs(m, reqs).heap_end == m.heap_end,
    decreases reqs.len(),
{
    if reqs.len() > 0 {
        lemma_bump_allocs_count(bump_after_alloc(m, reqs[0].0, reqs[0].1), reqs.skip(1));
    }
}

/// Deallocating exactly as often as there are outstanding allocations
/// brings the count to zero and the cursor back to the start of the heap.
proof fn lemma_bump_deallocs_drain(m: BumpModel, n: nat)
    requires
        n == m.allocations,
        m.allocations == 0 ==> m.next == m.heap_start,
    ensures
        bump_after_deallocs(m, n).allocations == 0,
        bump_after_deallocs(m, n).next == m.heap_start,
        bump_after_deallocs(m, n).heap_start == m.heap_start,
    decreases n,
{
    if n > 0 {
        lemma_bump_deallocs_drain(bump_after_dealloc(m), (n - 1) as nat);
    }
}

/// Quiescence of the bump strategy: starting from a quiescent allocator, any
/// batch of N allocations followed by N deallocations ends with no
/// outstanding allocation and the cursor reset to the start of the heap.
/// Deallocation ignores which block is handed back, so the order of the
/// deallocations cannot matter.
pub proof fn lemma_bump_quiescence(m: BumpModel, reqs: Seq<(int, int)>)
    requires
        m.allocations == 0,
        m.next == m.heap_start,
    ensures
        ({
            let done = bump_after_deallocs(bump_after_allocs(m, reqs), reqs.len());
            &&& done.allocations == 0
            &&& done.next == m.heap_start
        }),
{
    let filled = bump_after_allocs(m, reqs);
    lemma_bump_allocs_count(m, reqs);
    if reqs.len() == 0 {
        assert(filled == m);
    }
    lemma_bump_deallocs_drain(filled, reqs.len());
}

} // verus!
