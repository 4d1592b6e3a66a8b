//! Linked-list allocator: first-fit over a chain of free regions.
//!
//! In the running kernel the chain lives inside the free memory itself, each
//! node carrying its size and the link to the next node.  Here a free region
//! is a plain `(start, size)` record and the chain is the order of a vector,
//! index zero being the head; reinterpreting free memory as nodes is left to
//! the unverified shell.  List order is behaviour, not bookkeeping: requests
//! are served by the first region they fit in, freed regions are pushed to
//! the front, and adjacent free regions are never merged, so fragmentation
//! accumulates by design.

use vstd::prelude::*;
use crate::allocator::{is_alignment, spec_align_up, align_up, lemma_alignment_pos,
    lemma_align_up_properties, lemma_align_up_unrepresentable};

verus! {

/// Bytes a free node needs for its own bookkeeping: its size and the link to
/// the next node, two machine words.  A remainder narrower than this cannot
/// be tracked and is folded into the neighbouring allocation.
pub const NODE_SIZE: u64 = 16;

/// One free region of the heap.
#[derive(Clone, Copy, PartialEq, Eq, Structural)]
pub struct Region {
    pub start: u64,
    pub size: u64,
}

/// One past the last address of a region.
pub open spec fn region_end(r: Region) -> int {
    r.start + r.size
}

/// A request `(size, align)` fits in `r` when the rounded-up start plus the
/// requested size stays inside the region.
pub open spec fn region_usable(r: Region, size: int, align: int) -> bool {
    spec_align_up(r.start as int, align) + size <= region_end(r)
}

/// Index of the first region, in list order, that the request fits in.
pub open spec fn spec_first_fit(rs: Seq<Region>, size: int, align: int) -> Option<int>
    decreases rs.len(),
{
    if rs.len() == 0 {
        None
    } else if region_usable(rs[0], size, align) {
        Some(0)
    } else {
        match spec_first_fit(rs.skip(1), size, align) {
            Some(i) => Some(i + 1),
            None => None,
        }
    }
}

/// What is left of region `r` after carving the allocation out of it: the
/// leading gap below the aligned start and the trailing remainder above the
/// allocation, each kept only when wide enough to host a node.
pub open spec fn split_remainders(r: Region, size: int, align: int) -> Seq<Region> {
    let p = spec_align_up(r.start as int, align);
    let lead = p - r.start;
    let tail = region_end(r) - (p + size);
    let lead_part: Seq<Region> = if lead >= NODE_SIZE {
        seq![Region { start: r.start, size: lead as u64 }]
    } else {
        Seq::empty()
    };
    let tail_part: Seq<Region> = if tail >= NODE_SIZE {
        seq![Region { start: (p + size) as u64, size: tail as u64 }]
    } else {
        Seq::empty()
    };
    lead_part + tail_part
}

/// The list after serving the request from region `i`: that region leaves
/// the list and its remainders are pushed to the front, leading gap first.
pub open spec fn list_after_alloc(rs: Seq<Region>, i: int, size: int, align: int) -> Seq<Region> {
    split_remainders(rs[i], size, align) + rs.remove(i)
}

/// Everything one call of `allocate` does, as a relation between the list
/// before (`pre`), the list after (`post`) and the result handed out.
pub open spec fn list_alloc_post(
    pre: Seq<Region>,
    post: Seq<Region>,
    size: int,
    align: int,
    r: Option<u64>,
) -> bool {
    &&& (r is Some <==> spec_first_fit(pre, size, align) is Some)
    &&& match spec_first_fit(pre, size, align) {
        Some(i) => r == Some(spec_align_up(pre[i].start as int, align) as u64) && post
            == list_after_alloc(pre, i, size, align),
        None => post == pre,
    }
}

/// Every region of the list lies inside `[lo, hi]`.
pub open spec fn regions_within(rs: Seq<Region>, lo: int, hi: int) -> bool {
    forall|j: int| 0 <= j < rs.len() ==> lo <= (#[trigger] rs[j]).start && region_end(rs[j]) <= hi
}

/// Linked-list allocator state: the free regions in list order, head first.
pub struct LinkedListAllocator {
    regions: Vec<Region>,
}

impl View for LinkedListAllocator {
    type V = Seq<Region>;

    closed spec fn view(&self) -> Seq<Region> {
        self.regions@
    }
}

impl LinkedListAllocator {
    /// The allocator never tracks a region that leaves the address space.
    pub open spec fn wf(&self) -> bool {
        regions_within(self@, 0, u64::MAX as int)
    }

    /// Creates an allocator with an empty free list.
    pub fn new() -> (r: Self)
        ensures
            r@ == Seq::<Region>::empty(),
            r.wf(),
    {
        LinkedListAllocator { regions: Vec::new() }
    }

    /// Registers the free region `[start, start + size)` at the front of the
    /// list.
    fn add_free_region(&mut self, start: u64, size: u64)
        requires
            start + size <= u64::MAX,
        ensures
            final(self)@ == seq![Region { start, size }] + old(self)@,
            old(self).wf() ==> final(self).wf(),
    {
        self.regions.insert(0, Region { start, size });
        proof {
            assert(final(self)@ =~= seq![Region { start, size }] + old(self)@);
        }
    }

    /// Initializes the allocator with the given heap bounds: one free node
    /// spanning the whole heap.
    ///
    /// The caller must have provisioned `[heap_start, heap_start + heap_size)`
    /// as unused, mapped memory, and must call this only once.
    pub fn init(&mut self, heap_start: u64, heap_size: u64)
        requires
            heap_start + heap_size <= u64::MAX,
        ensures
            final(self)@ == seq![Region { start: heap_start, size: heap_size }] + old(self)@,
            old(self).wf() ==> final(self).wf(),
    {
        self.add_free_region(heap_start, heap_size);
    }

    /// Index of the first region the request fits in, scanning in list order.
    fn find_region(&self, size: u64, align: u64) -> (r: Option<usize>)
        requires
            self.wf(),
            is_alignment(align),
        ensures
            match r {
                Some(i) => spec_first_fit(self@, size as int, align as int) == Some(i as int),
                None => spec_first_fit(self@, size as int, align as int) is None,
            },
    {
        proof {
            lemma_alignment_pos(align);
        }
        let mut idx: usize = 0;
        while idx < self.regions.len()
            invariant
                self.wf(),
                is_alignment(align),
                align >= 1,
                0 <= idx <= self@.len(),
                forall|j: int| 0 <= j < idx ==> !region_usable(
                    #[trigger] self@[j], size as int, align as int),
            decreases self@.len() - idx,
        {
            let reg = self.regions[idx];
            proof {
                lemma_align_up_properties(reg.start as int, align as int);
            }
            let usable: bool = match reg.start.checked_add(align - 1) {
                None => {
                    proof {
                        lemma_align_up_unrepresentable(reg.start, align);
                    }
                    false
                },
                Some(_) => {
                    let aligned = align_up(reg.start, align);
                    match aligned.checked_add(size) {
                        None => false,
                        Some(end_wanted) => end_wanted <= reg.start + reg.size,
                    }
                },
            };
            if usable {
                proof {
                    lemma_first_fit_found(self@, size as int, align as int, idx as int);
                }
                return Some(idx);
            }
            idx = idx + 1;
        }
        proof {
            lemma_first_fit_exhausted(self@, size as int, align as int);
        }
        None
    }

    /// Serves `(size, align)` first-fit: scans the list head to tail, takes
    /// the first region the request fits in, re-registers the remainders
    /// wide enough to host a node, and returns the aligned start.  Fails
    /// exactly when no single region fits the request, leaving the list
    /// untouched.
    pub fn allocate(&mut self, size: u64, align: u64) -> (r: Option<u64>)
        requires
            old(self).wf(),
            is_alignment(align),
        ensures
            final(self).wf(),
            list_alloc_post(old(self)@, final(self)@, size as int, align as int, r),
            r matches Some(p) ==> {
                &&& spec_first_fit(old(self)@, size as int, align as int) matches Some(i)
                    && old(self)@[i].start <= p && p + size <= region_end(old(self)@[i])
                &&& p as int % align as int == 0
            },
    {
        proof {
            lemma_alignment_pos(align);
        }
        match self.find_region(size, align) {
            None => None,
            Some(i) => {
                let ghost rs = self@;
                let ghost gi = i as int;
                proof {
                    lemma_first_fit_in_range(rs, size as int, align as int);
                }
                let reg = self.regions[i];
                proof {
                    lemma_align_up_properties(reg.start as int, align as int);
                    if reg.start + align - 1 > u64::MAX {
                        lemma_align_up_unrepresentable(reg.start, align);
                    }
                }
                let alloc_start = align_up(reg.start, align);
                let alloc_end = alloc_start + size;
                let reg_end = reg.start + reg.size;
                self.regions.remove(i);
                let tail = reg_end - alloc_end;
                if tail >= NODE_SIZE {
                    self.regions.insert(0, Region { start: alloc_end, size: tail });
                }
                let lead = alloc_start - reg.start;
                if lead >= NODE_SIZE {
                    self.regions.insert(0, Region { start: reg.start, size: lead });
                }
                proof {
                    assert(self@ =~= list_after_alloc(rs, gi, size as int, align as int));
                    lemma_alloc_keeps_regions_within(
                        rs, gi, size as int, align as int, 0, u64::MAX as int);
                }
                Some(alloc_start)
            },
        }
    }

    /// Frees `[ptr, ptr + size)` by wrapping it as a new node pushed to the
    /// front of the list, so the most recently freed region is reused first.
    /// Adjacent free regions are deliberately not merged.  The alignment of
    /// the allocating request plays no part here.
    pub fn deallocate(&mut self, ptr: u64, size: u64, _align: u64)
        requires
            ptr + size <= u64::MAX,
        ensures
            final(self)@ == seq![Region { start: ptr, size }] + old(self)@,
            old(self).wf() ==> final(self).wf(),
    {
        self.add_free_region(ptr, size);
    }
}

/// A scan that found a fit at `i`, having rejected everything before it, has
/// found the first fit.
proof fn lemma_first_fit_found(rs: Seq<Region>, size: int, align: int, i: int)
    requires
        0 <= i < rs.len(),
        region_usable(rs[i], size, align),
        forall|j: int| 0 <= j < i ==> !region_usable(#[trigger] rs[j], size, align),
    ensures
        spec_first_fit(rs, size, align) == Some(i),
    decreases rs.len(),
{
    if i > 0 {
        lemma_first_fit_found(rs.skip(1), size, align, i - 1);
    }
}

/// A scan that rejected every region proves there is no fit.
proof fn lemma_first_fit_exhausted(rs: Seq<Region>, size: int, align: int)
    requires
        forall|j: int| 0 <= j < rs.len() ==> !region_usable(#[trigger] rs[j], size, align),
    ensures
        spec_first_fit(rs, size, align) is None,
    decreases rs.len(),
{
    if rs.len() > 0 {
        lemma_first_fit_exhausted(rs.skip(1), size, align);
    }
}

/// The first fit, when there is one, names a usable region of the list.
pub proof fn lemma_first_fit_in_range(rs: Seq<Region>, size: int, align: int)
    ensures
        match spec_first_fit(rs, size, align) {
            Some(i) => 0 <= i < rs.len() && region_usable(rs[i], size, align),
            None => true,
        },
    decreases rs.len(),
{
    if rs.len() > 0 && !region_usable(rs[0], size, align) {
        lemma_first_fit_in_range(rs.skip(1), size, align);
    }
}

/// Carving an allocation out of region `i` only ever creates regions lying
/// inside the old region `i`, so whatever window held the old list holds the
/// new one.
pub proof fn lemma_alloc_keeps_regions_within(
    rs: Seq<Region>,
    i: int,
    size: int,
    align: int,
    lo: int,
    hi: int,
)
    requires
        0 <= i < rs.len(),
        regions_within(rs, lo, hi),
        region_usable(rs[i], size, align),
        size >= 0,
        align >= 1,
        hi <= u64::MAX,
    ensures
        regions_within(list_after_alloc(rs, i, size, align), lo, hi),
{
    lemma_align_up_properties(rs[i].start as int, align);
    let shed = split_remainders(rs[i], size, align);
    let out = list_after_alloc(rs, i, size, align);
    let p = spec_align_up(rs[i].start as int, align);
    let lead = p - rs[i].start;
    let tail = region_end(rs[i]) - (p + size);
    assert forall|j: int|
        0 <= j < out.len() implies lo <= (#[trigger] out[j]).start && region_end(out[j]) <= hi by {
        if j >= shed.len() {
            let k = j - shed.len();
            assert(out[j] == rs.remove(i)[k]);
            if k < i {
                assert(rs.remove(i)[k] == rs[k]);
            } else {
                assert(rs.remove(i)[k] == rs[k + 1]);
            }
        } else {
            if lead >= NODE_SIZE && j == 0 {
                assert(out[j] == Region { start: rs[i].start, size: lead as u64 });
                assert(region_end(out[j]) == p);
            } else {
                assert(out[j] == Region { start: (p + size) as u64, size: tail as u64 });
                assert(region_end(out[j]) == region_end(rs[i]));
            }
        }
    }
}

/// Round trip of a freed block: a block that sat at an aligned address and
/// was pushed back to the front of the list is handed straight back, at the
/// same address, by the next request of the same size and alignment --
/// whatever the rest of the list holds.
pub proof fn lemma_free_block_round_trips(rs: Seq<Region>, p: u64, size: u64, align: int)
    requires
        align >= 1,
        p as int % align == 0,
        p + size <= u64::MAX,
    ensures
        spec_first_fit(seq![Region { start: p, size }] + rs, size as int, align) == Some(0int),
        spec_align_up(p as int, align) == p as int,
{
    lemma_align_up_properties(p as int, align);
    let rs2 = seq![Region { start: p, size }] + rs;
    assert(rs2[0] == Region { start: p, size });
    assert(region_usable(rs2[0], size as int, align));
}

/// Full round trip: when a request succeeds somewhere in the list, the
/// address it returns is one that, once its block is freed back to the
/// front, every later identical request finds again at the head of the scan
/// -- whatever the rest of the list has become in between.  A single free
/// region therefore round-trips through allocate and deallocate unchanged.
pub proof fn lemma_list_round_trip(rs: Seq<Region>, size: u64, align: u64)
    requires
        align >= 1,
        regions_within(rs, 0, u64::MAX as int),
        spec_first_fit(rs, size as int, align as int) is Some,
    ensures
        ({
            let i = spec_first_fit(rs, size as int, align as int)->Some_0;
            let p = spec_align_up(rs[i].start as int, align as int) as u64;
            forall|rest: Seq<Region>|
                #[trigger] spec_first_fit(
                    seq![Region { start: p, size }] + rest, size as int, align as int)
                    == Some(0int)
        }),
{
    lemma_first_fit_in_range(rs, size as int, align as int);
    let i = spec_first_fit(rs, size as int, align as int)->Some_0;
    lemma_align_up_properties(rs[i].start as int, align as int);
    let p = spec_align_up(rs[i].start as int, align as int) as u64;
    assert forall|rest: Seq<Region>|
        #[trigger] spec_first_fit(seq![Region { start: p, size }] + rest, size as int, align as int)
            == Some(0int) by {
        lemma_free_block_round_trips(rest, p, size, align as int);
    }
}

/// An oversize request fails: when every single free region is smaller than
/// the request, no allocation is possible, no matter how much free memory
/// the regions hold together.  Fragmentation is observable, not hidden.
pub proof fn lemma_oversize_request_fails(rs: Seq<Region>, size: int, align: int)
    requires
        align >= 1,
        forall|j: int| 0 <= j < rs.len() ==> (#[trigger] rs[j]).size < size,
    ensures
        spec_first_fit(rs, size, align) is None,
{
    assert forall|j: int| 0 <= j < rs.len() implies !region_usable(
        #[trigger] rs[j], size, align) by {
        lemma_align_up_properties(rs[j].start as int, align);
    }
    lemma_first_fit_exhausted(rs, size, align);
}

} // verus!
