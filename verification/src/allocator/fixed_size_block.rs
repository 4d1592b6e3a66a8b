//! Fixed-size-block allocator: segregated free lists over size classes.
//!
//! Requests are bucketed into a fixed ascending table of power-of-two block
//! sizes; each class keeps its own stack of freed blocks, so allocation and
//! deallocation in a class are O(1).  A class block is always aligned to its
//! own size.  Requests beyond the largest class, and fresh blocks for a
//! class whose stack is empty, go to a fallback linked-list allocator.
//!
//! No per-allocation metadata is stored: a freed block finds its class by
//! re-applying the selection rule to the caller-supplied size and alignment.
//! The caller is trusted to hand back exactly the layout it allocated with;
//! that trust is spelled out in `deallocate`'s precondition.

use vstd::prelude::*;
use crate::allocator::{is_alignment, lemma_alignment_pos, lemma_alignment_divides,
    lemma_aligned_to_divisor};
use crate::allocator::linked_list::{
    LinkedListAllocator, Region, regions_within, list_alloc_post,
};
use vstd::arithmetic::power2::{pow2, lemma2_to64};

verus! {

/// Number of size classes.
pub const CLASS_COUNT: usize = 9;

/// Block size of each class: ascending powers of two from 8 to 2048 bytes.
pub open spec fn spec_block_size(c: int) -> int {
    if c == 0 {
        8
    } else if c == 1 {
        16
    } else if c == 2 {
        32
    } else if c == 3 {
        64
    } else if c == 4 {
        128
    } else if c == 5 {
        256
    } else if c == 6 {
        512
    } else if c == 7 {
        1024
    } else {
        2048
    }
}

/// Every class block size is itself a valid (power-of-two) alignment.
pub proof fn lemma_block_size_is_alignment(c: int)
    requires
        0 <= c < CLASS_COUNT,
    ensures
        is_alignment(spec_block_size(c) as u64),
        8 <= spec_block_size(c) <= 2048,
{
    lemma2_to64();
    if c == 0 {
        assert(spec_block_size(c) as u64 == pow2(3));
    } else if c == 1 {
        assert(spec_block_size(c) as u64 == pow2(4));
    } else if c == 2 {
        assert(spec_block_size(c) as u64 == pow2(5));
    } else if c == 3 {
        assert(spec_block_size(c) as u64 == pow2(6));
    } else if c == 4 {
        assert(spec_block_size(c) as u64 == pow2(7));
    } else if c == 5 {
        assert(spec_block_size(c) as u64 == pow2(8));
    } else if c == 6 {
        assert(spec_block_size(c) as u64 == pow2(9));
    } else if c == 7 {
        assert(spec_block_size(c) as u64 == pow2(10));
    } else {
        assert(spec_block_size(c) as u64 == pow2(11));
    }
}

/// Bytes a request occupies in a class block: the larger of size and
/// alignment, since a class block's address is aligned to the block size.
pub open spec fn spec_required(size: int, align: int) -> int {
    if size > align {
        size
    } else {
        align
    }
}

/// The class serving a request: the smallest class whose block size covers
/// both the size and the alignment; none beyond the largest class.
pub open spec fn spec_class_of(size: int, align: int) -> Option<int> {
    let need = spec_required(size, align);
    if need <= 8 {
        Some(0int)
    } else if need <= 16 {
        Some(1int)
    } else if need <= 32 {
        Some(2int)
    } else if need <= 64 {
        Some(3int)
    } else if need <= 128 {
        Some(4int)
    } else if need <= 256 {
        Some(5int)
    } else if need <= 512 {
        Some(6int)
    } else if need <= 1024 {
        Some(7int)
    } else if need <= 2048 {
        Some(8int)
    } else {
        None
    }
}

/// The selection rule picks the least class that covers the request, and
/// rejects exactly the requests that no class covers.
pub proof fn lemma_class_of_is_least(size: int, align: int)
    ensures
        match spec_class_of(size, align) {
            Some(c) => {
                &&& 0 <= c < CLASS_COUNT
                &&& spec_required(size, align) <= spec_block_size(c)
                &&& forall|d: int|
                    0 <= d < c ==> #[trigger] spec_block_size(d) < spec_required(size, align)
            },
            None => forall|d: int|
                0 <= d < CLASS_COUNT ==> #[trigger] spec_block_size(d) < spec_required(
                    size, align),
        },
{
}

/// Every request no larger than the smallest class shares that class, for
/// any alignment the smallest class covers.
pub proof fn lemma_small_requests_share_class(size: int, align: int)
    requires
        size <= 8,
        align <= 8,
    ensures
        spec_class_of(size, align) == Some(0int),
{
}

/// A request exceeding the largest class belongs to no class at all.
pub proof fn lemma_oversize_has_no_class(size: int, align: int)
    requires
        size > 2048 || align > 2048,
    ensures
        spec_class_of(size, align) is None,
{
}

/// A request exceeding the largest class is served by the fallback allocator
/// alone: no class stack changes, and the result is exactly what the
/// fallback's first-fit rule gives for the request.
pub proof fn lemma_oversize_uses_fallback_only(
    pre: FixedModel,
    post: FixedModel,
    size: int,
    align: int,
    r: Option<u64>,
)
    requires
        size > 2048 || align > 2048,
        fixed_alloc_post(pre, post, size, align, r),
    ensures
        post.lists == pre.lists,
        list_alloc_post(pre.fallback, post.fallback, size, align, r),
{
    lemma_oversize_has_no_class(size, align);
}

/// Pushing a freed block onto its class and serving the next request of the
/// same class hands exactly that block back, whatever else the lists hold.
pub proof fn lemma_class_block_round_trips(lists: Seq<Seq<u64>>, c: int, ptr: u64)
    requires
        0 <= c < lists.len(),
    ensures
        ({
            let pushed = lists.update(c, lists[c].push(ptr));
            pushed[c].len() > 0 && pushed[c].last() == ptr
        }),
{
}

/// Freed class block round trip, composed over one deallocation and the
/// next allocation: when both layouts select the same class, the allocation
/// returns exactly the freed block, the fallback allocator is never
/// consulted, and the class stacks end as they began.
pub proof fn lemma_fixed_round_trip(
    m0: FixedModel,
    m1: FixedModel,
    m2: FixedModel,
    ptr: u64,
    size1: u64,
    align1: u64,
    size2: int,
    align2: int,
    r: Option<u64>,
)
    requires
        m0.lists.len() == CLASS_COUNT,
        fixed_dealloc_post(m0, m1, ptr, size1, align1),
        fixed_alloc_post(m1, m2, size2, align2, r),
        spec_class_of(size1 as int, align1 as int) is Some,
        spec_class_of(size2, align2) == spec_class_of(size1 as int, align1 as int),
    ensures
        r == Some(ptr),
        m2.fallback == m0.fallback,
        m2.lists =~~= m0.lists,
{
    let c = spec_class_of(size1 as int, align1 as int)->Some_0;
    lemma_class_of_is_least(size1 as int, align1 as int);
    lemma_class_block_round_trips(m0.lists, c, ptr);
    assert(m1.lists[c].drop_last() =~= m0.lists[c]);
    assert(m2.lists =~~= m0.lists);
}

/// Mathematical state of a fixed-size-block allocator: the per-class stacks
/// of freed block addresses (most recently freed last) and the free regions
/// of the fallback allocator in list order.
pub struct FixedModel {
    pub lists: Seq<Seq<u64>>,
    pub fallback: Seq<Region>,
}

/// Every tracked class block is aligned to its class and fits the window
/// `[lo, hi]`.
pub open spec fn blocks_within(lists: Seq<Seq<u64>>, lo: int, hi: int) -> bool {
    forall|c: int, k: int|
        0 <= c < lists.len() && 0 <= k < lists[c].len() ==> {
            let p = #[trigger] lists[c][k];
            &&& p as int % spec_block_size(c) == 0
            &&& lo <= p
            &&& p + spec_block_size(c) <= hi
        }
}

/// Everything one call of `allocate` does, as a relation between the state
/// before (`pre`), the state after (`post`) and the result handed out: a
/// covered request pops its class or, on an empty class, carves one fresh
/// class-sized block from the fallback; an uncovered request goes to the
/// fallback unchanged, and no class stack is ever touched by it.
pub open spec fn fixed_alloc_post(
    pre: FixedModel,
    post: FixedModel,
    size: int,
    align: int,
    r: Option<u64>,
) -> bool {
    match spec_class_of(size, align) {
        Some(c) => {
            if pre.lists[c].len() > 0 {
                &&& r == Some(pre.lists[c].last())
                &&& post.lists == pre.lists.update(c, pre.lists[c].drop_last())
                &&& post.fallback == pre.fallback
            } else {
                &&& post.lists == pre.lists
                &&& list_alloc_post(
                    pre.fallback, post.fallback, spec_block_size(c), spec_block_size(c), r)
            }
        },
        None => {
            &&& post.lists == pre.lists
            &&& list_alloc_post(pre.fallback, post.fallback, size, align, r)
        },
    }
}

/// Everything one call of `deallocate` does: a covered block is pushed onto
/// the stack of the class its layout selects, an uncovered one is handed
/// back to the fallback allocator.
pub open spec fn fixed_dealloc_post(
    pre: FixedModel,
    post: FixedModel,
    ptr: u64,
    size: u64,
    align: u64,
) -> bool {
    match spec_class_of(size as int, align as int) {
        Some(c) => post.lists == pre.lists.update(c, pre.lists[c].push(ptr)) && post.fallback
            == pre.fallback,
        None => post.lists == pre.lists && post.fallback == seq![Region { start: ptr, size }]
            + pre.fallback,
    }
}

/// Fixed-size-block allocator state: one stack of freed block addresses per
/// class and the fallback linked-list allocator.
pub struct FixedSizeBlockAllocator {
    list_heads: Vec<Vec<u64>>,
    fallback_allocator: LinkedListAllocator,
}

impl View for FixedSizeBlockAllocator {
    type V = FixedModel;

    closed spec fn view(&self) -> FixedModel {
        FixedModel {
            lists: Seq::new(self.list_heads@.len() as nat, |c: int| self.list_heads@[c]@),
            fallback: self.fallback_allocator@,
        }
    }
}

impl FixedSizeBlockAllocator {
    /// One stack per class, every tracked block aligned to its class and
    /// inside the address space, and a well-formed fallback list.
    pub open spec fn wf(&self) -> bool {
        &&& self@.lists.len() == CLASS_COUNT
        &&& blocks_within(self@.lists, 0, u64::MAX as int)
        &&& regions_within(self@.fallback, 0, u64::MAX as int)
    }

    /// Creates an empty fixed-size-block allocator.
    pub fn new() -> (r: Self)
        ensures
            r.wf(),
            r@.lists.len() == CLASS_COUNT,
            forall|c: int| 0 <= c < CLASS_COUNT ==> (#[trigger] r@.lists[c]).len() == 0,
            r@.fallback == Seq::<Region>::empty(),
    {
        let mut list_heads: Vec<Vec<u64>> = Vec::new();
        let mut c: usize = 0;
        while c < CLASS_COUNT
            invariant
                c <= CLASS_COUNT,
                list_heads@.len() == c,
                forall|d: int| 0 <= d < c ==> (#[trigger] list_heads@[d])@.len() == 0,
            decreases CLASS_COUNT - c,
        {
            list_heads.push(Vec::new());
            c = c + 1;
        }
        FixedSizeBlockAllocator { list_heads, fallback_allocator: LinkedListAllocator::new() }
    }

    /// Initializes the allocator by handing the whole heap window to the
    /// fallback allocator; every class stack starts empty.
    ///
    /// The caller must have provisioned `[heap_start, heap_start + heap_size)`
    /// as unused, mapped memory, and must call this only once.
    pub fn init(&mut self, heap_start: u64, heap_size: u64)
        requires
            heap_start + heap_size <= u64::MAX,
        ensures
            final(self)@.lists == old(self)@.lists,
            final(self)@.fallback == seq![Region { start: heap_start, size: heap_size }]
                + old(self)@.fallback,
            old(self).wf() ==> final(self).wf(),
    {
        self.fallback_allocator.init(heap_start, heap_size);
    }

    /// Serves `(size, align)`.  A request some class covers pops that
    /// class's stack in O(1); when the stack is empty, a fresh block of
    /// exactly the class size (and class alignment) is carved from the
    /// fallback allocator.  A request no class covers is delegated entirely
    /// to the fallback allocator, and no class stack is touched.
    pub fn allocate(&mut self, size: u64, align: u64) -> (r: Option<u64>)
        requires
            old(self).wf(),
            is_alignment(align),
        ensures
            final(self).wf(),
            fixed_alloc_post(old(self)@, final(self)@, size as int, align as int, r),
            r matches Some(p) ==> p as int % align as int == 0,
    {
        proof {
            lemma_alignment_pos(align);
        }
        let ghost lists = self@.lists;
        let ghost fb = self@.fallback;
        match class_of(size, align) {
            Some(c) => {
                proof {
                    lemma_block_size_is_alignment(c as int);
                }
                let popped = self.list_heads[c].pop();
                proof {
                    assert(self@.lists =~~= if lists[c as int].len() > 0 {
                        lists.update(c as int, lists[c as int].drop_last())
                    } else {
                        lists
                    });
                }
                match popped {
                    Some(block) => {
                        proof {
                            let bs = spec_block_size(c as int);
                            assert(align <= spec_required(size as int, align as int) <= bs);
                            lemma_alignment_divides(align, bs as u64);
                            lemma_aligned_to_divisor(block as int, bs, align as int);
                        }
                        Some(block)
                    },
                    None => {
                        let bs = block_size(c);
                        let r = self.fallback_allocator.allocate(bs, bs);
                        proof {
                            if r is Some {
                                let p = r->Some_0;
                                assert(align <= spec_required(size as int, align as int) <= bs);
                                lemma_alignment_divides(align, bs);
                                lemma_aligned_to_divisor(p as int, bs as int, align as int);
                            }
                        }
                        r
                    },
                }
            },
            None => self.fallback_allocator.allocate(size, align),
        }
    }

    /// Frees a block.  The class is recomputed from the caller-supplied size
    /// and alignment -- the rule that lets this allocator store no
    /// per-allocation metadata -- and the block is pushed onto that class's
    /// stack in O(1); a block no class covers is forwarded to the fallback
    /// allocator.
    ///
    /// The caller is trusted to pass the layout the block was allocated
    /// with; the precondition spells that trust out by demanding a block
    /// aligned to, and as large as, the class the layout selects.
    pub fn deallocate(&mut self, ptr: u64, size: u64, align: u64)
        requires
            old(self)@.lists.len() == CLASS_COUNT,
            match spec_class_of(size as int, align as int) {
                Some(c) => ptr as int % spec_block_size(c) == 0
                    && ptr + spec_block_size(c) <= u64::MAX,
                None => ptr + size <= u64::MAX,
            },
        ensures
            fixed_dealloc_post(old(self)@, final(self)@, ptr, size, align),
            old(self).wf() ==> final(self).wf(),
    {
        let ghost lists = self@.lists;
        match class_of(size, align) {
            Some(c) => {
                self.list_heads[c].push(ptr);
                proof {
                    assert(self@.lists =~~= lists.update(c as int, lists[c as int].push(ptr)));
                }
            },
            None => self.fallback_allocator.deallocate(ptr, size, align),
        }
    }
}

/// Block size of class `c` as a machine word.
pub(crate) fn block_size(c: usize) -> (s: u64)
    requires
        c < CLASS_COUNT,
    ensures
        s == spec_block_size(c as int),
        is_alignment(s),
{
    proof {
        lemma_block_size_is_alignment(c as int);
    }
    if c == 0 {
        8
    } else if c == 1 {
        16
    } else if c == 2 {
        32
    } else if c == 3 {
        64
    } else if c == 4 {
        128
    } else if c == 5 {
        256
    } else if c == 6 {
        512
    } else if c == 7 {
        1024
    } else {
        2048
    }
}

/// Class selection: the smallest class covering both size and alignment.
pub(crate) fn class_of(size: u64, align: u64) -> (r: Option<usize>)
    ensures
        match r {
            Some(c) => spec_class_of(size as int, align as int) == Some(c as int)
                && c < CLASS_COUNT,
            None => spec_class_of(size as int, align as int) is None,
        },
{
    let need = if size > align {
        size
    } else {
        align
    };
    if need <= 8 {
        Some(0)
    } else if need <= 16 {
        Some(1)
    } else if need <= 32 {
        Some(2)
    } else if need <= 64 {
        Some(3)
    } else if need <= 128 {
        Some(4)
    } else if need <= 256 {
        Some(5)
    } else if need <= 512 {
        Some(6)
    } else if need <= 1024 {
        Some(7)
    } else if need <= 2048 {
        Some(8)
    } else {
        None
    }
}

} // verus!
