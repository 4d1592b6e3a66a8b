//! Shared ground of every allocation strategy: the heap window constants and
//! the address-rounding arithmetic, together with the proof that the bitwise
//! rounding trick used on the hot path agrees with mathematical rounding.
//!
//! Addresses and sizes are carried as `u64`, the machine word of the x86-64
//! target the kernel runs on.

pub mod bump;
pub mod linked_list;
pub mod fixed_size_block;

use vstd::prelude::*;
use vstd::arithmetic::power2::{
    pow2, lemma_pow2_pos, lemma_pow2_adds, lemma_pow2_strictly_increases, lemma2_to64_rest,
};
use vstd::arithmetic::div_mod::{
    lemma_fundamental_div_mod, lemma_mod_division_less_than_divisor, lemma_mod_multiples_basic,
    lemma_mod_multiples_vanish, lemma_small_mod, lemma_div_is_ordered, lemma_div_multiples_vanish,
};
use vstd::bits::{low_bits_mask, lemma_u64_low_bits_mask_is_mod, lemma_u64_pow2_no_overflow};
use crate::allocator::bump::{BumpAllocator, BumpModel, bump_alloc_post, bump_after_dealloc};
use crate::allocator::linked_list::{
    LinkedListAllocator, Region, regions_within, region_end, spec_first_fit, list_alloc_post,
    lemma_first_fit_in_range, lemma_alloc_keeps_regions_within,
};
use crate::allocator::fixed_size_block::{
    FixedSizeBlockAllocator, FixedModel, blocks_within, spec_class_of, spec_block_size,
    fixed_alloc_post, fixed_dealloc_post, lemma_class_of_is_least,
    lemma_block_size_is_alignment, CLASS_COUNT,
};

verus! {

/// Lowest virtual address of the kernel heap window.
pub const HEAP_START: u64 = 0x4444_4444_0000;

/// Size of the kernel heap window in bytes (100 KiB).
pub const HEAP_SIZE: u64 = 100 * 1024;

/// A usable alignment: a power of two that fits in a machine word.
pub open spec fn is_alignment(align: u64) -> bool {
    exists|e: nat| e < 64 && align == pow2(e)
}

/// `addr` rounded up to the next multiple of `align`.
pub open spec fn spec_align_up(addr: int, align: int) -> int {
    ((addr + align - 1) / align) * align
}

/// Every valid alignment is at least one.
pub proof fn lemma_alignment_pos(align: u64)
    requires
        is_alignment(align),
    ensures
        align >= 1,
{
    let e = choose|e: nat| e < 64 && align == pow2(e);
    lemma_pow2_pos(e);
}

/// Rounding up moves an address by less than one alignment step, lands on a
/// multiple of the alignment, and leaves already-aligned addresses in place.
pub proof fn lemma_align_up_properties(addr: int, align: int)
    requires
        addr >= 0,
        align >= 1,
    ensures
        addr <= spec_align_up(addr, align) < addr + align,
        spec_align_up(addr, align) % align == 0,
        addr % align == 0 ==> spec_align_up(addr, align) == addr,
{
    let z = addr + align - 1;
    lemma_fundamental_div_mod(z, align);
    lemma_mod_division_less_than_divisor(z, align);
    lemma_mod_multiples_basic(z / align, align);
    assert(z == align * (z / align) + z % align);
    assert(align * (z / align) == (z / align) * align) by (nonlinear_arith);
    assert(spec_align_up(addr, align) == z - z % align);
    if addr % align == 0 {
        lemma_fundamental_div_mod(addr, align);
        assert(addr == align * (addr / align));
        lemma_mod_multiples_vanish(addr / align, align - 1, align);
        assert((align * (addr / align) + (align - 1)) % align == (align - 1) % align);
        assert(z % align == (align - 1) % align);
        lemma_small_mod((align - 1) as nat, align as nat);
        assert(z % align == align - 1);
    }
}

/// For a power-of-two alignment, clearing the low bits of
/// `addr + align - 1` computes the mathematical round-up.
proof fn lemma_align_up_bit_form(addr: u64, align: u64)
    requires
        is_alignment(align),
        addr + align - 1 <= u64::MAX,
    ensures
        (((addr + align - 1) as u64) & !((align - 1) as u64))
            == spec_align_up(addr as int, align as int),
{
    let e = choose|e: nat| e < 64 && align == pow2(e);
    lemma_pow2_pos(e);
    lemma_u64_pow2_no_overflow(e);
    let z: u64 = (addr + align - 1) as u64;
    let m: u64 = (align - 1) as u64;
    assert(m == low_bits_mask(e)) by {
        assert(low_bits_mask(e) == (pow2(e) - 1) as nat);
    }
    lemma_u64_low_bits_mask_is_mod(z, e);
    assert(z & m == z % align);
    assert((z & !m) + (z & m) == z) by (bit_vector);
    lemma_fundamental_div_mod(z as int, align as int);
    assert(z & !m == z - z % align);
    assert(spec_align_up(addr as int, align as int) == (z as int / align as int) * align);
}

/// When even `addr + align - 1` does not fit in a machine word, no multiple
/// of `align` at or above `addr` fits either: the round-up is unrepresentable.
pub proof fn lemma_align_up_unrepresentable(addr: u64, align: u64)
    requires
        is_alignment(align),
        addr + align - 1 > u64::MAX,
    ensures
        spec_align_up(addr as int, align as int) > u64::MAX,
{
    let e = choose|e: nat| e < 64 && align == pow2(e);
    lemma_pow2_pos(e);
    let z = addr + align - 1;
    let q = z / align as int;
    lemma_pow2_adds(e, (64 - e) as nat);
    assert(pow2(64) == pow2(e) * pow2((64 - e) as nat));
    lemma_pow2_64_max();
    assert(z >= pow2(64));
    lemma_div_is_ordered(pow2(64) as int, z, align as int);
    assert(pow2(64) as int / align as int == pow2((64 - e) as nat)) by {
        lemma_div_multiples_vanish(pow2((64 - e) as nat) as int, align as int);
        assert(align as int * pow2((64 - e) as nat) as int == pow2(64) as int)
            by (nonlinear_arith)
            requires
                align == pow2(e),
                pow2(64) == pow2(e) * pow2((64 - e) as nat),
        ;
    }
    assert(q >= pow2((64 - e) as nat));
    assert(q * align >= pow2((64 - e) as nat) * align) by (nonlinear_arith)
        requires
            q >= pow2((64 - e) as nat),
            align >= 1,
    ;
    assert(pow2((64 - e) as nat) * align == pow2(64)) by (nonlinear_arith)
        requires
            align == pow2(e),
            pow2(64) == pow2(e) * pow2((64 - e) as nat),
    ;
}

/// Of two valid alignments, the smaller divides the larger.
pub proof fn lemma_alignment_divides(small: u64, large: u64)
    requires
        is_alignment(small),
        is_alignment(large),
        small <= large,
    ensures
        large as int % small as int == 0,
{
    let a = choose|e: nat| e < 64 && small == pow2(e);
    let b = choose|e: nat| e < 64 && large == pow2(e);
    lemma_pow2_pos(a);
    lemma_pow2_pos(b);
    if b < a {
        lemma_pow2_strictly_increases(b, a);
    }
    lemma_pow2_adds(a, (b - a) as nat);
    assert(large == pow2(a) * pow2((b - a) as nat));
    assert(large as int == pow2((b - a) as nat) as int * small as int) by (nonlinear_arith)
        requires
            small == pow2(a),
            large == pow2(a) * pow2((b - a) as nat),
    ;
    lemma_mod_multiples_basic(pow2((b - a) as nat) as int, small as int);
}

/// An address that is a multiple of `b` is a multiple of every divisor of `b`.
pub proof fn lemma_aligned_to_divisor(p: int, b: int, a: int)
    requires
        p >= 0,
        a >= 1,
        b >= 1,
        p % b == 0,
        b % a == 0,
    ensures
        p % a == 0,
{
    lemma_fundamental_div_mod(p, b);
    lemma_fundamental_div_mod(b, a);
    assert(p == ((p / b) * (b / a)) * a) by (nonlinear_arith)
        requires
            p == b * (p / b) + p % b,
            b == a * (b / a) + b % a,
            p % b == 0,
            b % a == 0,
    ;
    lemma_mod_multiples_basic((p / b) * (b / a), a);
}

/// The value of two to the sixty-fourth, one past the largest machine word.
proof fn lemma_pow2_64_max()
    ensures
        pow2(64) == u64::MAX + 1,
{
    lemma2_to64_rest();
}

/// Align the given address `addr` upwards to alignment `align`.
///
/// Uses the branch-free bit trick of the allocation hot path; the proof above
/// shows it equal to rounding up to the next multiple of `align`.
pub fn align_up(addr: u64, align: u64) -> (r: u64)
    requires
        is_alignment(align),
        addr + align - 1 <= u64::MAX,
    ensures
        r == spec_align_up(addr as int, align as int),
        addr <= r < addr + align,
        r as int % align as int == 0,
{
    proof {
        lemma_alignment_pos(align);
        lemma_align_up_bit_form(addr, align);
        lemma_align_up_properties(addr as int, align as int);
    }
    (addr + (align - 1)) & !(align - 1)
}

/// A placeholder strategy with no memory at all: every request fails.  Since
/// it never hands a block out, nothing is ever owed back to it.
pub struct Dummy;

impl Dummy {
    /// Refuses every request.
    pub fn allocate(&self, _size: u64, _align: u64) -> (r: Option<u64>)
        ensures
            r is None,
    {
        None
    }
}

/// The allocation strategy bound into the facade: exactly one of the three
/// interchangeable implementations, chosen by configuration at startup.
pub enum Strategy {
    Bump(BumpAllocator),
    LinkedList(LinkedListAllocator),
    FixedSizeBlock(FixedSizeBlockAllocator),
}

/// Mathematical state of the bound strategy.
pub enum StrategyModel {
    Bump(BumpModel),
    LinkedList(Seq<Region>),
    FixedSizeBlock(FixedModel),
}

impl View for Strategy {
    type V = StrategyModel;

    closed spec fn view(&self) -> StrategyModel {
        match self {
            Strategy::Bump(b) => StrategyModel::Bump(b@),
            Strategy::LinkedList(l) => StrategyModel::LinkedList(l@),
            Strategy::FixedSizeBlock(f) => StrategyModel::FixedSizeBlock(f@),
        }
    }
}

/// A strategy that has not been handed any memory yet.
pub open spec fn strategy_fresh(s: StrategyModel) -> bool {
    match s {
        StrategyModel::Bump(m) => m == (BumpModel {
            heap_start: 0,
            heap_end: 0,
            next: 0,
            allocations: 0,
        }),
        StrategyModel::LinkedList(rs) => rs.len() == 0,
        StrategyModel::FixedSizeBlock(f) => {
            &&& f.lists.len() == CLASS_COUNT
            &&& forall|c: int| 0 <= c < CLASS_COUNT ==> (#[trigger] f.lists[c]).len() == 0
            &&& f.fallback.len() == 0
        },
    }
}

/// The bound strategy tracks only memory inside the window `[lo, hi]` and
/// keeps its own structural invariants.
pub open spec fn strategy_wf(s: StrategyModel, lo: int, hi: int) -> bool {
    match s {
        StrategyModel::Bump(m) => m.wf() && lo <= m.heap_start && m.heap_end <= hi,
        StrategyModel::LinkedList(rs) => regions_within(rs, lo, hi),
        StrategyModel::FixedSizeBlock(f) => {
            &&& f.lists.len() == CLASS_COUNT
            &&& blocks_within(f.lists, lo, hi)
            &&& regions_within(f.fallback, lo, hi)
        },
    }
}

/// Mathematical state of the allocation facade.
pub struct HeapModel {
    pub initialized: bool,
    pub heap_start: int,
    pub heap_end: int,
    pub strategy: StrategyModel,
}

/// The kernel's allocation facade: one compiled-in strategy behind the
/// process-wide allocate/deallocate entry points.
///
/// The facade is a one-way state machine: it starts uninitialized, refusing
/// every request, and `init` moves it exactly once to initialized after the
/// heap window has been provisioned.  Exclusive access is expressed by the
/// mutable borrow; the embedding shell serializes callers (in the kernel, a
/// spin lock) and must never re-enter from interrupt context while the lock
/// is held.
pub struct KernelHeap {
    initialized: bool,
    heap_start: u64,
    heap_end: u64,
    strategy: Strategy,
}

impl View for KernelHeap {
    type V = HeapModel;

    closed spec fn view(&self) -> HeapModel {
        HeapModel {
            initialized: self.initialized,
            heap_start: self.heap_start as int,
            heap_end: self.heap_end as int,
            strategy: self.strategy@,
        }
    }
}

impl KernelHeap {
    /// The heap window is well formed and the bound strategy never tracks
    /// memory outside it.
    pub open spec fn wf(&self) -> bool {
        &&& 0 <= self@.heap_start <= self@.heap_end <= u64::MAX
        &&& strategy_wf(self@.strategy, self@.heap_start, self@.heap_end)
    }

    /// Binds the chosen strategy.  The facade starts uninitialized: every
    /// allocation fails until `init` has run.
    pub fn new(strategy: Strategy) -> (r: Self)
        requires
            strategy_fresh(strategy@),
        ensures
            r.wf(),
            r@ == (HeapModel {
                initialized: false,
                heap_start: 0,
                heap_end: 0,
                strategy: strategy@,
            }),
    {
        KernelHeap { initialized: false, heap_start: 0, heap_end: 0, strategy }
    }

    /// Hands the provisioned heap window `[heap_start, heap_start + heap_size)`
    /// to the bound strategy: the one-way transition to the initialized
    /// state.  The caller must have backed every page of the window with
    /// present and writable frames beforehand, and must call this only once.
    pub fn init(&mut self, heap_start: u64, heap_size: u64)
        requires
            old(self).wf(),
            !old(self)@.initialized,
            strategy_fresh(old(self)@.strategy),
            heap_size > 0,
            heap_start + heap_size <= u64::MAX,
        ensures
            final(self).wf(),
            final(self)@.initialized,
            final(self)@.heap_start == heap_start,
            final(self)@.heap_end == heap_start + heap_size,
            match old(self)@.strategy {
                StrategyModel::Bump(m) => final(self)@.strategy matches StrategyModel::Bump(m2)
                    && m2 == (BumpModel {
                    heap_start: heap_start as int,
                    heap_end: heap_start + heap_size,
                    next: heap_start as int,
                    allocations: 0,
                }),
                StrategyModel::LinkedList(rs) => final(self)@.strategy
                    matches StrategyModel::LinkedList(rs2) && rs2 == seq![
                    Region { start: heap_start, size: heap_size },
                ],
                StrategyModel::FixedSizeBlock(f) => final(self)@.strategy
                    matches StrategyModel::FixedSizeBlock(f2) && f2 == (FixedModel {
                    lists: f.lists,
                    fallback: seq![Region { start: heap_start, size: heap_size }],
                }),
            },
    {
        let ghost pre = self@;
        match &mut self.strategy {
            Strategy::Bump(b) => b.init(heap_start, heap_size),
            Strategy::LinkedList(l) => l.init(heap_start, heap_size),
            Strategy::FixedSizeBlock(f) => f.init(heap_start, heap_size),
        }
        self.initialized = true;
        self.heap_start = heap_start;
        self.heap_end = heap_start + heap_size;
        proof {
            if pre.strategy is LinkedList {
                let rs2 = self@.strategy->LinkedList_0;
                assert(rs2 =~= seq![Region { start: heap_start, size: heap_size }]);
            }
            if pre.strategy is FixedSizeBlock {
                let f2 = self@.strategy->FixedSizeBlock_0;
                assert(f2.fallback =~= seq![Region { start: heap_start, size: heap_size }]);
            }
        }
    }

    /// Serves an allocation request through the bound strategy.  While the
    /// facade is uninitialized every request fails and nothing changes; once
    /// initialized, a successful request returns an address aligned to
    /// `align` whose block lies entirely inside the heap window, and the
    /// strategy advances exactly by its own allocation rule.
    ///
    /// Zero-size requests are legal and take the same path as any other:
    /// they succeed whenever a region admits them, return the aligned
    /// placement, and occupy no bytes; they are freed like any block.
    pub fn allocate(&mut self, size: u64, align: u64) -> (r: Option<u64>)
        requires
            old(self).wf(),
            is_alignment(align),
            old(self)@.strategy matches StrategyModel::Bump(m) ==> m.allocations < u64::MAX,
        ensures
            final(self).wf(),
            final(self)@.initialized == old(self)@.initialized,
            final(self)@.heap_start == old(self)@.heap_start,
            final(self)@.heap_end == old(self)@.heap_end,
            !old(self)@.initialized ==> r is None && final(self)@ == old(self)@,
            r matches Some(p) ==> p as int % align as int == 0 && old(self)@.heap_start <= p
                && p + size <= old(self)@.heap_end,
            old(self)@.initialized ==> match old(self)@.strategy {
                StrategyModel::Bump(m) => final(self)@.strategy matches StrategyModel::Bump(m2)
                    && bump_alloc_post(m, m2, size as int, align as int, r),
                StrategyModel::LinkedList(rs) => final(self)@.strategy
                    matches StrategyModel::LinkedList(rs2) && list_alloc_post(
                    rs, rs2, size as int, align as int, r),
                StrategyModel::FixedSizeBlock(f) => final(self)@.strategy
                    matches StrategyModel::FixedSizeBlock(f2) && fixed_alloc_post(
                    f, f2, size as int, align as int, r),
            },
    {
        if !self.initialized {
            return None;
        }
        let ghost pre = self@;
        proof {
            lemma_alignment_pos(align);
        }
        let r = match &mut self.strategy {
            Strategy::Bump(b) => b.allocate(size, align),
            Strategy::LinkedList(l) => l.allocate(size, align),
            Strategy::FixedSizeBlock(f) => f.allocate(size, align),
        };
        proof {
            self.lemma_allocate_post(pre, size, align, r);
        }
        r
    }

    /// The facade-level conclusions after a strategy served a request:
    /// well-formedness is preserved and a returned block lies aligned inside
    /// the heap window.
    proof fn lemma_allocate_post(&self, pre: HeapModel, size: u64, align: u64, r: Option<u64>)
        requires
            is_alignment(align),
            0 <= pre.heap_start <= pre.heap_end <= u64::MAX,
            strategy_wf(pre.strategy, pre.heap_start, pre.heap_end),
            self@.initialized == pre.initialized,
            self@.heap_start == pre.heap_start,
            self@.heap_end == pre.heap_end,
            match pre.strategy {
                StrategyModel::Bump(m) => self@.strategy matches StrategyModel::Bump(m2)
                    && bump_alloc_post(m, m2, size as int, align as int, r) && m2.wf() && (
                r matches Some(p) ==> p as int % align as int == 0 && m.next <= p && p + size
                    <= m.heap_end),
                StrategyModel::LinkedList(rs) => self@.strategy
                    matches StrategyModel::LinkedList(rs2) && list_alloc_post(
                    rs, rs2, size as int, align as int, r) && (r matches Some(p)
                    ==> p as int % align as int == 0),
                StrategyModel::FixedSizeBlock(f) => self@.strategy
                    matches StrategyModel::FixedSizeBlock(f2) && fixed_alloc_post(
                    f, f2, size as int, align as int, r) && (r matches Some(p)
                    ==> p as int % align as int == 0),
            },
        ensures
            self.wf(),
            r matches Some(p) ==> p as int % align as int == 0 && pre.heap_start <= p && p + size
                <= pre.heap_end,
    {
        let lo = pre.heap_start;
        let hi = pre.heap_end;
        lemma_alignment_pos(align);
        match pre.strategy {
            StrategyModel::Bump(_) => {},
            StrategyModel::LinkedList(rs) => {
                let rs2 = self@.strategy->LinkedList_0;
                lemma_first_fit_in_range(rs, size as int, align as int);
                if r is Some {
                    let i = spec_first_fit(rs, size as int, align as int)->Some_0;
                    lemma_align_up_properties(rs[i].start as int, align as int);
                    lemma_alloc_keeps_regions_within(
                        rs, i, size as int, align as int, lo, hi);
                }
            },
            StrategyModel::FixedSizeBlock(f) => {
                let f2 = self@.strategy->FixedSizeBlock_0;
                lemma_class_of_is_least(size as int, align as int);
                match spec_class_of(size as int, align as int) {
                    Some(c) => {
                        lemma_block_size_is_alignment(c);
                        let bs = spec_block_size(c);
                        if f.lists[c].len() > 0 {
                            let p = f.lists[c].last();
                            assert(f.lists[c][f.lists[c].len() - 1] == p);
                            assert(blocks_within(f2.lists, lo, hi)) by {
                                assert forall|c2: int, k: int|
                                    0 <= c2 < f2.lists.len() && 0 <= k < f2.lists[c2].len()
                                        implies {
                                        let q = #[trigger] f2.lists[c2][k];
                                        &&& q as int % spec_block_size(c2) == 0
                                        &&& lo <= q
                                        &&& q + spec_block_size(c2) <= hi
                                    } by {
                                    assert(f2.lists[c2][k] == f.lists[c2][k]);
                                }
                            }
                        } else {
                            lemma_first_fit_in_range(f.fallback, bs, bs);
                            if r is Some {
                                let j = spec_first_fit(f.fallback, bs, bs)->Some_0;
                                lemma_align_up_properties(f.fallback[j].start as int, bs);
                                lemma_alloc_keeps_regions_within(f.fallback, j, bs, bs, lo, hi);
                            }
                        }
                    },
                    None => {
                        lemma_first_fit_in_range(f.fallback, size as int, align as int);
                        if r is Some {
                            let j = spec_first_fit(f.fallback, size as int, align as int)->Some_0;
                            lemma_align_up_properties(f.fallback[j].start as int, align as int);
                            lemma_alloc_keeps_regions_within(
                                f.fallback, j, size as int, align as int, lo, hi);
                        }
                    },
                }
            },
        }
    }

    /// Whether `init` has already run.
    pub fn is_initialized(&self) -> (r: bool)
        ensures
            r == self@.initialized,
    {
        self.initialized
    }

    /// Whether `deallocate`'s contract accepts this block: inside the heap
    /// window, aligned to the class its layout selects, and -- for the bump
    /// strategy -- an allocation still outstanding.  Lets an unverified
    /// caller test the contract before handing a block back.
    pub fn can_deallocate(&self, ptr: u64, size: u64, align: u64) -> (r: bool)
        ensures
            r == match self@.strategy {
                StrategyModel::Bump(m) => m.allocations >= 1,
                StrategyModel::LinkedList(_) => self@.heap_start <= ptr && ptr + size
                    <= self@.heap_end,
                StrategyModel::FixedSizeBlock(_) => match spec_class_of(
                    size as int, align as int) {
                    Some(c) => ptr as int % spec_block_size(c) == 0 && self@.heap_start <= ptr
                        && ptr + spec_block_size(c) <= self@.heap_end,
                    None => self@.heap_start <= ptr && ptr + size <= self@.heap_end,
                },
            },
    {
        match &self.strategy {
            Strategy::Bump(b) => b.outstanding() >= 1,
            Strategy::LinkedList(_) => self.heap_start <= ptr && match ptr.checked_add(size) {
                Some(end) => end <= self.heap_end,
                None => false,
            },
            Strategy::FixedSizeBlock(_) => {
                match crate::allocator::fixed_size_block::class_of(size, align) {
                    Some(c) => {
                        let bs = crate::allocator::fixed_size_block::block_size(c);
                        ptr % bs == 0 && self.heap_start <= ptr && match ptr.checked_add(bs) {
                            Some(end) => end <= self.heap_end,
                            None => false,
                        }
                    },
                    None => self.heap_start <= ptr && match ptr.checked_add(size) {
                        Some(end) => end <= self.heap_end,
                        None => false,
                    },
                }
            },
        }
    }

    /// Returns a block to the bound strategy.  Ownership of the block moves
    /// back to the allocator; the preconditions spell out what each strategy
    /// trusts its callers with -- matching layout, a block inside the heap
    /// window, and no deallocation beyond the outstanding count.
    pub fn deallocate(&mut self, ptr: u64, size: u64, align: u64)
        requires
            old(self).wf(),
            old(self)@.initialized,
            match old(self)@.strategy {
                StrategyModel::Bump(m) => m.allocations >= 1,
                StrategyModel::LinkedList(_) => old(self)@.heap_start <= ptr && ptr + size <= old(
                    self)@.heap_end,
                StrategyModel::FixedSizeBlock(_) => match spec_class_of(
                    size as int, align as int) {
                    Some(c) => ptr as int % spec_block_size(c) == 0 && old(self)@.heap_start <= ptr
                        && ptr + spec_block_size(c) <= old(self)@.heap_end,
                    None => old(self)@.heap_start <= ptr && ptr + size <= old(self)@.heap_end,
                },
            },
        ensures
            final(self).wf(),
            final(self)@.initialized == old(self)@.initialized,
            final(self)@.heap_start == old(self)@.heap_start,
            final(self)@.heap_end == old(self)@.heap_end,
            match old(self)@.strategy {
                StrategyModel::Bump(m) => final(self)@.strategy matches StrategyModel::Bump(m2)
                    && m2 == bump_after_dealloc(m),
                StrategyModel::LinkedList(rs) => final(self)@.strategy
                    matches StrategyModel::LinkedList(rs2) && rs2 == seq![
                    Region { start: ptr, size },
                ] + rs,
                StrategyModel::FixedSizeBlock(f) => final(self)@.strategy
                    matches StrategyModel::FixedSizeBlock(f2) && fixed_dealloc_post(
                    f, f2, ptr, size, align),
            },
    {
        let ghost pre = self@;
        match &mut self.strategy {
            Strategy::Bump(b) => b.deallocate(ptr, size, align),
            Strategy::LinkedList(l) => l.deallocate(ptr, size, align),
            Strategy::FixedSizeBlock(f) => f.deallocate(ptr, size, align),
        }
        proof {
            let lo = pre.heap_start;
            let hi = pre.heap_end;
            match pre.strategy {
                StrategyModel::Bump(_) => {},
                StrategyModel::LinkedList(rs) => {
                    let rs2 = self@.strategy->LinkedList_0;
                    assert(regions_within(rs2, lo, hi)) by {
                        assert forall|j: int|
                            0 <= j < rs2.len() implies lo <= (#[trigger] rs2[j]).start
                            && region_end(rs2[j]) <= hi by {
                            if j > 0 {
                                assert(rs2[j] == rs[j - 1]);
                            }
                        }
                    }
                },
                StrategyModel::FixedSizeBlock(f) => {
                    let f2 = self@.strategy->FixedSizeBlock_0;
                    match spec_class_of(size as int, align as int) {
                        Some(c) => {
                            lemma_class_of_is_least(size as int, align as int);
                            assert(blocks_within(f2.lists, lo, hi)) by {
                                assert forall|c2: int, k: int|
                                    0 <= c2 < f2.lists.len() && 0 <= k < f2.lists[c2].len()
                                        implies {
                                        let q = #[trigger] f2.lists[c2][k];
                                        &&& q as int % spec_block_size(c2) == 0
                                        &&& lo <= q
                                        &&& q + spec_block_size(c2) <= hi
                                    } by {
                                    if c2 != c || k < f.lists[c].len() {
                                        assert(f2.lists[c2][k] == f.lists[c2][k]);
                                    } else {
                                        assert(f2.lists[c2][k] == ptr);
                                    }
                                }
                            }
                        },
                        None => {
                            let fb2 = f2.fallback;
                            assert(regions_within(fb2, lo, hi)) by {
                                assert forall|j: int|
                                    0 <= j < fb2.len() implies lo <= (#[trigger] fb2[j]).start
                                    && region_end(fb2[j]) <= hi by {
                                    if j > 0 {
                                        assert(fb2[j] == f.fallback[j - 1]);
                                    }
                                }
                            }
                        },
                    }
                },
            }
        }
    }
}

} // verus!
