//! Physical-memory accounting.
//!
//! Paging itself -- reading the page-table register, walking and mapping
//! tables -- is hardware work of the unverified shell.  Verified here is the
//! logic that reads the boot-time memory map: which regions count as free or
//! as capacity, and which frames the boot-info allocator hands out, in which
//! order.

use vstd::prelude::*;
use vstd::arithmetic::div_mod::{lemma_fundamental_div_mod, lemma_fundamental_div_mod_converse_div};

verus! {

/// Bytes in one physical frame.
pub const FRAME_SIZE: u64 = 4096;

/// What a region of physical memory is used for, as the boot loader
/// reports it.  Everything the kernel's accounting does not distinguish is
/// `Other` (reserved ranges, boot-loader data, and the like).
#[derive(Clone, Copy, PartialEq, Eq, Structural, Debug)]
pub enum MemoryRegionKind {
    Usable,
    InUse,
    Kernel,
    Other,
}

/// One region of the boot memory map: a frame-aligned address range and
/// what it is used for.
#[derive(Clone, Copy, PartialEq, Eq, Structural, Debug)]
pub struct MemoryRegion {
    pub start: u64,
    pub end: u64,
    pub kind: MemoryRegionKind,
}

/// Whether a region counts towards the machine's memory capacity: regions
/// the kernel can use, is using, or occupies itself.
pub open spec fn counts_as_capacity(r: MemoryRegion) -> bool {
    r.kind is Usable || r.kind is Kernel || r.kind is InUse
}

/// Number of free (usable) regions among the first `n`.
pub open spec fn spec_free_regions(rs: Seq<MemoryRegion>, n: int) -> int
    decreases n,
{
    if n <= 0 {
        0
    } else {
        spec_free_regions(rs, n - 1) + if rs[n - 1].kind is Usable {
            1int
        } else {
            0int
        }
    }
}

/// Number of capacity regions among the first `n`.
pub open spec fn spec_capacity_regions(rs: Seq<MemoryRegion>, n: int) -> int
    decreases n,
{
    if n <= 0 {
        0
    } else {
        spec_capacity_regions(rs, n - 1) + if counts_as_capacity(rs[n - 1]) {
            1int
        } else {
            0int
        }
    }
}

/// Sums the boot map into kibibytes of free and total memory, one kibibyte
/// counted per region as the boot accounting does: free memory over the
/// usable regions, capacity over the usable, kernel and in-use regions.
pub fn get_physical_memory_capacity(memory_map: &Vec<MemoryRegion>) -> (r: (u64, u64))
    requires
        memory_map@.len() * 1024 <= u64::MAX,
    ensures
        r.0 == 1024 * spec_free_regions(memory_map@, memory_map@.len() as int),
        r.1 == 1024 * spec_capacity_regions(memory_map@, memory_map@.len() as int),
{
    let mut free_count: u64 = 0;
    let mut capacity: u64 = 0;
    let mut i: usize = 0;
    while i < memory_map.len()
        invariant
            i <= memory_map@.len(),
            memory_map@.len() * 1024 <= u64::MAX,
            free_count == 1024 * spec_free_regions(memory_map@, i as int),
            capacity == 1024 * spec_capacity_regions(memory_map@, i as int),
        decreases memory_map@.len() - i,
    {
        proof {
            lemma_region_counts_bounded(memory_map@, i + 1);
        }
        let region = memory_map[i];
        if matches!(region.kind, MemoryRegionKind::Usable) {
            free_count = free_count + 1024;
        }
        if matches!(region.kind, MemoryRegionKind::Usable)
            || matches!(region.kind, MemoryRegionKind::Kernel)
            || matches!(region.kind, MemoryRegionKind::InUse) {
            capacity = capacity + 1024;
        }
        i = i + 1;
    }
    (free_count, capacity)
}

/// Neither count can outgrow the number of regions seen.
proof fn lemma_region_counts_bounded(rs: Seq<MemoryRegion>, n: int)
    requires
        n >= 0,
    ensures
        0 <= spec_free_regions(rs, n) <= n,
        0 <= spec_capacity_regions(rs, n) <= n,
    decreases n,
{
    if n > 0 {
        lemma_region_counts_bounded(rs, n - 1);
    }
}

/// Number of frames a region yields: one per frame-size step from its start
/// while still inside the region.
pub open spec fn spec_region_frame_count(r: MemoryRegion) -> int {
    if r.end <= r.start {
        0
    } else {
        (r.end - r.start + FRAME_SIZE - 1) / (FRAME_SIZE as int)
    }
}

/// The frame start addresses of one region.
pub open spec fn spec_region_frames(r: MemoryRegion) -> Seq<u64> {
    Seq::new(spec_region_frame_count(r) as nat, |i: int| (r.start + i * FRAME_SIZE) as u64)
}

/// The frames of every usable region, in map order.
pub open spec fn spec_usable_frames(rs: Seq<MemoryRegion>) -> Seq<u64>
    decreases rs.len(),
{
    if rs.len() == 0 {
        Seq::<u64>::empty()
    } else {
        (if rs[0].kind is Usable {
            spec_region_frames(rs[0])
        } else {
            Seq::<u64>::empty()
        }) + spec_usable_frames(rs.skip(1))
    }
}

/// The count of a region's frames is the span divided by the frame size,
/// rounded up, and the last frame still starts inside the region.
proof fn lemma_region_frame_count(r: MemoryRegion)
    requires
        r.end > r.start,
    ensures
        ({
            let span = r.end - r.start;
            let count = spec_region_frame_count(r);
            &&& count == span / (FRAME_SIZE as int) + if span % (FRAME_SIZE as int) == 0 {
                0int
            } else {
                1int
            }
            &&& count >= 1
            &&& (count - 1) * FRAME_SIZE < span
        }),
{
    let fs = FRAME_SIZE as int;
    let span = r.end - r.start;
    lemma_fundamental_div_mod(span, fs);
    let q = span / fs;
    let rem = span % fs;
    if rem == 0 {
        lemma_fundamental_div_mod_converse_div(span + fs - 1, fs, q, fs - 1);
        assert((q - 1) * fs == q * fs - fs) by (nonlinear_arith);
    } else {
        lemma_fundamental_div_mod_converse_div(span + fs - 1, fs, q + 1, rem - 1);
        assert((q + 1 - 1) * fs == q * fs) by (nonlinear_arith);
    }
}

/// A frame allocator serving the usable frames of the boot memory map, in
/// map order, one at a time.
pub struct BootInfoFrameAllocator {
    memory_map: Vec<MemoryRegion>,
    next: usize,
}

impl BootInfoFrameAllocator {
    /// The memory map the allocator draws from.
    pub closed spec fn map(&self) -> Seq<MemoryRegion> {
        self.memory_map@
    }

    /// How many frames have been handed out.
    pub closed spec fn next_index(&self) -> int {
        self.next as int
    }

    /// Creates a frame allocator over the given memory map.
    ///
    /// The caller guarantees the map is the boot loader's: every region
    /// marked usable really is unused.
    pub fn init(memory_map: Vec<MemoryRegion>) -> (r: Self)
        ensures
            r.map() == memory_map@,
            r.next_index() == 0,
    {
        BootInfoFrameAllocator { memory_map, next: 0 }
    }

    /// Every frame of every usable region, in map order.
    fn usable_frames(&self) -> (frames: Vec<u64>)
        ensures
            frames@ == spec_usable_frames(self.map()),
    {
        let rs = &self.memory_map;
        let mut frames: Vec<u64> = Vec::new();
        let mut i: usize = 0;
        proof {
            assert(rs@.skip(0) =~= rs@);
            assert(frames@ + spec_usable_frames(rs@) =~= spec_usable_frames(rs@));
        }
        while i < rs.len()
            invariant
                i <= rs@.len(),
                rs@ == self.map(),
                frames@ + spec_usable_frames(rs@.skip(i as int)) == spec_usable_frames(rs@),
            decreases rs@.len() - i,
        {
            let region = rs[i];
            proof {
                assert(rs@.skip(i as int)[0] == region);
                assert(rs@.skip(i as int).skip(1) =~= rs@.skip(i + 1));
            }
            if matches!(region.kind, MemoryRegionKind::Usable) && region.end > region.start {
                let ghost before = frames@;
                let span = region.end - region.start;
                let count = span / FRAME_SIZE + if span % FRAME_SIZE == 0 {
                    0
                } else {
                    1
                };
                proof {
                    lemma_region_frame_count(region);
                }
                let mut k: u64 = 0;
                while k < count
                    invariant
                        region.end > region.start,
                        count == spec_region_frame_count(region),
                        region.end <= u64::MAX,
                        (count - 1) * FRAME_SIZE < region.end - region.start,
                        k <= count,
                        frames@ == before + spec_region_frames(region).take(k as int),
                    decreases count - k,
                {
                    proof {
                        assert(k * FRAME_SIZE <= (count - 1) * FRAME_SIZE) by (nonlinear_arith)
                            requires
                                k < count,
                                FRAME_SIZE > 0,
                        ;
                        assert(spec_region_frames(region).take(k + 1) =~= spec_region_frames(
                            region).take(k as int).push((region.start + k * FRAME_SIZE) as u64));
                    }
                    frames.push(region.start + k * FRAME_SIZE);
                    k = k + 1;
                }
                proof {
                    assert(spec_region_frames(region).take(count as int) =~= spec_region_frames(
                        region));
                    assert(spec_usable_frames(rs@.skip(i as int)) == spec_region_frames(region)
                        + spec_usable_frames(rs@.skip(i + 1)));
                    assert(frames@ + spec_usable_frames(rs@.skip(i + 1)) =~= before + (
                    spec_region_frames(region) + spec_usable_frames(rs@.skip(i + 1))));
                }
            } else {
                proof {
                    if region.kind is Usable {
                        assert(spec_region_frames(region) =~= Seq::<u64>::empty());
                        assert(spec_usable_frames(rs@.skip(i as int)) == Seq::<u64>::empty()
                            + spec_usable_frames(rs@.skip(i + 1)));
                    }
                    assert(frames@ + spec_usable_frames(rs@.skip(i + 1)) =~= frames@
                        + spec_usable_frames(rs@.skip(i as int)));
                }
            }
            i = i + 1;
        }
        proof {
            assert(rs@.skip(rs@.len() as int) =~= Seq::<MemoryRegion>::empty());
            assert(frames@ =~= frames@ + spec_usable_frames(rs@.skip(rs@.len() as int)));
        }
        frames
    }

    /// Hands out the next usable frame of the map, if one is left.  Every
    /// call moves past one frame, found or not, as the kernel's boot
    /// allocator does.
    pub fn allocate_frame(&mut self) -> (r: Option<u64>)
        requires
            old(self).next_index() < usize::MAX,
        ensures
            final(self).map() == old(self).map(),
            final(self).next_index() == old(self).next_index() + 1,
            ({
                let frames = spec_usable_frames(old(self).map());
                r == if old(self).next_index() < frames.len() {
                    Some(frames[old(self).next_index()])
                } else {
                    None::<u64>
                }
            }),
    {
        let frames = self.usable_frames();
        let r = if self.next < frames.len() {
            Some(frames[self.next])
        } else {
            None
        };
        self.next = self.next + 1;
        r
    }
}

/// A frame allocator that never has a frame to give.
pub struct EmptyFrameAllocator;

impl EmptyFrameAllocator {
    /// Always returns no frame.
    pub fn allocate_frame(&mut self) -> (r: Option<u64>)
        ensures
            r is None,
    {
        None
    }
}

} // verus!
