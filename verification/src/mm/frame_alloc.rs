//! Bitmap allocator over physical page frames.
//!
//! One bit stands for each frame: set while the frame is allocated, clear
//! while it is free. The allocator owns the bitmap and records where in
//! physical memory it lives, so that the frames under the bitmap itself are
//! never handed out.

use crate::mm::types::{direct_map, phys_to_virt, MemoryRegion, RegionType};
use vstd::prelude::*;

verus! {

/// Bytes in one page frame.
pub const PAGE_SIZE: u64 = 4096;

/// One past the highest frame number that a 64-bit physical address names.
pub const FRAME_LIMIT: u64 = 0x10_0000_0000_0000;

/// What an allocator stands for: its geometry and the set of frames whose
/// bit is clear.
pub struct FrameState {
    /// One past the highest frame number the platform reports.
    pub max_pfn: nat,
    /// Physical address of the bitmap's first byte.
    pub bitmap_phys_start: nat,
    /// Bytes in the bitmap.
    pub bitmap_size: nat,
    /// Direct-map alias of `bitmap_phys_start`.
    pub bitmap_addr: nat,
    /// Frame numbers whose bit is clear.
    pub free: Set<nat>,
}

impl FrameState {
    /// The geometry is consistent and every free frame has a bit.
    pub open spec fn valid(self) -> bool {
        &&& 1 <= self.max_pfn <= FRAME_LIMIT
        &&& self.bitmap_size == (self.max_pfn + 7) / 8
        &&& self.bitmap_phys_start + self.bitmap_size - 1 <= u64::MAX
        &&& forall|p: nat| #[trigger] self.free.contains(p) ==> p < 8 * self.bitmap_size
    }

    /// Whether frame `pfn` shares a byte of physical memory with the bitmap.
    pub open spec fn overlaps_bitmap(self, pfn: nat) -> bool {
        self.bitmap_phys_start / 4096 <= pfn <= (self.bitmap_phys_start + self.bitmap_size - 1)
            / 4096
    }

    /// No frame under the bitmap is free.
    pub open spec fn metadata_excluded(self) -> bool {
        forall|p: nat| self.overlaps_bitmap(p) ==> !(#[trigger] self.free.contains(p))
    }

    /// `p` is free, below `max_pfn`, and no lower frame is free.
    pub open spec fn is_lowest_free(self, p: nat) -> bool {
        &&& p < self.max_pfn
        &&& self.free.contains(p)
        &&& forall|q: nat| q < p ==> !(#[trigger] self.free.contains(q))
    }

    /// The lowest free frame below `max_pfn`, if there is one.
    pub open spec fn lowest_free(self) -> Option<nat> {
        if exists|p: nat| self.is_lowest_free(p) {
            Some(choose|p: nat| self.is_lowest_free(p))
        } else {
            None
        }
    }

    /// The state with frame `pfn` marked allocated.
    pub open spec fn take(self, pfn: nat) -> FrameState {
        FrameState { free: self.free.remove(pfn), ..self }
    }

    /// The state with frame `pfn` marked free.
    pub open spec fn give(self, pfn: nat) -> FrameState {
        FrameState { free: self.free.insert(pfn), ..self }
    }

    /// One allocation: the address handed out and the state afterwards.
    pub open spec fn allocate(self) -> (Option<u64>, FrameState) {
        match self.lowest_free() {
            Some(p) => (Some((p * 4096) as u64), self.take(p)),
            None => (None, self),
        }
    }

    /// The state after `n` allocations in a row.
    pub open spec fn after_allocs(self, n: nat) -> FrameState
        decreases n,
    {
        if n == 0 {
            self
        } else {
            self.after_allocs((n - 1) as nat).allocate().1
        }
    }

    /// What allocation number `i` of a row of allocations hands out, the
    /// first being number 0.
    pub open spec fn nth_alloc(self, i: nat) -> Option<u64> {
        self.after_allocs(i).allocate().0
    }

    /// One release of the frame that holds `frame_addr`: frames at or above
    /// `max_pfn` are ignored.
    pub open spec fn release(self, frame_addr: u64) -> FrameState {
        let pfn = (frame_addr / 4096) as nat;
        if pfn < self.max_pfn {
            self.give(pfn)
        } else {
            self
        }
    }
}

/// Whether bit `bit` of `byte` is set.
pub open spec fn bit_is_set(byte: u8, bit: nat) -> bool {
    (byte >> (bit as u8)) & 1u8 == 1u8
}

/// Whether `bitmap` holds a bit for frame `pfn` and that bit is clear.
pub open spec fn bit_is_clear_at(bitmap: Seq<u8>, pfn: nat) -> bool {
    pfn / 8 < bitmap.len() && !bit_is_set(bitmap[(pfn / 8) as int], pfn % 8)
}

proof fn lemma_set_bit(byte: u8, b: u8, c: u8)
    requires
        b < 8,
        c < 8,
    ensures
        ((byte | (1u8 << b)) >> c) & 1u8 == 1u8 <==> (c == b || (byte >> c) & 1u8 == 1u8),
{
    assert(((byte | (1u8 << b)) >> c) & 1u8 == 1u8 <==> (c == b || (byte >> c) & 1u8 == 1u8))
        by (bit_vector)
        requires
            b < 8,
            c < 8,
    ;
}

proof fn lemma_clear_bit(byte: u8, b: u8, c: u8)
    requires
        b < 8,
        c < 8,
    ensures
        ((byte & !(1u8 << b)) >> c) & 1u8 == 1u8 <==> (c != b && (byte >> c) & 1u8 == 1u8),
{
    assert(((byte & !(1u8 << b)) >> c) & 1u8 == 1u8 <==> (c != b && (byte >> c) & 1u8 == 1u8))
        by (bit_vector)
        requires
            b < 8,
            c < 8,
    ;
}

proof fn lemma_low_bit(byte: u8, c: u8)
    ensures
        (byte >> c) & 1u8 == 0u8 || (byte >> c) & 1u8 == 1u8,
{
    assert((byte >> c) & 1u8 == 0u8 || (byte >> c) & 1u8 == 1u8) by (bit_vector);
}

proof fn lemma_full_byte(c: u8)
    requires
        c < 8,
    ensures
        (0xffu8 >> c) & 1u8 == 1u8,
{
    assert((0xffu8 >> c) & 1u8 == 1u8) by (bit_vector)
        requires
            c < 8,
    ;
}

/// A bitmap frame allocator.
pub struct FrameAllocator {
    bitmap: Vec<u8>,
    bitmap_addr: u64,
    bitmap_phys_start: u64,
    bitmap_size: usize,
    max_pfn: u64,
}

impl View for FrameAllocator {
    type V = FrameState;

    closed spec fn view(&self) -> FrameState {
        FrameState {
            max_pfn: self.max_pfn as nat,
            bitmap_phys_start: self.bitmap_phys_start as nat,
            bitmap_size: self.bitmap_size as nat,
            bitmap_addr: self.bitmap_addr as nat,
            free: Set::new(|p: nat| bit_is_clear_at(self.bitmap@, p)),
        }
    }
}

impl FrameAllocator {
    /// The bitmap has the recorded size and the state it stands for is valid.
    pub closed spec fn wf(&self) -> bool {
        &&& self.bitmap@.len() == self.bitmap_size
        &&& self@.valid()
    }

    /// A well-formed allocator stands for a valid state.
    pub proof fn lemma_wf_valid(&self)
        requires
            self.wf(),
        ensures
            self@.valid(),
    {
    }

    /// One past the highest frame number the allocator can represent.
    pub fn max_pfn(&self) -> (n: u64)
        ensures
            n == self@.max_pfn,
    {
        self.max_pfn
    }

    /// Bytes in the bitmap.
    pub fn bitmap_size(&self) -> (n: usize)
        ensures
            n == self@.bitmap_size,
    {
        self.bitmap_size
    }

    /// Physical address of the bitmap's first byte.
    pub fn bitmap_phys_start(&self) -> (a: u64)
        ensures
            a == self@.bitmap_phys_start,
    {
        self.bitmap_phys_start
    }

    /// Direct-map alias of the bitmap's first byte.
    pub fn bitmap_addr(&self) -> (a: u64)
        ensures
            a == self@.bitmap_addr,
    {
        self.bitmap_addr
    }
}

/// Byte index and bit index of frame `pfn` in the bitmap.
pub fn frame_to_byte_bit(pfn: u64) -> (r: (u64, u8))
    ensures
        r.0 == pfn / 8,
        r.1 == pfn % 8,
{
    let byte_idx: u64 = pfn / 8;
    let bit_idx: u8 = (pfn % 8) as u8;
    (byte_idx, bit_idx)
}

/// Whether frame `pfn` is free. A frame without a bit in the bitmap is never
/// free.
pub fn is_frame_free(fa: &FrameAllocator, pfn: u64) -> (r: bool)
    requires
        fa.wf(),
    ensures
        r == fa@.free.contains(pfn as nat),
{
    let (byte_idx, bit_idx) = frame_to_byte_bit(pfn);
    if byte_idx >= fa.bitmap_size as u64 {
        return false;
    }
    let byte: u8 = fa.bitmap[byte_idx as usize];
    proof {
        lemma_low_bit(byte, bit_idx);
    }
    ((byte >> bit_idx) & 1) == 0
}

/// Clear the bit of frame `pfn`. A frame without a bit is left alone.
pub fn mark_frame_free(fa: &mut FrameAllocator, pfn: u64)
    requires
        old(fa).wf(),
    ensures
        final(fa).wf(),
        final(fa)@ == if pfn / 8 < old(fa)@.bitmap_size {
            old(fa)@.give(pfn as nat)
        } else {
            old(fa)@
        },
{
    let (byte_idx, bit_idx) = frame_to_byte_bit(pfn);
    if byte_idx >= fa.bitmap_size as u64 {
        return ;
    }
    let idx: usize = byte_idx as usize;
    let byte: u8 = fa.bitmap[idx];
    let new_byte: u8 = byte & !(1u8 << bit_idx);
    fa.bitmap.set(idx, new_byte);
    proof {
        let before = old(fa)@;
        assert forall|p: nat| fa@.free.contains(p) == before.give(pfn as nat).free.contains(p) by {
            if p / 8 == idx {
                lemma_clear_bit(byte, bit_idx, (p % 8) as u8);
            }
        }
        assert(fa@.free =~= before.give(pfn as nat).free);
    }
}

/// Set the bit of frame `pfn`. A frame without a bit is left alone.
pub fn mark_frame_allocated(fa: &mut FrameAllocator, pfn: u64)
    requires
        old(fa).wf(),
    ensures
        final(fa).wf(),
        final(fa)@ == old(fa)@.take(pfn as nat),
{
    let (byte_idx, bit_idx) = frame_to_byte_bit(pfn);
    if byte_idx >= fa.bitmap_size as u64 {
        assert(fa@.free =~= fa@.take(pfn as nat).free);
        return ;
    }
    let idx: usize = byte_idx as usize;
    let byte: u8 = fa.bitmap[idx];
    let new_byte: u8 = byte | (1u8 << bit_idx);
    fa.bitmap.set(idx, new_byte);
    proof {
        let before = old(fa)@;
        assert forall|p: nat| fa@.free.contains(p) == before.take(pfn as nat).free.contains(p) by {
            if p / 8 == idx {
                lemma_set_bit(byte, bit_idx, (p % 8) as u8);
            }
        }
        assert(fa@.free =~= before.take(pfn as nat).free);
    }
}

/// Whether frame `pfn` shares a byte of physical memory with the bitmap.
pub fn bitmap_overlaps(fa: &FrameAllocator, pfn: u64) -> (r: bool)
    requires
        fa.wf(),
    ensures
        r == fa@.overlaps_bitmap(pfn as nat),
{
    let start: u64 = fa.bitmap_phys_start / PAGE_SIZE;
    let end: u64 = (fa.bitmap_phys_start + (fa.bitmap_size as u64 - 1)) / PAGE_SIZE;
    pfn >= start && pfn <= end
}

/// Highest frame number that any of `regions` reaches; 0 when there is none.
pub open spec fn highest_frame(regions: Seq<MemoryRegion>) -> int
    decreases regions.len(),
{
    if regions.len() == 0 {
        0
    } else {
        let rest = highest_frame(regions.drop_last());
        let last = regions.last().last_frame();
        if last > rest {
            last
        } else {
            rest
        }
    }
}

/// One past the highest frame number that any of `regions` reaches.
pub open spec fn frame_count(regions: Seq<MemoryRegion>) -> int {
    highest_frame(regions) + 1
}

/// Bytes that a bitmap with one bit per frame of `regions` takes.
pub open spec fn bitmap_bytes(regions: Seq<MemoryRegion>) -> int {
    (frame_count(regions) + 7) / 8
}

pub open spec fn all_well_formed(regions: Seq<MemoryRegion>) -> bool {
    forall|i: int| 0 <= i < regions.len() ==> (#[trigger] regions[i]).well_formed()
}

/// `highest_frame` is an upper bound of every region's last frame, and is
/// either 0 or the last frame of one of them.
pub proof fn lemma_highest_frame(regions: Seq<MemoryRegion>)
    requires
        all_well_formed(regions),
    ensures
        0 <= highest_frame(regions) < FRAME_LIMIT,
        forall|i: int|
            0 <= i < regions.len() ==> (#[trigger] regions[i]).last_frame() <= highest_frame(
                regions,
            ),
        highest_frame(regions) == 0 || exists|i: int|
            0 <= i < regions.len() && (#[trigger] regions[i]).last_frame() == highest_frame(
                regions,
            ),
    decreases regions.len(),
{
    if regions.len() > 0 {
        let rest = regions.drop_last();
        lemma_highest_frame(rest);
        assert forall|i: int| 0 <= i < regions.len() implies (#[trigger] regions[i]).last_frame()
            <= highest_frame(regions) by {
            if i < rest.len() {
                assert(rest[i] == regions[i]);
            }
        }
        let last = regions.last().last_frame();
        if last > highest_frame(rest) {
            assert(regions[regions.len() - 1].last_frame() == highest_frame(regions));
        } else if highest_frame(rest) != 0 {
            let i = choose|i: int|
                0 <= i < rest.len() && (#[trigger] rest[i]).last_frame() == highest_frame(rest);
            assert(regions[i] == rest[i]);
        }
    }
}

/// Number of the frame that holds the region's first byte.
pub fn start_frame(region: &MemoryRegion) -> (pfn: u64)
    ensures
        pfn == region.first_frame(),
{
    region.base / PAGE_SIZE
}

/// Number of the frame that holds the region's last byte.
pub fn end_frame(region: &MemoryRegion) -> (pfn: u64)
    requires
        region.well_formed(),
    ensures
        pfn == region.last_frame(),
{
    (region.base + (region.length - 1)) / PAGE_SIZE
}

/// One past the highest frame number that any region reaches, usable or not.
pub fn max_pfn(regions: &[MemoryRegion]) -> (n: u64)
    requires
        all_well_formed(regions@),
    ensures
        n == frame_count(regions@),
        1 <= n <= FRAME_LIMIT,
{
    let mut max: u64 = 0;
    let mut i: usize = 0;
    while i < regions.len()
        invariant
            0 <= i <= regions.len(),
            all_well_formed(regions@),
            max == highest_frame(regions@.take(i as int)),
        decreases regions.len() - i,
    {
        let end_pfn: u64 = end_frame(&regions[i]);
        proof {
            assert(regions@.take(i + 1).drop_last() =~= regions@.take(i as int));
        }
        if end_pfn > max {
            max = end_pfn;
        }
        i = i + 1;
    }
    proof {
        assert(regions@.take(regions.len() as int) =~= regions@);
        lemma_highest_frame(regions@);
    }
    max + 1
}

/// `i` is the index of the first usable region.
pub open spec fn is_first_usable(regions: Seq<MemoryRegion>, i: int) -> bool {
    &&& 0 <= i < regions.len()
    &&& regions[i].is_usable()
    &&& forall|j: int| 0 <= j < i ==> !(#[trigger] regions[j]).is_usable()
}

pub open spec fn has_usable(regions: Seq<MemoryRegion>) -> bool {
    exists|i: int| 0 <= i < regions.len() && (#[trigger] regions[i]).is_usable()
}

/// Index of the first usable region, where there is one.
pub open spec fn first_usable_index(regions: Seq<MemoryRegion>) -> int {
    choose|i: int| is_first_usable(regions, i)
}

/// The first region, in the order given, that is usable.
pub fn first_usable_region(regions: &[MemoryRegion]) -> (r: &MemoryRegion)
    requires
        has_usable(regions@),
    ensures
        is_first_usable(regions@, first_usable_index(regions@)),
        *r == regions@[first_usable_index(regions@)],
{
    let mut i: usize = 0;
    loop
        invariant
            0 <= i <= regions.len(),
            has_usable(regions@),
            forall|j: int| 0 <= j < i ==> !(#[trigger] regions@[j]).is_usable(),
        decreases regions.len() - i,
    {
        if i < regions.len() {
            match regions[i].kind {
                RegionType::Usable => {
                    assert(is_first_usable(regions@, i as int));
                    return &regions[i];
                },
                _ => {},
            }
        }
        i = i + 1;
    }
}

/// Frame `pfn` lies in one of the first `upto` regions, a usable one.
pub open spec fn usable_frame_upto(regions: Seq<MemoryRegion>, upto: int, pfn: nat) -> bool {
    exists|i: int|
        0 <= i < upto && i < regions.len() && (#[trigger] regions[i]).is_usable()
            && regions[i].first_frame() <= pfn <= regions[i].last_frame()
}

/// Frame `pfn` lies in a usable region.
pub open spec fn usable_frame(regions: Seq<MemoryRegion>, pfn: nat) -> bool {
    usable_frame_upto(regions, regions.len() as int, pfn)
}

/// What `init` asks of the region list: every region holds a byte and ends
/// inside the address space, one of them is usable, and the bitmap is
/// smaller than the first usable one and fits a `usize`.
pub open spec fn can_init(regions: Seq<MemoryRegion>) -> bool {
    &&& all_well_formed(regions)
    &&& has_usable(regions)
    &&& bitmap_bytes(regions) < regions[first_usable_index(regions)].length
    &&& bitmap_bytes(regions) <= usize::MAX
}

/// Geometry of the allocator that `init` builds, with no frame free yet.
pub open spec fn initial_geometry(regions: Seq<MemoryRegion>, hhdm_offset: u64) -> FrameState {
    let start = regions[first_usable_index(regions)].base;
    FrameState {
        max_pfn: frame_count(regions) as nat,
        bitmap_phys_start: start as nat,
        bitmap_size: bitmap_bytes(regions) as nat,
        bitmap_addr: direct_map(start, hhdm_offset) as nat,
        free: Set::empty(),
    }
}

/// The allocator that `init` builds: the bitmap sits at the base of the
/// first usable region, and a frame is free exactly if it lies in a usable
/// region and not under the bitmap.
pub open spec fn initial_state(regions: Seq<MemoryRegion>, hhdm_offset: u64) -> FrameState {
    let geometry = initial_geometry(regions, hhdm_offset);
    FrameState {
        free: Set::new(|p: nat| usable_frame(regions, p) && !geometry.overlaps_bitmap(p)),
        ..geometry
    }
}

/// Decides `can_init`.
pub fn check_regions(regions: &[MemoryRegion]) -> (ok: bool)
    ensures
        ok == can_init(regions@),
{
    let mut i: usize = 0;
    let mut first: Option<usize> = None;
    while i < regions.len()
        invariant
            0 <= i <= regions.len(),
            forall|j: int| 0 <= j < i ==> (#[trigger] regions@[j]).well_formed(),
            match first {
                Some(k) => is_first_usable(regions@, k as int) && k < i,
                None => forall|j: int| 0 <= j < i ==> !(#[trigger] regions@[j]).is_usable(),
            },
        decreases regions.len() - i,
    {
        let region = &regions[i];
        if region.length == 0 || region.base > u64::MAX - (region.length - 1) {
            assert(!regions@[i as int].well_formed());
            return false;
        }
        if first.is_none() {
            match region.kind {
                RegionType::Usable => {
                    first = Some(i);
                },
                _ => {},
            }
        }
        i = i + 1;
    }
    match first {
        None => false,
        Some(k) => {
            let bytes: u64 = (max_pfn(regions) + 7) / 8;
            bytes < regions[k].length && bytes <= usize::MAX as u64
        },
    }
}

/// Build the allocator for the memory that `regions` describes.
///
/// The bitmap is placed at the base of the first usable region and reached
/// through the direct map. Every frame starts out allocated; then the frames
/// of the usable regions are freed, but for those under the bitmap.
pub fn init(regions: &[MemoryRegion], hhdm_offset: u64) -> (fa: FrameAllocator)
    requires
        can_init(regions@),
    ensures
        fa.wf(),
        fa@ == initial_state(regions@, hhdm_offset),
        fa@.metadata_excluded(),
{
    let max: u64 = max_pfn(regions);
    let size: usize = ((max + 7) / 8) as usize;
    let first_usable = first_usable_region(regions);
    let phys_start: u64 = first_usable.base;
    let bitmap_vaddr: u64 = phys_to_virt(phys_start, hhdm_offset);

    let mut bitmap: Vec<u8> = Vec::new();
    let mut n: usize = 0;
    while n < size
        invariant
            0 <= n <= size,
            bitmap@.len() == n,
            forall|k: int| 0 <= k < n ==> bitmap@[k] == 0xffu8,
        decreases size - n,
    {
        bitmap.push(0xff);
        n = n + 1;
    }
    let mut fa = FrameAllocator {
        bitmap,
        bitmap_addr: bitmap_vaddr,
        bitmap_phys_start: phys_start,
        bitmap_size: size,
        max_pfn: max,
    };
    let ghost geometry = initial_geometry(regions@, hhdm_offset);
    proof {
        assert forall|p: nat| !fa@.free.contains(p) by {
            if p / 8 < size {
                lemma_full_byte((p % 8) as u8);
            }
        }
        assert(fa@.free =~= geometry.free);
    }

    let mut r: usize = 0;
    while r < regions.len()
        invariant
            0 <= r <= regions.len(),
            can_init(regions@),
            fa.wf(),
            geometry == initial_geometry(regions@, hhdm_offset),
            max == geometry.max_pfn,
            fa@ == (FrameState { free: fa@.free, ..geometry }),
            forall|p: nat|
                #[trigger] fa@.free.contains(p) <==> usable_frame_upto(regions@, r as int, p)
                    && !geometry.overlaps_bitmap(p),
        decreases regions.len() - r,
    {
        let region = &regions[r];
        match region.kind {
            RegionType::Usable => {
                let start: u64 = start_frame(region);
                let end: u64 = end_frame(region);
                proof {
                    lemma_highest_frame(regions@);
                    assert(regions@[r as int].last_frame() < max);
                }
                let mut frame: u64 = start;
                while frame <= end
                    invariant
                        0 <= r < regions.len(),
                        regions@[r as int].is_usable(),
                        start == regions@[r as int].first_frame(),
                        end == regions@[r as int].last_frame(),
                        start <= frame <= end + 1,
                        end < max,
                        fa.wf(),
                        max == geometry.max_pfn,
                        geometry.max_pfn <= FRAME_LIMIT,
                        fa@ == (FrameState { free: fa@.free, ..geometry }),
                        forall|p: nat|
                            #[trigger] fa@.free.contains(p) <==> (usable_frame_upto(
                                regions@,
                                r as int,
                                p,
                            ) || start <= p < frame) && !geometry.overlaps_bitmap(p),
                    decreases end + 1 - frame,
                {
                    if frame < max && !bitmap_overlaps(&fa, frame) {
                        mark_frame_free(&mut fa, frame);
                    }
                    frame = frame + 1;
                }
                proof {
                    assert forall|p: nat| #[trigger]
                        fa@.free.contains(p) implies usable_frame_upto(regions@, r + 1, p) by {
                        if start <= p <= end {
                            assert(regions@[r as int].is_usable());
                        }
                    }
                    assert forall|p: nat| #[trigger]
                        usable_frame_upto(regions@, r + 1, p) implies usable_frame_upto(
                        regions@,
                        r as int,
                        p,
                    ) || start <= p <= end by {}
                }
            },
            _ => {
                assert forall|p: nat|
                    usable_frame_upto(regions@, r as int, p) == #[trigger] usable_frame_upto(
                        regions@,
                        r + 1,
                        p,
                    ) by {}
            },
        }
        r = r + 1;
    }
    proof {
        assert(fa@.free =~= initial_state(regions@, hhdm_offset).free);
    }
    fa
}

/// Hand out the lowest free frame below `max_pfn`, by its physical address,
/// and mark it allocated. `None` when no such frame is free.
pub fn alloc_frame(fa: &mut FrameAllocator) -> (r: Option<u64>)
    requires
        old(fa).wf(),
    ensures
        final(fa).wf(),
        (r, final(fa)@) == old(fa)@.allocate(),
{
    let mut pfn: u64 = 0;
    while pfn < fa.max_pfn
        invariant
            fa.wf(),
            *fa == *old(fa),
            0 <= pfn <= fa.max_pfn,
            forall|q: nat| q < pfn ==> !fa@.free.contains(q),
        decreases fa.max_pfn - pfn,
    {
        if is_frame_free(fa, pfn) {
            assert(fa@.is_lowest_free(pfn as nat));
            mark_frame_allocated(fa, pfn);
            return Some(pfn * PAGE_SIZE);
        }
        pfn = pfn + 1;
    }
    None
}

/// Mark the frame that holds `frame_addr` free. An address at or beyond
/// `max_pfn` frames is ignored; a frame that is free already stays free.
pub fn free(fa: &mut FrameAllocator, frame_addr: u64)
    requires
        old(fa).wf(),
    ensures
        final(fa).wf(),
        final(fa)@ == old(fa)@.release(frame_addr),
{
    let pfn: u64 = frame_addr / PAGE_SIZE;
    if pfn >= fa.max_pfn {
        return ;
    }
    mark_frame_free(fa, pfn);
}

/// `lowest_free` is the least free frame below `max_pfn`, and is `None` only
/// when no frame below `max_pfn` is free.
pub proof fn lemma_lowest_free(s: FrameState)
    ensures
        match s.lowest_free() {
            Some(p) => s.is_lowest_free(p),
            None => forall|q: nat| q < s.max_pfn ==> !s.free.contains(q),
        },
{
    if s.lowest_free() is None {
        assert forall|q: nat| q < s.max_pfn implies !s.free.contains(q) by {
            lemma_none_free_below(s, q + 1);
        }
    }
}

proof fn lemma_none_free_below(s: FrameState, bound: nat)
    requires
        s.lowest_free() is None,
        bound <= s.max_pfn,
    ensures
        forall|q: nat| q < bound ==> !s.free.contains(q),
    decreases bound,
{
    if bound > 0 {
        let below = (bound - 1) as nat;
        lemma_none_free_below(s, below);
        if s.free.contains(below) {
            assert(s.is_lowest_free(below));
        }
    }
}

/// An allocation keeps the state valid, frees nothing, and keeps the frames
/// under the bitmap excluded if they were.
pub proof fn lemma_allocate_keeps(s: FrameState)
    requires
        s.valid(),
    ensures
        s.allocate().1.valid(),
        s.allocate().1.free.subset_of(s.free),
        s.metadata_excluded() ==> s.allocate().1.metadata_excluded(),
        s.allocate().1.max_pfn == s.max_pfn,
        s.allocate().1.bitmap_phys_start == s.bitmap_phys_start,
        s.allocate().1.bitmap_size == s.bitmap_size,
{
}

/// A row of allocations keeps the state valid and only ever shrinks the
/// free set.
pub proof fn lemma_after_allocs(s: FrameState, i: nat, j: nat)
    requires
        s.valid(),
        i <= j,
    ensures
        s.after_allocs(j).valid(),
        s.after_allocs(j).free.subset_of(s.after_allocs(i).free),
        s.after_allocs(j).max_pfn == s.max_pfn,
        s.after_allocs(j).bitmap_phys_start == s.bitmap_phys_start,
        s.after_allocs(j).bitmap_size == s.bitmap_size,
        s.metadata_excluded() ==> s.after_allocs(j).metadata_excluded(),
    decreases j,
{
    if j > 0 {
        let before = (j - 1) as nat;
        if i < j {
            lemma_after_allocs(s, i, before);
        } else {
            lemma_after_allocs(s, before, before);
        }
        lemma_allocate_keeps(s.after_allocs(before));
    }
}

/// Every address handed out is the base of a frame that was free just
/// before the allocation and is allocated just after it.
pub proof fn allocated_frame_was_free(s: FrameState, i: nat)
    requires
        s.valid(),
        s.nth_alloc(i) is Some,
    ensures
        ({
            let addr = s.nth_alloc(i)->0;
            &&& addr % 4096 == 0
            &&& addr / 4096 < s.max_pfn
            &&& s.after_allocs(i).free.contains((addr / 4096) as nat)
            &&& !s.after_allocs(i + 1).free.contains((addr / 4096) as nat)
        }),
{
    lemma_after_allocs(s, i, i);
    lemma_lowest_free(s.after_allocs(i));
}

/// No two allocations in a row hand out the same address.
pub proof fn allocations_are_distinct(s: FrameState, i: nat, j: nat)
    requires
        s.valid(),
        i < j,
        s.nth_alloc(i) is Some,
        s.nth_alloc(j) is Some,
    ensures
        s.nth_alloc(i) != s.nth_alloc(j),
{
    allocated_frame_was_free(s, i);
    allocated_frame_was_free(s, j);
    lemma_after_allocs(s, i + 1, j);
}

/// While the frames under the bitmap are excluded, no frame handed out
/// shares a byte with the bitmap: it ends at or before the bitmap's first
/// byte or starts after its last.
pub proof fn allocations_avoid_bitmap(s: FrameState, i: nat)
    requires
        s.valid(),
        s.metadata_excluded(),
        s.nth_alloc(i) is Some,
    ensures
        ({
            let addr = s.nth_alloc(i)->0;
            addr + 4096 <= s.bitmap_phys_start || s.bitmap_phys_start + s.bitmap_size <= addr
        }),
{
    allocated_frame_was_free(s, i);
    lemma_after_allocs(s, 0, i);
    let addr = s.nth_alloc(i)->0;
    let pfn = (addr / 4096) as nat;
    assert(s.after_allocs(i).metadata_excluded());
    assert(!s.overlaps_bitmap(pfn));
}

/// Once an allocation finds nothing, no frame below `max_pfn` is free, the
/// state stays as it is, and every later allocation in the row finds
/// nothing either.
pub proof fn exhaustion_is_stable(s: FrameState, i: nat, j: nat)
    requires
        s.nth_alloc(i) is None,
        i <= j,
    ensures
        s.nth_alloc(j) is None,
        s.after_allocs(j) == s.after_allocs(i),
        forall|q: nat| q < s.after_allocs(i).max_pfn ==> !s.after_allocs(i).free.contains(q),
    decreases j,
{
    lemma_lowest_free(s.after_allocs(i));
    if i < j {
        exhaustion_is_stable(s, i, (j - 1) as nat);
    }
}

/// A release keeps the frames under the bitmap excluded, unless the frame
/// released is one of them.
pub proof fn release_keeps_bitmap_excluded(s: FrameState, frame_addr: u64)
    requires
        s.metadata_excluded(),
        !s.overlaps_bitmap((frame_addr / 4096) as nat),
    ensures
        s.release(frame_addr).metadata_excluded(),
{
}

/// A release makes the next allocation succeed when the frame lies below
/// `max_pfn`.
pub proof fn release_ends_exhaustion(s: FrameState, frame_addr: u64)
    requires
        s.valid(),
        frame_addr / 4096 < s.max_pfn,
    ensures
        s.release(frame_addr).valid(),
        s.release(frame_addr).allocate().0 is Some,
{
    let after = s.release(frame_addr);
    lemma_lowest_free(after);
    assert(after.free.contains((frame_addr / 4096) as nat));
}

} // verus!
