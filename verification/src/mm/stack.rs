//! The kernel stack: a run of mapped pages above one page that is never
//! mapped, so that running off the stack's low end faults.

use crate::mm::frame_alloc::{
    alloc_frame, lemma_allocate_keeps, lemma_lowest_free, FrameAllocator, FrameState,
};
use crate::mm::page::{
    entry_addr, entry_present, has_path, lemma_link_bits, lemma_map_on_path, lemma_map_shape,
    lemma_mask_idempotent, lemma_write_keeps_path, level_index, made_tables_are_fresh,
    map_outcome, map_tables, AddressSpace, SpaceView, ADDR_MASK, PD_SHIFT, PDPT_SHIFT,
    PML4_SHIFT, PRESENT, PT_SHIFT, WRITABLE,
};
use crate::mm::types::direct_map;
use vstd::prelude::*;

verus! {

/// Virtual address of the guard page, the lowest page of the stack's window.
pub const KERNEL_STACK_BASE: u64 = 0xffff_ffff_9000_0000;

/// Mapped pages of the stack.
pub const KERNEL_STACK_PAGES: u64 = 4;

/// Bytes in one page.
pub const PAGE_SIZE: u64 = 4096;

/// Why the stack could not be built.
#[derive(Clone, Copy, Debug, PartialEq, Eq, Structural)]
pub enum StackError {
    /// No frame was left for a page of the stack.
    OutOfFrames,
    /// A page of the stack could not be mapped.
    MapFailed,
}

/// Virtual address of page `i` of the stack's window; page 0 is the guard.
pub open spec fn stack_page(i: nat) -> u64 {
    (KERNEL_STACK_BASE + i * 4096) as u64
}

/// The address a stack pointer starts at: one page above the top mapped
/// page.
pub open spec fn stack_top() -> u64 {
    stack_page((KERNEL_STACK_PAGES + 1) as nat)
}

/// One page of the stack: after `prev`, take a frame and map page `i` to
/// it, present and writable. A failure before stays as it is.
pub open spec fn stack_step(
    prev: (Result<(), StackError>, SpaceView, FrameState),
    i: nat,
    hhdm_offset: u64,
) -> (Result<(), StackError>, SpaceView, FrameState) {
    match prev.0 {
        Err(_) => prev,
        Ok(_) => match prev.2.allocate() {
            (None, _) => (Err(StackError::OutOfFrames), prev.1, prev.2),
            (Some(frame), rest) => {
                let mapped = map_outcome(
                    prev.1,
                    rest,
                    stack_page(i),
                    frame,
                    PRESENT | WRITABLE,
                    hhdm_offset,
                );
                match mapped.0 {
                    Ok(_) => (Ok(()), mapped.1, mapped.2),
                    Err(_) => (Err(StackError::MapFailed), mapped.1, mapped.2),
                }
            },
        },
    }
}

/// Pages 1 to `count` of the stack, one after the other, up to the first
/// that fails.
pub open spec fn stack_pages_mapped(
    space: SpaceView,
    frames: FrameState,
    hhdm_offset: u64,
    count: nat,
) -> (Result<(), StackError>, SpaceView, FrameState)
    decreases count,
{
    if count == 0 {
        (Ok(()), space, frames)
    } else {
        stack_step(
            stack_pages_mapped(space, frames, hhdm_offset, (count - 1) as nat),
            count,
            hhdm_offset,
        )
    }
}

/// Result of building the stack, and the space and the allocator
/// afterwards. Nothing is undone when a page fails.
pub open spec fn stack_outcome(space: SpaceView, frames: FrameState, hhdm_offset: u64) -> (
    Result<u64, StackError>,
    SpaceView,
    FrameState,
) {
    let done = stack_pages_mapped(space, frames, hhdm_offset, KERNEL_STACK_PAGES as nat);
    match done.0 {
        Ok(_) => (Ok(stack_top()), done.1, done.2),
        Err(e) => (Err(e), done.1, done.2),
    }
}

/// Once a page has failed, the pages after it change nothing.
pub proof fn lemma_failure_stays(
    space: SpaceView,
    frames: FrameState,
    hhdm_offset: u64,
    failed: nat,
    count: nat,
)
    requires
        failed <= count,
        stack_pages_mapped(space, frames, hhdm_offset, failed).0 is Err,
    ensures
        stack_pages_mapped(space, frames, hhdm_offset, count) == stack_pages_mapped(
            space,
            frames,
            hhdm_offset,
            failed,
        ),
    decreases count,
{
    if failed < count {
        lemma_failure_stays(space, frames, hhdm_offset, failed, (count - 1) as nat);
    }
}

/// Build the kernel stack: map the four pages above `KERNEL_STACK_BASE`,
/// each to a frame of its own, and leave the page at the base unmapped.
/// Returns the address one page above the top mapped page.
pub fn allocate_kernel_stack(
    space: &mut AddressSpace,
    frames: &mut FrameAllocator,
    hhdm_offset: u64,
) -> (r: Result<u64, StackError>)
    requires
        old(space).wf(),
        old(frames).wf(),
    ensures
        final(space).wf(),
        final(frames).wf(),
        r == stack_outcome(old(space)@, old(frames)@, hhdm_offset).0,
        final(space)@ == stack_outcome(old(space)@, old(frames)@, hhdm_offset).1,
        final(frames)@ == stack_outcome(old(space)@, old(frames)@, hhdm_offset).2,
{
    let mut i: u64 = 1;
    while i <= KERNEL_STACK_PAGES
        invariant
            1 <= i <= KERNEL_STACK_PAGES + 1,
            space.wf(),
            frames.wf(),
            stack_pages_mapped(old(space)@, old(frames)@, hhdm_offset, (i - 1) as nat) == (
                Ok::<(), StackError>(()),
                space@,
                frames@,
            ),
        decreases KERNEL_STACK_PAGES + 1 - i,
    {
        let virt_addr: u64 = KERNEL_STACK_BASE + i * PAGE_SIZE;
        let ghost before = frames@;
        proof {
            frames.lemma_wf_valid();
            lemma_lowest_free(before);
        }
        let phys_addr: u64 = match alloc_frame(frames) {
            Some(frame) => frame,
            None => {
                proof {
                    lemma_failure_stays(
                        old(space)@,
                        old(frames)@,
                        hhdm_offset,
                        i as nat,
                        KERNEL_STACK_PAGES as nat,
                    );
                }
                return Err(StackError::OutOfFrames);
            },
        };
        match crate::mm::page::map(
            space,
            frames,
            virt_addr,
            phys_addr,
            PRESENT | WRITABLE,
            hhdm_offset,
        ) {
            Ok(_) => {},
            Err(_) => {
                proof {
                    lemma_failure_stays(
                        old(space)@,
                        old(frames)@,
                        hhdm_offset,
                        i as nat,
                        KERNEL_STACK_PAGES as nat,
                    );
                }
                return Err(StackError::MapFailed);
            },
        }
        i = i + 1;
    }
    Ok(KERNEL_STACK_BASE + (KERNEL_STACK_PAGES + 1) * PAGE_SIZE)
}

/// The frame that page `i` of the stack is mapped to: the one taken from
/// the allocator as it stands after the pages before.
pub open spec fn stack_frame(space: SpaceView, frames: FrameState, hhdm_offset: u64, i: nat) -> u64 {
    stack_pages_mapped(space, frames, hhdm_offset, (i - 1) as nat).2.allocate().0->0
}

proof fn lemma_window_indices()
    by (bit_vector)
    ensures
        (0xffff_ffff_9000_1000u64 >> 39) & 0x1FF == (0xffff_ffff_9000_0000u64 >> 39) & 0x1FF,
        (0xffff_ffff_9000_2000u64 >> 39) & 0x1FF == (0xffff_ffff_9000_0000u64 >> 39) & 0x1FF,
        (0xffff_ffff_9000_3000u64 >> 39) & 0x1FF == (0xffff_ffff_9000_0000u64 >> 39) & 0x1FF,
        (0xffff_ffff_9000_4000u64 >> 39) & 0x1FF == (0xffff_ffff_9000_0000u64 >> 39) & 0x1FF,
        (0xffff_ffff_9000_1000u64 >> 30) & 0x1FF == (0xffff_ffff_9000_0000u64 >> 30) & 0x1FF,
        (0xffff_ffff_9000_2000u64 >> 30) & 0x1FF == (0xffff_ffff_9000_0000u64 >> 30) & 0x1FF,
        (0xffff_ffff_9000_3000u64 >> 30) & 0x1FF == (0xffff_ffff_9000_0000u64 >> 30) & 0x1FF,
        (0xffff_ffff_9000_4000u64 >> 30) & 0x1FF == (0xffff_ffff_9000_0000u64 >> 30) & 0x1FF,
        (0xffff_ffff_9000_1000u64 >> 21) & 0x1FF == (0xffff_ffff_9000_0000u64 >> 21) & 0x1FF,
        (0xffff_ffff_9000_2000u64 >> 21) & 0x1FF == (0xffff_ffff_9000_0000u64 >> 21) & 0x1FF,
        (0xffff_ffff_9000_3000u64 >> 21) & 0x1FF == (0xffff_ffff_9000_0000u64 >> 21) & 0x1FF,
        (0xffff_ffff_9000_4000u64 >> 21) & 0x1FF == (0xffff_ffff_9000_0000u64 >> 21) & 0x1FF,
        (0xffff_ffff_9000_0000u64 >> 39) & 0x1FF == 511,
        (0xffff_ffff_9000_0000u64 >> 30) & 0x1FF == 510,
        (0xffff_ffff_9000_0000u64 >> 21) & 0x1FF == 128,
        (0xffff_ffff_9000_0000u64 >> 12) & 0x1FF == 0,
        (0xffff_ffff_9000_1000u64 >> 12) & 0x1FF == 1,
        (0xffff_ffff_9000_2000u64 >> 12) & 0x1FF == 2,
        (0xffff_ffff_9000_3000u64 >> 12) & 0x1FF == 3,
        (0xffff_ffff_9000_4000u64 >> 12) & 0x1FF == 4,
        0xffff_ffff_9000_0000u64 & 0xFFF == 0,
        0xffff_ffff_9000_1000u64 & 0xFFF == 0,
        0xffff_ffff_9000_2000u64 & 0xFFF == 0,
        0xffff_ffff_9000_3000u64 & 0xFFF == 0,
        0xffff_ffff_9000_4000u64 & 0xFFF == 0,
{
}

proof fn lemma_or_zero(a: u64)
    by (bit_vector)
    ensures
        a | 0 == a,
{
}

/// The pages of the stack's window share the guard page's entries above
/// the leaf table, and page `i` has index `i` in the leaf table.
proof fn lemma_window(i: nat)
    requires
        i <= 4,
    ensures
        level_index(stack_page(i), PML4_SHIFT) == 511,
        level_index(stack_page(i), PDPT_SHIFT) == 510,
        level_index(stack_page(i), PD_SHIFT) == 128,
        level_index(stack_page(i), PT_SHIFT) == i,
        stack_page(i) & 0xFFF == 0,
        stack_page(i) % 4096 == 0,
        stack_page(0) == KERNEL_STACK_BASE,
{
    lemma_window_indices();
}

/// What the frame of a stack page looks like in a leaf entry.
proof fn lemma_stack_frame_bits(frames: FrameState)
    requires
        frames.valid(),
        frames.max_pfn <= 0x100_0000_0000,
        frames.allocate().0 is Some,
    ensures
        ({
            let frame = frames.allocate().0->0;
            let leaf = frame | (PRESENT | WRITABLE);
            &&& frame & ADDR_MASK == frame
            &&& frame % 4096 == 0
            &&& entry_present(leaf)
            &&& entry_addr(leaf) == frame
            &&& (PRESENT | WRITABLE) & ADDR_MASK == 0
            &&& (PRESENT | WRITABLE) | PRESENT == PRESENT | WRITABLE
            &&& frames.allocate().1.valid()
            &&& frames.allocate().1.max_pfn == frames.max_pfn
        }),
{
    lemma_lowest_free(frames);
    lemma_allocate_keeps(frames);
    let frame = frames.allocate().0->0;
    lemma_link_bits(frame);
    lemma_mask_idempotent(frame);
    assert(3u64 & 0x000F_FFFF_FFFF_F000 == 0 && (1u64 | 2u64) | 1u64 == 1u64 | 2u64 && 1u64 | 2u64
        == 3u64) by (bit_vector);
}

/// A further page of the stack, where the walk for the window already
/// leads to a leaf table: only that page's leaf entry changes.
proof fn lemma_next_stack_page(
    space: SpaceView,
    frames: FrameState,
    hhdm_offset: u64,
    pdpt: u64,
    pd: u64,
    pt: u64,
    i: nat,
)
    requires
        space.valid(),
        frames.valid(),
        frames.max_pfn <= 0x100_0000_0000,
        has_path(space, KERNEL_STACK_BASE, hhdm_offset, pdpt, pd, pt),
        1 <= i <= 4,
        stack_step((Ok(()), space, frames), i, hhdm_offset).0 is Ok,
    ensures
        ({
            let out = stack_step((Ok(()), space, frames), i, hhdm_offset);
            let frame = frames.allocate().0->0;
            let pt_virt = direct_map(pt, hhdm_offset);
            &&& out.1.valid()
            &&& out.2.valid()
            &&& out.2.max_pfn == frames.max_pfn
            &&& has_path(out.1, KERNEL_STACK_BASE, hhdm_offset, pdpt, pd, pt)
            &&& out.1.entry(pt_virt, i as int) == frame | (PRESENT | WRITABLE)
            &&& forall|j: int|
                0 <= j < 512 && j != i ==> #[trigger] out.1.entry(pt_virt, j) == space.entry(
                    pt_virt,
                    j,
                )
        }),
{
    let frame = frames.allocate().0->0;
    let rest = frames.allocate().1;
    let virt = stack_page(i);
    let pt_virt = direct_map(pt, hhdm_offset);
    lemma_window(i);
    lemma_window(0);
    lemma_stack_frame_bits(frames);
    lemma_map_on_path(space, rest, virt, frame, PRESENT | WRITABLE, hhdm_offset);
    assert(!entry_present(space.entry(pt_virt, i as int)));
    lemma_write_keeps_path(
        space,
        pt_virt,
        i as int,
        frame | (PRESENT | WRITABLE),
        KERNEL_STACK_BASE,
        hhdm_offset,
        pdpt,
        pd,
        pt,
    );
}

/// The first page of the stack: afterwards the walk for the window leads to
/// a leaf table whose entry for the guard page is not present.
proof fn lemma_first_stack_page(space: SpaceView, frames: FrameState, hhdm_offset: u64)
    requires
        space.valid(),
        frames.valid(),
        frames.max_pfn <= 0x100_0000_0000,
        stack_step((Ok(()), space, frames), 1, hhdm_offset).0 is Ok,
        space.translate(KERNEL_STACK_BASE, hhdm_offset) is None,
        made_tables_are_fresh(space, frames.allocate().1, stack_page(1), hhdm_offset),
    ensures
        ({
            let out = stack_step((Ok(()), space, frames), 1, hhdm_offset);
            let frame = frames.allocate().0->0;
            let t = map_tables(space, frames.allocate().1, stack_page(1), hhdm_offset);
            let pt_virt = direct_map(t.2, hhdm_offset);
            &&& out.1.valid()
            &&& out.2.valid()
            &&& out.2.max_pfn == frames.max_pfn
            &&& has_path(out.1, KERNEL_STACK_BASE, hhdm_offset, t.0, t.1, t.2)
            &&& out.1.entry(pt_virt, 1) == frame | (PRESENT | WRITABLE)
            &&& !entry_present(out.1.entry(pt_virt, 0))
        }),
{
    let frame = frames.allocate().0->0;
    let rest = frames.allocate().1;
    let virt = stack_page(1);
    lemma_window(1);
    lemma_window(0);
    lemma_stack_frame_bits(frames);
    lemma_map_shape(space, rest, virt, frame, PRESENT | WRITABLE, hhdm_offset);
    lemma_mask_idempotent(0);
    let t = map_tables(space, rest, virt, hhdm_offset);
    let pt_virt = direct_map(t.2, hhdm_offset);
    let out = stack_step((Ok(()), space, frames), 1, hhdm_offset);
    if space.leaf_table(virt, hhdm_offset) is Ok {
        lemma_map_on_path(space, rest, virt, frame, PRESENT | WRITABLE, hhdm_offset);
        assert(!entry_present(space.entry(pt_virt, 1)));
        lemma_write_keeps_path(
            space,
            pt_virt,
            1,
            frame | (PRESENT | WRITABLE),
            KERNEL_STACK_BASE,
            hhdm_offset,
            t.0,
            t.1,
            t.2,
        );
    } else {
        assert(out.1.entry(pt_virt, 0) == 0);
    }
}

/// The guard page of a stack that was built is unmapped, and each of the
/// four pages above it translates to the frame taken for it.
///
/// This holds where the guard page was unmapped before, the tables made
/// for the first page are fresh, and every frame of the allocator lies
/// below 2^52, so that an entry can hold its address.
#[verifier::rlimit(40)]
pub proof fn guard_page_stays_unmapped(space: SpaceView, frames: FrameState, hhdm_offset: u64)
    requires
        space.valid(),
        frames.valid(),
        frames.max_pfn <= 0x100_0000_0000,
        stack_outcome(space, frames, hhdm_offset).0 is Ok,
        space.translate(KERNEL_STACK_BASE, hhdm_offset) is None,
        made_tables_are_fresh(space, frames.allocate().1, stack_page(1), hhdm_offset),
    ensures
        ({
            let built = stack_outcome(space, frames, hhdm_offset);
            &&& built.0 == Ok::<u64, StackError>((KERNEL_STACK_BASE + 0x5000) as u64)
            &&& built.1.translate(KERNEL_STACK_BASE, hhdm_offset) is None
            &&& forall|i: nat|
                1 <= i <= 4 ==> #[trigger] built.1.translate(stack_page(i), hhdm_offset) == Some(
                    stack_frame(space, frames, hhdm_offset, i),
                )
        }),
{
    reveal_with_fuel(stack_pages_mapped, 6);
    let st1 = stack_pages_mapped(space, frames, hhdm_offset, 1);
    let st2 = stack_pages_mapped(space, frames, hhdm_offset, 2);
    let st3 = stack_pages_mapped(space, frames, hhdm_offset, 3);
    let st4 = stack_pages_mapped(space, frames, hhdm_offset, 4);
    // The last page was mapped, so every page before it was.
    assert(st4.0 is Ok);
    assert(st3.0 is Ok);
    assert(st2.0 is Ok);
    assert(st1.0 is Ok);
    let t = map_tables(space, frames.allocate().1, stack_page(1), hhdm_offset);
    let pt_virt = direct_map(t.2, hhdm_offset);
    lemma_first_stack_page(space, frames, hhdm_offset);
    lemma_next_stack_page(st1.1, st1.2, hhdm_offset, t.0, t.1, t.2, 2);
    lemma_next_stack_page(st2.1, st2.2, hhdm_offset, t.0, t.1, t.2, 3);
    lemma_next_stack_page(st3.1, st3.2, hhdm_offset, t.0, t.1, t.2, 4);
    lemma_stack_frame_bits(frames);
    lemma_stack_frame_bits(st1.2);
    lemma_stack_frame_bits(st2.2);
    lemma_stack_frame_bits(st3.2);
    lemma_window(0);
    lemma_window(1);
    lemma_window(2);
    lemma_window(3);
    lemma_window(4);
    // Each entry of the leaf table is as the page that set it left it.
    let after = st4.1;
    assert(after.entry(pt_virt, 0) == st1.1.entry(pt_virt, 0));
    assert(after.entry(pt_virt, 1) == st1.1.entry(pt_virt, 1));
    assert(after.entry(pt_virt, 2) == st2.1.entry(pt_virt, 2));
    assert(after.entry(pt_virt, 3) == st3.1.entry(pt_virt, 3));
    assert forall|i: nat| 1 <= i <= 4 implies #[trigger] after.translate(
        stack_page(i),
        hhdm_offset,
    ) == Some(stack_frame(space, frames, hhdm_offset, i)) by {
        let frame = stack_frame(space, frames, hhdm_offset, i);
        lemma_or_zero(frame);
        assert(after.entry(pt_virt, i as int) == frame | (PRESENT | WRITABLE));
    }
}

} // verus!
