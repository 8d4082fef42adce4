use kernel::mm::frame_alloc::{alloc_frame, check_regions, init, FrameAllocator};
use kernel::mm::page::{translate, AddressSpace, PageTableEntry, PRESENT, WRITABLE};
use kernel::mm::stack::{
    allocate_kernel_stack, StackError, KERNEL_STACK_BASE, KERNEL_STACK_PAGES, PAGE_SIZE,
};
use kernel::mm::types::{MemoryRegion, RegionType};

const HHDM: u64 = 0xffff_8000_0000_0000;
const ROOT: u64 = 0x1000;

/// `free` usable frames, 0x11 and up, above the bitmap's frame 0x10.
fn frames_with(free: u64) -> FrameAllocator {
    let regions = vec![MemoryRegion {
        base: 0x10000,
        length: (free + 1) * 0x1000,
        kind: RegionType::Usable,
    }];
    assert!(check_regions(&regions));
    init(&regions, HHDM)
}

#[test]
fn stack_window_constants() {
    assert_eq!(KERNEL_STACK_BASE, 0xffff_ffff_9000_0000);
    assert_eq!(KERNEL_STACK_PAGES, 4);
    assert_eq!(PAGE_SIZE, 4096);
}

#[test]
fn stack_top_is_one_page_above_the_top_mapped_page() {
    let mut space = AddressSpace::new(ROOT);
    let mut fa = frames_with(16);
    assert_eq!(
        allocate_kernel_stack(&mut space, &mut fa, HHDM),
        Ok(KERNEL_STACK_BASE + 0x5000)
    );
}

#[test]
fn guard_page_is_unmapped_and_the_four_pages_above_are_mapped() {
    let mut space = AddressSpace::new(ROOT);
    let mut fa = frames_with(16);
    assert!(allocate_kernel_stack(&mut space, &mut fa, HHDM).is_ok());
    assert_eq!(translate(&space, KERNEL_STACK_BASE, HHDM), None);
    assert_eq!(translate(&space, KERNEL_STACK_BASE + 0xfff, HHDM), None);
    // The first page takes its frame before its tables are made.
    assert_eq!(translate(&space, KERNEL_STACK_BASE + 0x1000, HHDM), Some(0x11000));
    assert_eq!(translate(&space, KERNEL_STACK_BASE + 0x2000, HHDM), Some(0x15000));
    assert_eq!(translate(&space, KERNEL_STACK_BASE + 0x3000, HHDM), Some(0x16000));
    assert_eq!(translate(&space, KERNEL_STACK_BASE + 0x4000, HHDM), Some(0x17000));
    assert_eq!(translate(&space, KERNEL_STACK_BASE + 0x4ff8, HHDM), Some(0x17ff8));
    assert_eq!(translate(&space, KERNEL_STACK_BASE + 0x5000, HHDM), None);
    assert_eq!(alloc_frame(&mut fa), Some(0x18000));
}

#[test]
fn stack_pages_are_present_and_writable() {
    let mut space = AddressSpace::new(ROOT);
    let mut fa = frames_with(16);
    assert!(allocate_kernel_stack(&mut space, &mut fa, HHDM).is_ok());
    // Tables in frames 0x12, 0x13, 0x14; the leaf table is the last.
    for i in 1..=4u64 {
        let e = space.read_entry(0x14000, i as usize, HHDM);
        assert_eq!(e.raw() & 0xfff, PRESENT | WRITABLE);
    }
    assert_eq!(space.read_entry(0x14000, 0, HHDM).raw(), 0);
    assert_eq!(space.read_entry(0x14000, 5, HHDM).raw(), 0);
}

#[test]
fn stack_needs_seven_frames() {
    let mut space = AddressSpace::new(ROOT);
    let mut fa = frames_with(7);
    assert_eq!(
        allocate_kernel_stack(&mut space, &mut fa, HHDM),
        Ok(KERNEL_STACK_BASE + 0x5000)
    );
    assert_eq!(alloc_frame(&mut fa), None);
}

#[test]
fn stack_without_frames_is_out_of_frames() {
    let mut space = AddressSpace::new(ROOT);
    let mut fa = frames_with(0);
    assert_eq!(
        allocate_kernel_stack(&mut space, &mut fa, HHDM),
        Err(StackError::OutOfFrames)
    );
    assert_eq!(translate(&space, KERNEL_STACK_BASE + 0x1000, HHDM), None);
}

#[test]
fn stack_that_runs_out_after_some_pages_keeps_them() {
    let mut space = AddressSpace::new(ROOT);
    let mut fa = frames_with(6);
    assert_eq!(
        allocate_kernel_stack(&mut space, &mut fa, HHDM),
        Err(StackError::OutOfFrames)
    );
    assert_eq!(translate(&space, KERNEL_STACK_BASE + 0x1000, HHDM), Some(0x11000));
    assert_eq!(translate(&space, KERNEL_STACK_BASE + 0x3000, HHDM), Some(0x16000));
    assert_eq!(translate(&space, KERNEL_STACK_BASE + 0x4000, HHDM), None);
    assert_eq!(alloc_frame(&mut fa), None);
}

#[test]
fn stack_whose_tables_cannot_be_made_is_map_failed() {
    let mut space = AddressSpace::new(ROOT);
    let mut fa = frames_with(3);
    assert_eq!(
        allocate_kernel_stack(&mut space, &mut fa, HHDM),
        Err(StackError::MapFailed)
    );
    // The page's frame and two tables are gone.
    assert_eq!(alloc_frame(&mut fa), None);
    assert_eq!(translate(&space, KERNEL_STACK_BASE + 0x1000, HHDM), None);
}

#[test]
fn a_second_stack_is_map_failed() {
    let mut space = AddressSpace::new(ROOT);
    let mut fa = frames_with(16);
    assert!(allocate_kernel_stack(&mut space, &mut fa, HHDM).is_ok());
    assert_eq!(
        allocate_kernel_stack(&mut space, &mut fa, HHDM),
        Err(StackError::MapFailed)
    );
    assert_eq!(translate(&space, KERNEL_STACK_BASE + 0x1000, HHDM), Some(0x11000));
    // The frame taken for the page that could not be mapped is not returned.
    assert_eq!(alloc_frame(&mut fa), Some(0x19000));
}

#[test]
fn stack_under_a_huge_leaf_is_map_failed() {
    let mut space = AddressSpace::new(ROOT);
    let mut fa = frames_with(16);
    space.write_entry(ROOT, 511, PageTableEntry::from_raw(0x2003), HHDM);
    space.write_entry(0x2000, 510, PageTableEntry::from_raw(0x8000_0000 | 0x83), HHDM);
    assert_eq!(
        allocate_kernel_stack(&mut space, &mut fa, HHDM),
        Err(StackError::MapFailed)
    );
}

#[test]
fn a_guard_page_that_was_mapped_before_stays_mapped() {
    let mut space = AddressSpace::new(ROOT);
    let mut fa = frames_with(16);
    assert_eq!(
        kernel::mm::page::map(&mut space, &mut fa, KERNEL_STACK_BASE, 0x7000_0000, PRESENT, HHDM),
        Ok(())
    );
    assert!(allocate_kernel_stack(&mut space, &mut fa, HHDM).is_ok());
    assert_eq!(translate(&space, KERNEL_STACK_BASE, HHDM), Some(0x7000_0000));
}
