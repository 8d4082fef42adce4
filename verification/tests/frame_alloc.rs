use kernel::mm::frame_alloc::{
    alloc_frame, bitmap_overlaps, check_regions, end_frame, first_usable_region, frame_to_byte_bit,
    free, init, is_frame_free, mark_frame_allocated, mark_frame_free, max_pfn, start_frame,
    FrameAllocator,
};
use kernel::mm::types::{phys_to_virt, MemoryRegion, RegionType};

const HHDM: u64 = 0xffff_8000_0000_0000;

fn region(base: u64, length: u64, kind: RegionType) -> MemoryRegion {
    MemoryRegion { base, length, kind }
}

fn boot_regions() -> Vec<MemoryRegion> {
    vec![
        region(0, 0x100000, RegionType::Reserved),
        region(0x100000, 0x400000, RegionType::Usable),
    ]
}

/// Three frames, all usable; the bitmap takes the first.
fn tiny() -> FrameAllocator {
    let regions = vec![region(0, 0x3000, RegionType::Usable)];
    assert!(check_regions(&regions));
    init(&regions, HHDM)
}

#[test]
fn empty_region_is_unknown_and_has_no_bytes() {
    let r = MemoryRegion::empty();
    assert_eq!(r.base, 0);
    assert_eq!(r.length, 0);
    assert!(matches!(r.kind, RegionType::Unknown));
}

#[test]
fn direct_map_adds_the_offset() {
    assert_eq!(phys_to_virt(0x100000, HHDM), 0xffff_8000_0010_0000);
    assert_eq!(phys_to_virt(0, HHDM), HHDM);
}

#[test]
fn direct_map_wraps_at_the_top() {
    assert_eq!(phys_to_virt(0x8000_0000_0000, HHDM), 0);
    assert_eq!(phys_to_virt(u64::MAX, 2), 1);
}

#[test]
fn frame_to_byte_bit_splits_by_eight() {
    assert_eq!(frame_to_byte_bit(0), (0, 0));
    assert_eq!(frame_to_byte_bit(7), (0, 7));
    assert_eq!(frame_to_byte_bit(8), (1, 0));
    assert_eq!(frame_to_byte_bit(0x101), (0x20, 1));
}

#[test]
fn start_and_end_frame_of_a_region() {
    let r = region(0x100000, 0x400000, RegionType::Usable);
    assert_eq!(start_frame(&r), 0x100);
    assert_eq!(end_frame(&r), 0x4ff);
    let odd = region(0x1800, 0x1001, RegionType::Usable);
    assert_eq!(start_frame(&odd), 1);
    assert_eq!(end_frame(&odd), 2);
}

#[test]
fn max_pfn_is_one_past_the_highest_frame() {
    assert_eq!(max_pfn(&boot_regions()), 0x500);
    assert_eq!(max_pfn(&[]), 1);
    let reserved_on_top = vec![
        region(0, 0x2000, RegionType::Usable),
        region(0x10000, 0x1000, RegionType::Reserved),
    ];
    assert_eq!(max_pfn(&reserved_on_top), 0x11);
}

#[test]
fn first_usable_region_skips_the_others() {
    let regions = vec![
        region(0, 0x1000, RegionType::Reserved),
        region(0x1000, 0x1000, RegionType::Bootloader),
        region(0x2000, 0x3000, RegionType::Usable),
        region(0x8000, 0x1000, RegionType::Usable),
    ];
    let first = first_usable_region(&regions);
    assert_eq!(first.base, 0x2000);
    assert_eq!(first.length, 0x3000);
}

#[test]
fn check_regions_accepts_the_boot_map() {
    assert!(check_regions(&boot_regions()));
}

#[test]
fn check_regions_wants_a_usable_region() {
    assert!(!check_regions(&[]));
    assert!(!check_regions(&[region(0, 0x100000, RegionType::Reserved)]));
}

#[test]
fn check_regions_refuses_a_region_without_bytes() {
    assert!(!check_regions(&[
        region(0, 0x100000, RegionType::Usable),
        MemoryRegion::empty(),
    ]));
}

#[test]
fn check_regions_refuses_a_region_past_the_address_space() {
    assert!(!check_regions(&[region(u64::MAX, 2, RegionType::Usable)]));
    assert!(!check_regions(&[
        region(0, 0x1000_0000, RegionType::Usable),
        region(u64::MAX - 1, 3, RegionType::Reserved),
    ]));
}

#[test]
fn check_regions_refuses_a_bitmap_that_does_not_fit() {
    // 0x500 frames take 160 bytes; the first usable region has 160.
    let regions = vec![
        region(0x1000, 160, RegionType::Usable),
        region(0x100000, 0x400000, RegionType::Usable),
    ];
    assert!(!check_regions(&regions));
    let one_more = vec![
        region(0x1000, 161, RegionType::Usable),
        region(0x100000, 0x400000, RegionType::Usable),
    ];
    assert!(check_regions(&one_more));
}

#[test]
fn init_places_the_bitmap_in_the_first_usable_region() {
    let fa = init(&boot_regions(), HHDM);
    assert_eq!(fa.max_pfn(), 0x500);
    assert_eq!(fa.bitmap_size(), 160);
    assert_eq!(fa.bitmap_phys_start(), 0x100000);
    assert_eq!(fa.bitmap_addr(), 0xffff_8000_0010_0000);
}

#[test]
fn init_frees_usable_frames_only() {
    let fa = init(&boot_regions(), HHDM);
    assert!(!is_frame_free(&fa, 0));
    assert!(!is_frame_free(&fa, 0xff));
    assert!(!is_frame_free(&fa, 0x100));
    assert!(is_frame_free(&fa, 0x101));
    assert!(is_frame_free(&fa, 0x4ff));
    assert!(!is_frame_free(&fa, 0x500));
    assert!(!is_frame_free(&fa, u64::MAX));
}

#[test]
fn first_alloc_is_the_frame_after_the_bitmap() {
    let mut fa = init(&boot_regions(), HHDM);
    assert_eq!(alloc_frame(&mut fa), Some(0x101000));
    assert_eq!(alloc_frame(&mut fa), Some(0x102000));
}

#[test]
fn bitmap_overlaps_covers_every_frame_under_the_bitmap() {
    // 0x8001 frames take 0x1001 bytes: two frames of bitmap.
    let regions = vec![region(0x5000, 0x8000_000 - 0x4000, RegionType::Usable)];
    assert_eq!(max_pfn(&regions), 0x8001);
    let mut fa = init(&regions, 0);
    assert_eq!(fa.bitmap_size(), 0x1001);
    assert!(!bitmap_overlaps(&fa, 4));
    assert!(bitmap_overlaps(&fa, 5));
    assert!(bitmap_overlaps(&fa, 6));
    assert!(!bitmap_overlaps(&fa, 7));
    assert_eq!(alloc_frame(&mut fa), Some(0x7000));
}

#[test]
fn allocations_are_distinct_and_were_free() {
    let mut fa = init(&boot_regions(), HHDM);
    let mut seen: Vec<u64> = Vec::new();
    for _ in 0..64 {
        let pfn_free_before: Vec<bool> = seen.iter().map(|a| is_frame_free(&fa, a / 4096)).collect();
        assert!(pfn_free_before.iter().all(|f| !f));
        let addr = alloc_frame(&mut fa).unwrap();
        assert_eq!(addr % 4096, 0);
        assert!(!seen.contains(&addr));
        assert!(!is_frame_free(&fa, addr / 4096));
        seen.push(addr);
    }
}

#[test]
fn no_allocation_falls_inside_the_bitmap() {
    let mut fa = init(&boot_regions(), HHDM);
    let start = fa.bitmap_phys_start();
    let end = start + fa.bitmap_size() as u64;
    let mut handed_out = 0;
    while let Some(addr) = alloc_frame(&mut fa) {
        assert!(addr + 4096 <= start || addr >= end);
        handed_out += 1;
    }
    assert_eq!(handed_out, 0x3ff);
}

#[test]
fn exhaustion_is_stable_until_a_free() {
    let mut fa = tiny();
    assert_eq!(alloc_frame(&mut fa), Some(0x1000));
    assert_eq!(alloc_frame(&mut fa), Some(0x2000));
    assert_eq!(alloc_frame(&mut fa), None);
    assert_eq!(alloc_frame(&mut fa), None);
    assert_eq!(alloc_frame(&mut fa), None);
    free(&mut fa, 0x2000);
    assert_eq!(alloc_frame(&mut fa), Some(0x2000));
    assert_eq!(alloc_frame(&mut fa), None);
}

#[test]
fn free_takes_any_address_in_the_frame() {
    let mut fa = tiny();
    assert_eq!(alloc_frame(&mut fa), Some(0x1000));
    free(&mut fa, 0x1fff);
    assert!(is_frame_free(&fa, 1));
    assert_eq!(alloc_frame(&mut fa), Some(0x1000));
}

#[test]
fn free_ignores_frames_out_of_range() {
    let mut fa = tiny();
    assert_eq!(alloc_frame(&mut fa), Some(0x1000));
    assert_eq!(alloc_frame(&mut fa), Some(0x2000));
    free(&mut fa, 0x3000);
    free(&mut fa, u64::MAX);
    assert_eq!(alloc_frame(&mut fa), None);
    assert!(!is_frame_free(&fa, 3));
}

#[test]
fn free_of_a_free_frame_changes_nothing() {
    let mut fa = tiny();
    free(&mut fa, 0x1000);
    free(&mut fa, 0x1000);
    assert_eq!(alloc_frame(&mut fa), Some(0x1000));
    assert_eq!(alloc_frame(&mut fa), Some(0x2000));
    assert_eq!(alloc_frame(&mut fa), None);
}

#[test]
fn free_clears_the_bit_of_a_frame_under_the_bitmap_too() {
    let mut fa = tiny();
    assert!(bitmap_overlaps(&fa, 0));
    assert!(!is_frame_free(&fa, 0));
    free(&mut fa, 0);
    assert!(is_frame_free(&fa, 0));
    assert_eq!(alloc_frame(&mut fa), Some(0));
}

#[test]
fn mark_frame_free_and_allocated_flip_one_bit() {
    let mut fa = tiny();
    mark_frame_allocated(&mut fa, 1);
    assert!(!is_frame_free(&fa, 1));
    assert!(is_frame_free(&fa, 2));
    mark_frame_free(&mut fa, 1);
    assert!(is_frame_free(&fa, 1));
    assert!(is_frame_free(&fa, 2));
    assert!(!is_frame_free(&fa, 0));
}

#[test]
fn a_frame_without_a_bit_is_never_free() {
    let mut fa = tiny();
    assert_eq!(fa.bitmap_size(), 1);
    mark_frame_free(&mut fa, 8);
    assert!(!is_frame_free(&fa, 8));
    mark_frame_allocated(&mut fa, 8);
    assert!(!is_frame_free(&fa, 8));
    // Frame 7 has a bit, though it lies past `max_pfn`: `alloc_frame` never
    // looks at it.
    mark_frame_free(&mut fa, 7);
    assert!(is_frame_free(&fa, 7));
    assert_eq!(alloc_frame(&mut fa), Some(0x1000));
    assert_eq!(alloc_frame(&mut fa), Some(0x2000));
    assert_eq!(alloc_frame(&mut fa), None);
}

#[test]
fn overlapping_usable_regions_free_each_frame_once() {
    let regions = vec![
        region(0, 0x3000, RegionType::Usable),
        region(0x1000, 0x3000, RegionType::Usable),
        region(0x2000, 0x1000, RegionType::Reserved),
    ];
    let mut fa = init(&regions, HHDM);
    assert_eq!(fa.max_pfn(), 4);
    assert_eq!(alloc_frame(&mut fa), Some(0x1000));
    assert_eq!(alloc_frame(&mut fa), Some(0x2000));
    assert_eq!(alloc_frame(&mut fa), Some(0x3000));
    assert_eq!(alloc_frame(&mut fa), None);
}
