use kernel::boot::memory_map::{
    build_kernel_memory_map, get_entry_type, get_hhdm_offset, get_raw_entries, BootInfo,
    EntryKind, RawEntry, MAX_REGIONS,
};
use kernel::mm::frame_alloc::{alloc_frame, check_regions, init};
use kernel::mm::types::RegionType;

fn entry(base: u64, length: u64, entry_type: EntryKind) -> RawEntry {
    RawEntry { base, length, entry_type }
}

#[test]
fn usable_and_reclaimable_entries_keep_their_kind() {
    assert_eq!(get_entry_type(EntryKind::Usable), RegionType::Usable);
    assert_eq!(get_entry_type(EntryKind::AcpiReclaimable), RegionType::AcpiReclaimable);
    assert_eq!(get_entry_type(EntryKind::BootloaderReclaimable), RegionType::Bootloader);
}

#[test]
fn memory_that_is_lost_counts_as_reserved() {
    assert_eq!(get_entry_type(EntryKind::Reserved), RegionType::Reserved);
    assert_eq!(get_entry_type(EntryKind::AcpiNvs), RegionType::Reserved);
    assert_eq!(get_entry_type(EntryKind::BadMemory), RegionType::Reserved);
    assert_eq!(get_entry_type(EntryKind::ExecutableAndModules), RegionType::Reserved);
    assert_eq!(get_entry_type(EntryKind::Framebuffer), RegionType::Reserved);
}

#[test]
fn a_type_that_is_not_known_is_unknown() {
    assert_eq!(get_entry_type(EntryKind::Other), RegionType::Unknown);
}

#[test]
fn memory_map_keeps_order_base_and_length() {
    let info = BootInfo {
        memory_map: Some(vec![
            entry(0, 0x100000, EntryKind::Reserved),
            entry(0x100000, 0x400000, EntryKind::Usable),
            entry(0x500000, 0x2000, EntryKind::Framebuffer),
            entry(0x600000, 0x1000, EntryKind::Other),
        ]),
        hhdm_offset: None,
    };
    assert_eq!(get_raw_entries(&info).len(), 4);
    let regions = build_kernel_memory_map(&info);
    assert_eq!(regions.len(), 4);
    assert_eq!(
        (regions[0].base, regions[0].length, regions[0].kind),
        (0, 0x100000, RegionType::Reserved)
    );
    assert_eq!(
        (regions[1].base, regions[1].length, regions[1].kind),
        (0x100000, 0x400000, RegionType::Usable)
    );
    assert_eq!(
        (regions[2].base, regions[2].length, regions[2].kind),
        (0x500000, 0x2000, RegionType::Reserved)
    );
    assert_eq!(
        (regions[3].base, regions[3].length, regions[3].kind),
        (0x600000, 0x1000, RegionType::Unknown)
    );
}

#[test]
fn memory_map_of_no_entries_has_no_regions() {
    let info = BootInfo { memory_map: Some(Vec::new()), hhdm_offset: Some(0) };
    assert!(build_kernel_memory_map(&info).is_empty());
}

#[test]
fn memory_map_takes_as_many_entries_as_there_is_room_for() {
    let entries: Vec<RawEntry> = (0..MAX_REGIONS as u64)
        .map(|i| entry(i * 0x1000, 0x1000, EntryKind::Usable))
        .collect();
    let info = BootInfo { memory_map: Some(entries), hhdm_offset: None };
    let regions = build_kernel_memory_map(&info);
    assert_eq!(regions.len(), 64);
    assert_eq!(regions[63].base, 63 * 0x1000);
}

#[test]
fn hhdm_offset_is_what_the_bootloader_gave() {
    let info = BootInfo { memory_map: None, hhdm_offset: Some(0xffff_8000_0000_0000) };
    assert_eq!(get_hhdm_offset(&info), 0xffff_8000_0000_0000);
}

#[test]
fn boot_map_feeds_the_frame_allocator() {
    let info = BootInfo {
        memory_map: Some(vec![
            entry(0, 0x100000, EntryKind::Reserved),
            entry(0x100000, 0x400000, EntryKind::Usable),
        ]),
        hhdm_offset: Some(0xffff_8000_0000_0000),
    };
    let regions = build_kernel_memory_map(&info);
    assert!(check_regions(&regions));
    let mut fa = init(&regions, get_hhdm_offset(&info));
    assert_eq!(fa.max_pfn(), 0x500);
    assert_eq!(fa.bitmap_size(), 160);
    assert_eq!(fa.bitmap_phys_start(), 0x100000);
    assert_eq!(alloc_frame(&mut fa), Some(0x101000));
}
