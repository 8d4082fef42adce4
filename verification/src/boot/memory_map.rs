//! The bootloader's answers, read into the kernel's own terms: the memory
//! map as a list of classified regions, and the offset of the higher-half
//! direct map.

use crate::mm::types::{MemoryRegion, RegionType};
use vstd::prelude::*;

verus! {

/// Regions that the kernel's memory map has room for.
pub const MAX_REGIONS: usize = 64;

/// Type of a memory map entry, as the bootloader reports it.
#[derive(Clone, Copy, Debug, PartialEq, Eq, Structural)]
pub enum EntryKind {
    Usable,
    Reserved,
    AcpiReclaimable,
    AcpiNvs,
    BadMemory,
    BootloaderReclaimable,
    ExecutableAndModules,
    Framebuffer,
    /// A type that the kernel does not know.
    Other,
}

/// One entry of the bootloader's memory map.
#[derive(Clone, Copy, Debug)]
pub struct RawEntry {
    pub base: u64,
    pub length: u64,
    pub entry_type: EntryKind,
}

/// What the bootloader answered. A part is `None` where the bootloader gave
/// no answer.
pub struct BootInfo {
    pub memory_map: Option<Vec<RawEntry>>,
    pub hhdm_offset: Option<u64>,
}

/// How the kernel classifies an entry: memory that is lost for good counts
/// as reserved, whatever the reason, and a type it does not know as
/// unknown.
pub open spec fn region_kind(entry_type: EntryKind) -> RegionType {
    match entry_type {
        EntryKind::Usable => RegionType::Usable,
        EntryKind::AcpiReclaimable => RegionType::AcpiReclaimable,
        EntryKind::BootloaderReclaimable => RegionType::Bootloader,
        EntryKind::Reserved
        | EntryKind::AcpiNvs
        | EntryKind::BadMemory
        | EntryKind::ExecutableAndModules
        | EntryKind::Framebuffer => RegionType::Reserved,
        EntryKind::Other => RegionType::Unknown,
    }
}

/// The region that an entry describes.
pub open spec fn region_of(entry: RawEntry) -> MemoryRegion {
    MemoryRegion {
        base: entry.base,
        length: entry.length,
        kind: region_kind(entry.entry_type),
    }
}

/// The kernel's classification of an entry type.
pub fn get_entry_type(entry_type: EntryKind) -> (kind: RegionType)
    ensures
        kind == region_kind(entry_type),
{
    match entry_type {
        EntryKind::Usable => RegionType::Usable,
        EntryKind::AcpiReclaimable => RegionType::AcpiReclaimable,
        EntryKind::BootloaderReclaimable => RegionType::Bootloader,
        EntryKind::Reserved
        | EntryKind::AcpiNvs
        | EntryKind::BadMemory
        | EntryKind::ExecutableAndModules
        | EntryKind::Framebuffer => RegionType::Reserved,
        EntryKind::Other => RegionType::Unknown,
    }
}

/// The entries of the bootloader's memory map. The bootloader has to have
/// provided one.
pub fn get_raw_entries(info: &BootInfo) -> (entries: &Vec<RawEntry>)
    requires
        info.memory_map is Some,
    ensures
        *entries == info.memory_map->0,
{
    match &info.memory_map {
        Some(entries) => entries,
        None => unreached(),
    }
}

/// The kernel's memory map: one region per entry of the bootloader's map,
/// in the same order, each classified. The bootloader has to have provided
/// a map, of no more than `MAX_REGIONS` entries.
pub fn build_kernel_memory_map(info: &BootInfo) -> (regions: Vec<MemoryRegion>)
    requires
        info.memory_map is Some,
        info.memory_map->0@.len() <= MAX_REGIONS,
    ensures
        regions@.len() == info.memory_map->0@.len(),
        forall|i: int|
            0 <= i < regions@.len() ==> regions@[i] == region_of(
                #[trigger] info.memory_map->0@[i],
            ),
{
    let raw_entries = get_raw_entries(info);
    let mut regions: Vec<MemoryRegion> = Vec::new();
    let mut idx: usize = 0;
    while idx < raw_entries.len()
        invariant
            0 <= idx <= raw_entries.len(),
            regions@.len() == idx,
            forall|i: int|
                0 <= i < idx ==> regions@[i] == region_of(#[trigger] raw_entries@[i]),
        decreases raw_entries.len() - idx,
    {
        let entry = &raw_entries[idx];
        let region = MemoryRegion {
            base: entry.base,
            length: entry.length,
            kind: get_entry_type(entry.entry_type),
        };
        regions.push(region);
        idx = idx + 1;
    }
    regions
}

/// The offset of the higher-half direct map. The bootloader has to have
/// provided it.
pub fn get_hhdm_offset(info: &BootInfo) -> (offset: u64)
    requires
        info.hhdm_offset is Some,
    ensures
        offset == info.hhdm_offset->0,
{
    match info.hhdm_offset {
        Some(offset) => offset,
        None => unreached(),
    }
}

} // verus!
