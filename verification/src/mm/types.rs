//! Physical memory regions as the boot stage reports them.

use vstd::prelude::*;

verus! {

/// How the platform classifies a range of physical memory.
#[derive(Clone, Copy, Debug, PartialEq, Eq, Structural)]
pub enum RegionType {
    Usable,
    Reserved,
    AcpiReclaimable,
    Bootloader,
    Unknown,
}

/// A range of physical memory: `length` bytes starting at `base`.
#[derive(Clone, Copy, Debug)]
pub struct MemoryRegion {
    pub base: u64,
    pub length: u64,
    pub kind: RegionType,
}

impl MemoryRegion {
    /// The placeholder region: no bytes, of unknown kind.
    pub fn empty() -> (r: Self)
        ensures
            r.base == 0,
            r.length == 0,
            r.kind == RegionType::Unknown,
    {
        Self { base: 0, length: 0, kind: RegionType::Unknown }
    }

    /// Whether the region holds at least one byte and ends inside the
    /// 64-bit physical address space.
    pub open spec fn well_formed(&self) -> bool {
        self.length >= 1 && self.base + self.length - 1 <= u64::MAX
    }

    /// Number of the frame that holds the region's first byte.
    pub open spec fn first_frame(&self) -> int {
        self.base as int / 4096
    }

    /// Number of the frame that holds the region's last byte.
    pub open spec fn last_frame(&self) -> int {
        (self.base + self.length - 1) / 4096
    }

    /// Whether the region is free for the kernel to use.
    pub open spec fn is_usable(&self) -> bool {
        self.kind == RegionType::Usable
    }
}

/// The direct-map alias of a physical address: the address plus the offset,
/// modulo 2^64.
pub open spec fn direct_map(phys: u64, hhdm_offset: u64) -> u64 {
    phys.wrapping_add(hhdm_offset)
}

/// Virtual address through which the physical address `phys` is reached.
/// Total: every physical address has exactly one alias under a given offset.
pub fn phys_to_virt(phys: u64, hhdm_offset: u64) -> (virt: u64)
    ensures
        virt == direct_map(phys, hhdm_offset),
{
    phys.wrapping_add(hhdm_offset)
}

/// Distinct physical addresses have distinct aliases.
pub proof fn lemma_direct_map_injective(a: u64, b: u64, hhdm_offset: u64)
    ensures
        direct_map(a, hhdm_offset) == direct_map(b, hhdm_offset) <==> a == b,
{
}

} // verus!
