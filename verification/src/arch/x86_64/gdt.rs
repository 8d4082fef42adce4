//! The global descriptor table: a null entry, kernel code, kernel data, and
//! the descriptor of the task state segment.

use crate::arch::x86_64::tss::TSS_LIMIT;
use vstd::prelude::*;

verus! {

/// Segment entries in the table, the task state segment aside.
pub const GDT_LEN: usize = 3;

pub const KERNEL_CODE_SELECTOR: u16 = 0x08;

pub const KERNEL_DATA_SELECTOR: u16 = 0x10;

pub const TSS_SELECTOR: u16 = 0x18;

/// Access byte of a present, available 64-bit task state segment.
pub const TSS_ACCESS: u8 = 0x89;

/// The sixteen-byte descriptor of a task state segment.
#[derive(Clone, Copy)]
pub struct TssDescriptor {
    pub limit_low: u16,
    pub base_low: u16,
    pub base_mid: u8,
    pub access: u8,
    pub limit_high_flags: u8,
    pub base_high: u8,
    pub base_upper: u32,
    pub _reserved: u32,
}

impl TssDescriptor {
    /// The address the descriptor points to, put together from its four
    /// parts.
    pub open spec fn base(&self) -> u64 {
        (self.base_low as u64) | ((self.base_mid as u64) << 16) | ((self.base_high as u64) << 24)
            | ((self.base_upper as u64) << 32)
    }

    /// The descriptor with every field zero.
    pub open spec fn zeroed() -> TssDescriptor {
        TssDescriptor {
            limit_low: 0,
            base_low: 0,
            base_mid: 0,
            access: 0,
            limit_high_flags: 0,
            base_high: 0,
            base_upper: 0,
            _reserved: 0,
        }
    }

    /// The descriptor as `init` leaves it: present, available, with the
    /// segment's limit and the four parts of `tss_addr`. The reserved field
    /// stays.
    pub open spec fn pointing_at(self, tss_addr: u64) -> TssDescriptor {
        TssDescriptor {
            limit_low: TSS_LIMIT,
            base_low: (tss_addr & 0xFFFF) as u16,
            base_mid: ((tss_addr >> 16) & 0xFF) as u8,
            access: TSS_ACCESS,
            limit_high_flags: 0,
            base_high: ((tss_addr >> 24) & 0xFF) as u8,
            base_upper: (tss_addr >> 32) as u32,
            _reserved: self._reserved,
        }
    }

    /// The descriptor with every field zero.
    pub fn empty() -> (d: Self)
        ensures
            d == Self::zeroed(),
            d.base() == 0,
    {
        assert((0u16 as u64) | ((0u8 as u64) << 16) | ((0u8 as u64) << 24) | ((0u32 as u64) << 32)
            == 0) by (bit_vector);
        Self {
            limit_low: 0,
            base_low: 0,
            base_mid: 0,
            access: 0,
            limit_high_flags: 0,
            base_high: 0,
            base_upper: 0,
            _reserved: 0,
        }
    }

    /// Point the descriptor at the task state segment at `tss_addr`:
    /// present, available, with the segment's limit.
    pub fn init(&mut self, tss_addr: u64)
        ensures
            *final(self) == old(self).pointing_at(tss_addr),
            final(self).base() == tss_addr,
    {
        self.limit_low = TSS_LIMIT & 0xFFFF;
        self.limit_high_flags = 0;

        self.base_low = (tss_addr & 0xFFFF) as u16;
        self.base_mid = ((tss_addr >> 16) & 0xFF) as u8;
        self.base_high = ((tss_addr >> 24) & 0xFF) as u8;
        self.base_upper = (tss_addr >> 32) as u32;

        self.access = TSS_ACCESS;
        proof {
            assert(103u16 & 0xFFFF == 103u16) by (bit_vector);
            lemma_base_parts(tss_addr);
        }
    }
}

/// The four parts that an address is split into give the address back.
pub proof fn lemma_base_parts(addr: u64)
    by (bit_vector)
    ensures
        (((addr & 0xFFFF) as u16) as u64) | (((((addr >> 16) & 0xFF) as u8) as u64) << 16) | (((((
            addr >> 24) & 0xFF) as u8) as u64) << 24) | ((((addr >> 32) as u32) as u64) << 32)
            == addr,
        addr & 0xFFFF <= 0xFFFF,
        (addr >> 16) & 0xFF <= 0xFF,
        (addr >> 24) & 0xFF <= 0xFF,
        (addr >> 32) <= 0xFFFF_FFFF,
{
}

/// An eight-byte segment descriptor.
#[derive(Clone, Copy)]
pub struct GdtEntry {
    pub limit_low: u16,
    pub base_low: u16,
    pub base_mid: u8,
    pub access: u8,
    pub limit_high_flags: u8,
    pub base_high: u8,
}

impl GdtEntry {
    /// The descriptor with base and limit zero, as long mode ignores them,
    /// and the given access byte and flags.
    pub open spec fn flat(access: u8, limit_high_flags: u8) -> GdtEntry {
        GdtEntry {
            limit_low: 0,
            base_low: 0,
            base_mid: 0,
            access,
            limit_high_flags,
            base_high: 0,
        }
    }

    /// The null descriptor.
    pub fn empty() -> (e: Self)
        ensures
            e == Self::flat(0, 0),
    {
        Self {
            limit_low: 0,
            base_low: 0,
            base_mid: 0,
            access: 0,
            limit_high_flags: 0,
            base_high: 0,
        }
    }

    /// Kernel code: present, ring 0, executable and readable, 64-bit.
    pub fn kernel_code() -> (e: Self)
        ensures
            e == Self::flat(0x9a, 0xa0),
    {
        Self {
            limit_low: 0,
            base_low: 0,
            base_mid: 0,
            access: 0x9a,
            limit_high_flags: 0xa0,
            base_high: 0,
        }
    }

    /// Kernel data: present, ring 0, writable.
    pub fn kernel_data() -> (e: Self)
        ensures
            e == Self::flat(0x92, 0),
    {
        Self {
            limit_low: 0,
            base_low: 0,
            base_mid: 0,
            access: 0x92,
            limit_high_flags: 0,
            base_high: 0,
        }
    }
}

/// The table: three segment entries and the task state segment's
/// descriptor behind them.
pub struct Gdt {
    pub entries: [GdtEntry; 3],
    pub tss_desc: TssDescriptor,
}

impl Gdt {
    /// The null entry, kernel code and kernel data, in the order of their
    /// selectors, and a descriptor of zeros behind them.
    pub open spec fn is_initial(&self) -> bool {
        &&& self.entries[0] == GdtEntry::flat(0, 0)
        &&& self.entries[1] == GdtEntry::flat(0x9a, 0xa0)
        &&& self.entries[2] == GdtEntry::flat(0x92, 0)
        &&& self.tss_desc == TssDescriptor::zeroed()
    }

    /// The table of a kernel that has not set up its task state segment:
    /// each selector names the entry at its offset.
    pub fn new() -> (gdt: Self)
        ensures
            gdt.is_initial(),
    {
        Self {
            entries: [GdtEntry::empty(), GdtEntry::kernel_code(), GdtEntry::kernel_data()],
            tss_desc: TssDescriptor::empty(),
        }
    }

    /// Point the table's task state segment descriptor at `tss_addr`; the
    /// segment entries stay.
    pub fn init_tss(&mut self, tss_addr: u64)
        ensures
            final(self).entries == old(self).entries,
            final(self).tss_desc == old(self).tss_desc.pointing_at(tss_addr),
            final(self).tss_desc.base() == tss_addr,
    {
        self.tss_desc.init(tss_addr);
    }
}

} // verus!
