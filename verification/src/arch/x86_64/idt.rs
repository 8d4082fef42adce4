//! The interrupt descriptor table: one entry per vector.

use vstd::prelude::*;

verus! {

/// Entries in the table.
pub const IDT_LEN: usize = 256;

/// Code segment selector that every entry names.
pub const HANDLER_SELECTOR: u16 = 0x28;

/// Type and attributes of a present 64-bit interrupt entry of ring 0.
pub const INTERRUPT_TYPE: u8 = 0x8E;

/// One sixteen-byte entry.
#[derive(Clone, Copy)]
pub struct IdtEntry {
    pub offset_low: u16,
    pub selector: u16,
    pub ist: u8,
    pub type_attrs: u8,
    pub offset_mid: u16,
    pub offset_high: u32,
    pub reserved: u32,
}

impl IdtEntry {
    /// The handler's address, put together from the entry's three parts.
    pub open spec fn offset(&self) -> u64 {
        (self.offset_low as u64) | ((self.offset_mid as u64) << 16) | ((self.offset_high as u64)
            << 32)
    }

    /// The entry with every field zero: it is not present.
    pub open spec fn zeroed() -> IdtEntry {
        IdtEntry {
            offset_low: 0,
            selector: 0,
            ist: 0,
            type_attrs: 0,
            offset_mid: 0,
            offset_high: 0,
            reserved: 0,
        }
    }

    /// The present interrupt entry for the handler at `addr`, on the
    /// current stack.
    pub open spec fn handler(addr: u64) -> IdtEntry {
        IdtEntry {
            offset_low: (addr & 0xFFFF) as u16,
            selector: HANDLER_SELECTOR,
            ist: 0,
            type_attrs: INTERRUPT_TYPE,
            offset_mid: ((addr >> 16) & 0xFFFF) as u16,
            offset_high: (addr >> 32) as u32,
            reserved: 0,
        }
    }

    /// A present interrupt entry for the handler at `addr`, on the current
    /// stack.
    pub fn new(addr: u64) -> (e: Self)
        ensures
            e == Self::handler(addr),
            e.offset() == addr,
    {
        proof {
            lemma_offset_parts(addr);
        }
        Self {
            offset_low: (addr & 0xFFFF) as u16,
            selector: HANDLER_SELECTOR,
            ist: 0,
            type_attrs: INTERRUPT_TYPE,
            offset_mid: ((addr >> 16) & 0xFFFF) as u16,
            offset_high: (addr >> 32) as u32,
            reserved: 0,
        }
    }

    /// The entry that is not present.
    pub fn empty() -> (e: Self)
        ensures
            e == Self::zeroed(),
    {
        Self {
            offset_low: 0,
            selector: 0,
            ist: 0,
            type_attrs: 0,
            offset_mid: 0,
            offset_high: 0,
            reserved: 0,
        }
    }
}

/// The three parts that a handler's address is split into give the address
/// back.
pub proof fn lemma_offset_parts(addr: u64)
    by (bit_vector)
    ensures
        (((addr & 0xFFFF) as u16) as u64) | (((((addr >> 16) & 0xFFFF) as u16) as u64) << 16) | ((((
            addr >> 32) as u32) as u64) << 32) == addr,
        addr & 0xFFFF <= 0xFFFF,
        (addr >> 16) & 0xFFFF <= 0xFFFF,
        (addr >> 32) <= 0xFFFF_FFFF,
{
}

/// The table of all 256 entries.
pub struct Idt {
    pub entries: [IdtEntry; 256],
}

impl Idt {
    /// The table in which no entry is present.
    pub fn new() -> (idt: Self)
        ensures
            forall|v: int| 0 <= v < 256 ==> #[trigger] idt.entries[v] == IdtEntry::zeroed(),
    {
        Self { entries: [IdtEntry::empty();256] }
    }

    /// Install the handler at `addr` for `vector`. The entry's stack index
    /// starts at 0.
    pub fn set_handler(&mut self, vector: usize, addr: u64)
        requires
            vector < 256,
        ensures
            final(self).entries[vector as int] == IdtEntry::handler(addr),
            final(self).entries[vector as int].offset() == addr,
            forall|v: int|
                0 <= v < 256 && v != vector ==> final(self).entries[v] == old(self).entries[v],
    {
        let entry = IdtEntry::new(addr);
        self.entries[vector] = entry;
    }

    /// Make the entry of `vector` switch to interrupt stack `ist` of the
    /// task state segment. Nothing else of the entry changes.
    pub fn set_ist(&mut self, vector: usize, ist: u8)
        requires
            vector < 256,
        ensures
            final(self).entries[vector as int] == (IdtEntry {
                ist,
                ..old(self).entries[vector as int]
            }),
            forall|v: int|
                0 <= v < 256 && v != vector ==> final(self).entries[v] == old(self).entries[v],
    {
        let mut entry = self.entries[vector];
        entry.ist = ist;
        self.entries[vector] = entry;
    }
}

} // verus!
