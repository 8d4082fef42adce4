//! Four-level page tables: entries, tables, and the walk that translates,
//! maps and unmaps virtual addresses.

use crate::mm::frame_alloc::{alloc_frame, FrameAllocator, FrameState};
use crate::mm::types::{direct_map, phys_to_virt};
use std::collections::HashMap;
use vstd::prelude::*;

verus! {

broadcast use vstd::std_specs::hash::group_hash_axioms;

/// Entries in one page table.
pub const ENTRY_COUNT: usize = 512;

/// Present flag of an entry.
pub const PRESENT: u64 = 0x1;

/// Writable flag of an entry.
pub const WRITABLE: u64 = 0x2;

/// Huge-page flag of an entry: at the two middle levels the entry is a leaf.
pub const HUGE: u64 = 0x80;

/// The bits of an entry that hold a physical base address.
pub const ADDR_MASK: u64 = 0x000F_FFFF_FFFF_F000;

/// Whether the raw entry `e` is present.
pub open spec fn entry_present(e: u64) -> bool {
    e & PRESENT != 0
}

/// Whether the raw entry `e` has the huge flag.
pub open spec fn entry_huge(e: u64) -> bool {
    e & HUGE != 0
}

/// The physical base address that the raw entry `e` holds.
pub open spec fn entry_addr(e: u64) -> u64 {
    e & ADDR_MASK
}

/// One 64-bit page-table entry.
#[derive(Clone, Copy)]
pub struct PageTableEntry {
    entry: u64,
}

impl View for PageTableEntry {
    type V = u64;

    closed spec fn view(&self) -> u64 {
        self.entry
    }
}

impl PageTableEntry {
    /// Present flag, bit 0.
    pub const PRESENT: u64 = 0x1;

    /// Writable flag, bit 1.
    pub const WRITABLE: u64 = 0x2;

    /// Huge-page flag, bit 7.
    pub const HUGE: u64 = 0x80;

    /// Bits 12 to 51: the physical base address.
    pub const ADDR_MASK: u64 = 0x000F_FFFF_FFFF_F000;

    /// The empty entry: not present, no address.
    pub fn new() -> (e: Self)
        ensures
            e@ == 0,
    {
        Self { entry: 0 }
    }

    /// The entry with the raw value `raw`.
    pub fn from_raw(raw: u64) -> (e: Self)
        ensures
            e@ == raw,
    {
        Self { entry: raw }
    }

    /// The raw 64-bit value.
    pub fn raw(&self) -> (r: u64)
        ensures
            r == self@,
    {
        self.entry
    }

    /// Whether the present flag is set.
    pub fn is_present(&self) -> (b: bool)
        ensures
            b == entry_present(self@),
    {
        (self.entry & Self::PRESENT) != 0
    }

    /// Whether the huge-page flag is set.
    pub fn is_huge(&self) -> (b: bool)
        ensures
            b == entry_huge(self@),
    {
        (self.entry & Self::HUGE) != 0
    }

    /// The physical base address that the entry holds.
    pub fn addr(&self) -> (a: u64)
        ensures
            a == entry_addr(self@),
    {
        self.entry & Self::ADDR_MASK
    }

    /// Replace the entry by `addr` combined with `flags`.
    pub fn set_addr(&mut self, addr: u64, flags: u64)
        ensures
            final(self)@ == addr | flags,
    {
        self.entry = addr | flags
    }
}

/// One page table: 512 entries.
#[derive(Clone, Copy)]
pub struct PageTable {
    entries: [PageTableEntry; 512],
}

impl View for PageTable {
    type V = Seq<u64>;

    closed spec fn view(&self) -> Seq<u64> {
        Seq::new(512, |i: int| self.entries[i]@)
    }
}

impl PageTable {
    /// The table whose entries are all empty.
    pub fn new() -> (t: Self)
        ensures
            t@ == zero_table(),
    {
        let t = Self { entries: [PageTableEntry::new(); 512] };
        assert(t@ =~= zero_table());
        t
    }

    /// Entry `index` of the table.
    pub fn entry(&self, index: usize) -> (e: PageTableEntry)
        requires
            index < ENTRY_COUNT,
        ensures
            e@ == self@[index as int],
    {
        self.entries[index]
    }

    /// Replace entry `index` of the table.
    pub fn set_entry(&mut self, index: usize, e: PageTableEntry)
        requires
            index < ENTRY_COUNT,
        ensures
            final(self)@ == old(self)@.update(index as int, e@),
    {
        self.entries[index] = e;
        assert(self@ =~= old(self)@.update(index as int, e@));
    }
}

/// The raw entries of an empty table.
pub open spec fn zero_table() -> Seq<u64> {
    Seq::new(512, |i: int| 0u64)
}

/// Why a mapping could not be made.
#[derive(Clone, Copy, Debug, PartialEq, Eq, Structural)]
pub enum MapError {
    /// The address is mapped already.
    AlreadyMapped,
    /// A huge leaf stands on the way down to the address.
    HugePage,
    /// No frame was left for a table that had to be made.
    OutOfMemory,
}

/// Why a mapping could not be removed.
#[derive(Clone, Copy, Debug, PartialEq, Eq, Structural)]
pub enum PteError {
    /// Nothing is mapped at the address.
    NotMapped,
    /// A huge leaf stands on the way down to the address.
    HugePage,
}

/// Shift of the index into the root table.
pub const PML4_SHIFT: u64 = 39;

/// Shift of the index into a directory-pointer table.
pub const PDPT_SHIFT: u64 = 30;

/// Shift of the index into a directory.
pub const PD_SHIFT: u64 = 21;

/// Shift of the index into a leaf table.
pub const PT_SHIFT: u64 = 12;

/// The nine bits of `virt` that start at bit `shift`.
pub open spec fn level_index(virt: u64, shift: u64) -> int {
    ((virt >> shift) & 0x1FF) as int
}

/// Index into the table of one level: the nine bits of `virt` from bit
/// `shift` up.
pub fn index_at(virt: u64, shift: u64) -> (i: usize)
    requires
        shift < 64,
    ensures
        i == level_index(virt, shift),
        i < ENTRY_COUNT,
{
    let i: u64 = (virt >> shift) & 0x1FF;
    assert((virt >> shift) & 0x1FF < 512) by (bit_vector);
    i as usize
}

/// What an address space stands for: the physical address of the root table
/// and, for each table frame that was ever written, its raw entries, keyed
/// by the frame's direct-map alias. A frame that was never written reads as
/// an empty table.
pub struct SpaceView {
    pub root: u64,
    pub mem: Map<u64, Seq<u64>>,
}

impl SpaceView {
    /// Every table held has 512 entries, and the root is an address that an
    /// entry can hold.
    pub open spec fn valid(self) -> bool {
        &&& self.root & ADDR_MASK == self.root
        &&& forall|k: u64| #[trigger] self.mem.contains_key(k) ==> self.mem[k].len() == 512
    }

    /// The raw entries of the table whose alias is `table_virt`.
    pub open spec fn table(self, table_virt: u64) -> Seq<u64> {
        if self.mem.contains_key(table_virt) {
            self.mem[table_virt]
        } else {
            zero_table()
        }
    }

    /// The raw entry `index` of the table whose alias is `table_virt`.
    pub open spec fn entry(self, table_virt: u64, index: int) -> u64 {
        self.table(table_virt)[index]
    }

    /// The space with one entry replaced.
    pub open spec fn write(self, table_virt: u64, index: int, raw: u64) -> SpaceView {
        SpaceView {
            mem: self.mem.insert(table_virt, self.table(table_virt).update(index, raw)),
            ..self
        }
    }

    /// The space with one table emptied.
    pub open spec fn zero(self, table_virt: u64) -> SpaceView {
        SpaceView { mem: self.mem.insert(table_virt, zero_table()), ..self }
    }

    /// Entry that the walk for `virt` reads in the table at `table_phys`,
    /// at the level whose index starts at bit `shift`.
    pub open spec fn walk_entry(self, table_phys: u64, virt: u64, shift: u64, hhdm_offset: u64) -> u64 {
        self.entry(direct_map(table_phys, hhdm_offset), level_index(virt, shift))
    }

    /// The physical address that `virt` translates to, if any.
    ///
    /// The walk reads one entry per level, from the root down, and ends with
    /// `None` at the first entry that is not present. A present entry with
    /// the huge flag at the directory-pointer level is a leaf of 1 GiB, at
    /// the directory level a leaf of 2 MiB; a present entry at the lowest
    /// level is a leaf of 4 KiB. The result is the leaf's base address with
    /// the low bits of `virt` below the leaf's size.
    pub open spec fn translate(self, virt: u64, hhdm_offset: u64) -> Option<u64> {
        let e4 = self.walk_entry(self.root, virt, PML4_SHIFT, hhdm_offset);
        if !entry_present(e4) {
            None
        } else {
            let e3 = self.walk_entry(entry_addr(e4), virt, PDPT_SHIFT, hhdm_offset);
            if !entry_present(e3) {
                None
            } else if entry_huge(e3) {
                Some(entry_addr(e3) | (virt & 0x3FFF_FFFF))
            } else {
                let e2 = self.walk_entry(entry_addr(e3), virt, PD_SHIFT, hhdm_offset);
                if !entry_present(e2) {
                    None
                } else if entry_huge(e2) {
                    Some(entry_addr(e2) | (virt & 0x1F_FFFF))
                } else {
                    let e1 = self.walk_entry(entry_addr(e2), virt, PT_SHIFT, hhdm_offset);
                    if !entry_present(e1) {
                        None
                    } else {
                        Some(entry_addr(e1) | (virt & 0xFFF))
                    }
                }
            }
        }
    }

    /// One step down without making anything: the table that the entry for
    /// `virt` in the table at `table_phys` points to.
    pub open spec fn descend(self, table_phys: u64, virt: u64, shift: u64, hhdm_offset: u64) -> Result<
        u64,
        PteError,
    > {
        let e = self.walk_entry(table_phys, virt, shift, hhdm_offset);
        if !entry_present(e) {
            Err(PteError::NotMapped)
        } else if entry_huge(e) {
            Err(PteError::HugePage)
        } else {
            Ok(entry_addr(e))
        }
    }

    /// The leaf table that the walk for `virt` reaches through three
    /// present entries without the huge flag.
    pub open spec fn leaf_table(self, virt: u64, hhdm_offset: u64) -> Result<u64, PteError> {
        match self.descend(self.root, virt, PML4_SHIFT, hhdm_offset) {
            Err(e) => Err(e),
            Ok(pdpt) => match self.descend(pdpt, virt, PDPT_SHIFT, hhdm_offset) {
                Err(e) => Err(e),
                Ok(pd) => self.descend(pd, virt, PD_SHIFT, hhdm_offset),
            },
        }
    }

    /// Result of removing the mapping of `virt`, and the space afterwards.
    ///
    /// `NotMapped` where an entry on the walk, the leaf included, is not
    /// present; `HugePage` where a present entry above the leaf table has
    /// the huge flag. Otherwise the leaf entry becomes empty and nothing
    /// else changes.
    pub open spec fn unmap(self, virt: u64, hhdm_offset: u64) -> (Result<(), PteError>, SpaceView) {
        match self.leaf_table(virt, hhdm_offset) {
            Err(e) => (Err(e), self),
            Ok(pt) => {
                if !entry_present(self.walk_entry(pt, virt, PT_SHIFT, hhdm_offset)) {
                    (Err(PteError::NotMapped), self)
                } else {
                    (
                        Ok(()),
                        self.write(direct_map(pt, hhdm_offset), level_index(virt, PT_SHIFT), 0),
                    )
                }
            },
        }
    }
}

/// One step down that makes the next table where there is none.
///
/// A present entry with the huge flag fails with `HugePage`; a present
/// entry without it leads on and changes nothing. Where the entry is not
/// present, a frame is taken from `frames` (`OutOfMemory` when there is
/// none), its table is emptied, and the entry is set to the frame's address,
/// present and writable. The walk goes on at the address that the entry
/// holds.
pub open spec fn descend_or_create(
    space: SpaceView,
    frames: FrameState,
    table_phys: u64,
    virt: u64,
    shift: u64,
    hhdm_offset: u64,
) -> (Result<u64, MapError>, SpaceView, FrameState) {
    let e = space.walk_entry(table_phys, virt, shift, hhdm_offset);
    if entry_present(e) {
        if entry_huge(e) {
            (Err(MapError::HugePage), space, frames)
        } else {
            (Ok(entry_addr(e)), space, frames)
        }
    } else {
        match frames.allocate() {
            (None, _) => (Err(MapError::OutOfMemory), space, frames),
            (Some(frame), rest) => {
                let link = frame | (PRESENT | WRITABLE);
                (
                    Ok(entry_addr(link)),
                    space.zero(direct_map(frame, hhdm_offset)).write(
                        direct_map(table_phys, hhdm_offset),
                        level_index(virt, shift),
                        link,
                    ),
                    rest,
                )
            },
        }
    }
}

/// The last step of a mapping: set the leaf entry for `virt` in the leaf
/// table at `pt` to `phys` with `flags` and the present flag, unless the
/// entry is present already.
pub open spec fn install_leaf(
    space: SpaceView,
    pt: u64,
    virt: u64,
    phys: u64,
    flags: u64,
    hhdm_offset: u64,
) -> (Result<(), MapError>, SpaceView) {
    if entry_present(space.walk_entry(pt, virt, PT_SHIFT, hhdm_offset)) {
        (Err(MapError::AlreadyMapped), space)
    } else {
        (
            Ok(()),
            space.write(
                direct_map(pt, hhdm_offset),
                level_index(virt, PT_SHIFT),
                phys | (flags | PRESENT),
            ),
        )
    }
}

/// Result of mapping `virt` to `phys`, and the space and the allocator
/// afterwards.
///
/// Three steps of `descend_or_create` lead from the root to the leaf table;
/// the first that fails ends the mapping with its error, and what earlier
/// steps made stays. Then `install_leaf` sets the leaf entry, or fails with
/// `AlreadyMapped`.
pub open spec fn map_outcome(
    space: SpaceView,
    frames: FrameState,
    virt: u64,
    phys: u64,
    flags: u64,
    hhdm_offset: u64,
) -> (Result<(), MapError>, SpaceView, FrameState) {
    let s4 = descend_or_create(space, frames, space.root, virt, PML4_SHIFT, hhdm_offset);
    match s4.0 {
        Err(e) => (Err(e), s4.1, s4.2),
        Ok(pdpt) => {
            let s3 = descend_or_create(s4.1, s4.2, pdpt, virt, PDPT_SHIFT, hhdm_offset);
            match s3.0 {
                Err(e) => (Err(e), s3.1, s3.2),
                Ok(pd) => {
                    let s2 = descend_or_create(s3.1, s3.2, pd, virt, PD_SHIFT, hhdm_offset);
                    match s2.0 {
                        Err(e) => (Err(e), s2.1, s2.2),
                        Ok(pt) => {
                            let leaf = install_leaf(s2.1, pt, virt, phys, flags, hhdm_offset);
                            (leaf.0, leaf.1, s2.2)
                        },
                    }
                },
            }
        },
    }
}

/// The page tables of one address space, held by value: the root table's
/// physical address and the table frames of physical memory, each reached
/// through its direct-map alias.
pub struct AddressSpace {
    root: u64,
    tables: HashMap<u64, PageTable>,
}

impl View for AddressSpace {
    type V = SpaceView;

    closed spec fn view(&self) -> SpaceView {
        SpaceView {
            root: self.root,
            mem: Map::new(|k: u64| self.tables@.contains_key(k), |k: u64| self.tables@[k]@),
        }
    }
}

impl AddressSpace {
    /// The view is valid: a property of every address space that this
    /// module's functions build.
    pub open spec fn wf(&self) -> bool {
        self@.valid()
    }

    /// The address space rooted at the table that `cr3` names, with every
    /// table frame empty. The low twelve bits and the bits above bit 51 of
    /// `cr3` are not part of the address.
    pub fn new(cr3: u64) -> (space: Self)
        ensures
            space.wf(),
            space@.root == cr3 & ADDR_MASK,
            space@.mem == Map::<u64, Seq<u64>>::empty(),
    {
        let root: u64 = cr3 & ADDR_MASK;
        let space = Self { root, tables: HashMap::new() };
        proof {
            assert((cr3 & ADDR_MASK) & ADDR_MASK == cr3 & ADDR_MASK) by (bit_vector);
            assert(space@.mem =~= Map::<u64, Seq<u64>>::empty());
        }
        space
    }

    /// Physical address of the root table.
    pub fn root(&self) -> (r: u64)
        ensures
            r == self@.root,
    {
        self.root
    }

    /// Entry `index` of the table at physical address `table_phys`.
    pub fn read_entry(&self, table_phys: u64, index: usize, hhdm_offset: u64) -> (e: PageTableEntry)
        requires
            index < ENTRY_COUNT,
        ensures
            e@ == self@.entry(direct_map(table_phys, hhdm_offset), index as int),
    {
        let key: u64 = phys_to_virt(table_phys, hhdm_offset);
        match self.tables.get(&key) {
            Some(table) => table.entry(index),
            None => PageTableEntry::new(),
        }
    }

    /// Replace entry `index` of the table at physical address `table_phys`.
    pub fn write_entry(
        &mut self,
        table_phys: u64,
        index: usize,
        e: PageTableEntry,
        hhdm_offset: u64,
    )
        requires
            index < ENTRY_COUNT,
            old(self).wf(),
        ensures
            final(self).wf(),
            final(self)@ == old(self)@.write(
                direct_map(table_phys, hhdm_offset),
                index as int,
                e@,
            ),
    {
        let key: u64 = phys_to_virt(table_phys, hhdm_offset);
        let mut table: PageTable = match self.tables.get(&key) {
            Some(t) => *t,
            None => PageTable::new(),
        };
        table.set_entry(index, e);
        self.tables.insert(key, table);
        proof {
            assert(self@.mem =~= old(self)@.write(key, index as int, e@).mem);
        }
    }

    /// Empty the table at physical address `table_phys`.
    pub fn zero_table(&mut self, table_phys: u64, hhdm_offset: u64)
        requires
            old(self).wf(),
        ensures
            final(self).wf(),
            final(self)@ == old(self)@.zero(direct_map(table_phys, hhdm_offset)),
    {
        let key: u64 = phys_to_virt(table_phys, hhdm_offset);
        self.tables.insert(key, PageTable::new());
        proof {
            assert(self@.mem =~= old(self)@.zero(key).mem);
        }
    }
}

/// Translate `virt` to the physical address it is mapped to. Reads only.
pub fn translate(space: &AddressSpace, virt: u64, hhdm_offset: u64) -> (r: Option<u64>)
    ensures
        r == space@.translate(virt, hhdm_offset),
{
    let e4 = space.read_entry(space.root, index_at(virt, PML4_SHIFT), hhdm_offset);
    if !e4.is_present() {
        return None;
    }
    let e3 = space.read_entry(e4.addr(), index_at(virt, PDPT_SHIFT), hhdm_offset);
    if !e3.is_present() {
        return None;
    }
    if e3.is_huge() {
        return Some(e3.addr() | (virt & 0x3FFF_FFFF));
    }
    let e2 = space.read_entry(e3.addr(), index_at(virt, PD_SHIFT), hhdm_offset);
    if !e2.is_present() {
        return None;
    }
    if e2.is_huge() {
        return Some(e2.addr() | (virt & 0x1F_FFFF));
    }
    let e1 = space.read_entry(e2.addr(), index_at(virt, PT_SHIFT), hhdm_offset);
    if !e1.is_present() {
        return None;
    }
    Some(e1.addr() | (virt & 0xFFF))
}

/// One step down on the way to a mapping: the table that the entry for
/// `virt` points to, made first where the entry is not present.
pub fn next_table_or_create(
    space: &mut AddressSpace,
    frames: &mut FrameAllocator,
    table_phys: u64,
    virt: u64,
    shift: u64,
    hhdm_offset: u64,
) -> (r: Result<u64, MapError>)
    requires
        old(space).wf(),
        old(frames).wf(),
        shift < 64,
    ensures
        final(space).wf(),
        final(frames).wf(),
        r == descend_or_create(old(space)@, old(frames)@, table_phys, virt, shift, hhdm_offset).0,
        final(space)@ == descend_or_create(
            old(space)@,
            old(frames)@,
            table_phys,
            virt,
            shift,
            hhdm_offset,
        ).1,
        final(frames)@ == descend_or_create(
            old(space)@,
            old(frames)@,
            table_phys,
            virt,
            shift,
            hhdm_offset,
        ).2,
{
    let index: usize = index_at(virt, shift);
    let mut e = space.read_entry(table_phys, index, hhdm_offset);
    if e.is_present() {
        if e.is_huge() {
            return Err(MapError::HugePage);
        }
        return Ok(e.addr());
    }
    match alloc_frame(frames) {
        None => Err(MapError::OutOfMemory),
        Some(frame) => {
            space.zero_table(frame, hhdm_offset);
            e.set_addr(frame, PageTableEntry::PRESENT | PageTableEntry::WRITABLE);
            space.write_entry(table_phys, index, e, hhdm_offset);
            Ok(e.addr())
        },
    }
}

/// Map the page at `virt` to the frame at `phys` with `flags`.
///
/// Both addresses are page-aligned. Tables missing on the way are made from
/// frames of `frames`; nothing is undone when a later step fails.
pub fn map(
    space: &mut AddressSpace,
    frames: &mut FrameAllocator,
    virt: u64,
    phys: u64,
    flags: u64,
    hhdm_offset: u64,
) -> (r: Result<(), MapError>)
    requires
        old(space).wf(),
        old(frames).wf(),
        virt % 4096 == 0,
        phys % 4096 == 0,
    ensures
        final(space).wf(),
        final(frames).wf(),
        r == map_outcome(old(space)@, old(frames)@, virt, phys, flags, hhdm_offset).0,
        final(space)@ == map_outcome(old(space)@, old(frames)@, virt, phys, flags, hhdm_offset).1,
        final(frames)@ == map_outcome(old(space)@, old(frames)@, virt, phys, flags, hhdm_offset).2,
{
    let root: u64 = space.root;
    let pdpt: u64 = match next_table_or_create(space, frames, root, virt, PML4_SHIFT, hhdm_offset) {
        Ok(t) => t,
        Err(e) => {
            return Err(e);
        },
    };
    let pd: u64 = match next_table_or_create(space, frames, pdpt, virt, PDPT_SHIFT, hhdm_offset) {
        Ok(t) => t,
        Err(e) => {
            return Err(e);
        },
    };
    let pt: u64 = match next_table_or_create(space, frames, pd, virt, PD_SHIFT, hhdm_offset) {
        Ok(t) => t,
        Err(e) => {
            return Err(e);
        },
    };
    let index: usize = index_at(virt, PT_SHIFT);
    let mut leaf = space.read_entry(pt, index, hhdm_offset);
    if leaf.is_present() {
        return Err(MapError::AlreadyMapped);
    }
    leaf.set_addr(phys, flags | PageTableEntry::PRESENT);
    space.write_entry(pt, index, leaf, hhdm_offset);
    Ok(())
}

/// One step down on the way to an existing mapping.
pub fn next_table(
    space: &AddressSpace,
    table_phys: u64,
    virt: u64,
    shift: u64,
    hhdm_offset: u64,
) -> (r: Result<u64, PteError>)
    requires
        shift < 64,
    ensures
        r == space@.descend(table_phys, virt, shift, hhdm_offset),
{
    let e = space.read_entry(table_phys, index_at(virt, shift), hhdm_offset);
    if !e.is_present() {
        Err(PteError::NotMapped)
    } else if e.is_huge() {
        Err(PteError::HugePage)
    } else {
        Ok(e.addr())
    }
}

/// Remove the 4 KiB mapping of the page at `virt`, a page-aligned address.
///
/// No table is freed, even one left without a present entry. After `Ok`
/// the caller discards the processor's cached translation of `virt`.
pub fn unmap(space: &mut AddressSpace, virt: u64, hhdm_offset: u64) -> (r: Result<(), PteError>)
    requires
        old(space).wf(),
        virt % 4096 == 0,
    ensures
        final(space).wf(),
        r == old(space)@.unmap(virt, hhdm_offset).0,
        final(space)@ == old(space)@.unmap(virt, hhdm_offset).1,
{
    let root: u64 = space.root;
    let pdpt: u64 = match next_table(space, root, virt, PML4_SHIFT, hhdm_offset) {
        Ok(t) => t,
        Err(e) => {
            return Err(e);
        },
    };
    let pd: u64 = match next_table(space, pdpt, virt, PDPT_SHIFT, hhdm_offset) {
        Ok(t) => t,
        Err(e) => {
            return Err(e);
        },
    };
    let pt: u64 = match next_table(space, pd, virt, PD_SHIFT, hhdm_offset) {
        Ok(t) => t,
        Err(e) => {
            return Err(e);
        },
    };
    let index: usize = index_at(virt, PT_SHIFT);
    if !space.read_entry(pt, index, hhdm_offset).is_present() {
        return Err(PteError::NotMapped);
    }
    space.write_entry(pt, index, PageTableEntry::new(), hhdm_offset);
    Ok(())
}

pub(crate) proof fn lemma_index_bound(virt: u64, shift: u64)
    by (bit_vector)
    ensures
        (virt >> shift) & 0x1FF < 512,
{
}

pub(crate) proof fn lemma_link_bits(frame: u64)
    by (bit_vector)
    requires
        frame % 4096 == 0,
    ensures
        (frame | 3) & 1 != 0,
        (frame | 3) & 0x80 == 0,
        frame & 0x000F_FFFF_FFFF_F000 == frame ==> (frame | 3) & 0x000F_FFFF_FFFF_F000 == frame,
        frame < 0x10_0000_0000_0000 ==> frame & 0x000F_FFFF_FFFF_F000 == frame,
{
}

pub(crate) proof fn lemma_mask_idempotent(e: u64)
    by (bit_vector)
    ensures
        (e & 0x000F_FFFF_FFFF_F000) & 0x000F_FFFF_FFFF_F000 == e & 0x000F_FFFF_FFFF_F000,
        0u64 & 1 == 0,
        1u64 | 2u64 == 3u64,
{
}

proof fn lemma_leaf_bits(phys: u64, flags: u64, virt: u64)
    by (bit_vector)
    requires
        phys & 0x000F_FFFF_FFFF_F000 == phys,
        flags & 0x000F_FFFF_FFFF_F000 == 0,
        virt % 4096 == 0,
    ensures
        (phys | (flags | 1)) & 1 != 0,
        (phys | (flags | 1)) & 0x000F_FFFF_FFFF_F000 == phys,
        phys | (virt & 0xFFF) == phys,
{
}

/// The three tables below the root that a mapping of `virt` walks through,
/// where its three steps down succeed.
pub open spec fn map_tables(space: SpaceView, frames: FrameState, virt: u64, hhdm_offset: u64) -> (
    u64,
    u64,
    u64,
) {
    let s4 = descend_or_create(space, frames, space.root, virt, PML4_SHIFT, hhdm_offset);
    let pdpt = s4.0->Ok_0;
    let s3 = descend_or_create(s4.1, s4.2, pdpt, virt, PDPT_SHIFT, hhdm_offset);
    let pd = s3.0->Ok_0;
    let s2 = descend_or_create(s3.1, s3.2, pd, virt, PD_SHIFT, hhdm_offset);
    (pdpt, pd, s2.0->Ok_0)
}

/// The frame that a step of `descend_or_create` makes into a table: the
/// one it takes from `frames` where the entry it reads is not present.
pub open spec fn made_frame(
    space: SpaceView,
    frames: FrameState,
    table_phys: u64,
    virt: u64,
    shift: u64,
    hhdm_offset: u64,
) -> Option<u64> {
    if entry_present(space.walk_entry(table_phys, virt, shift, hhdm_offset)) {
        None
    } else {
        frames.allocate().0
    }
}

/// No frame that a mapping of `virt` makes into a table holds a table that
/// the walk has left behind: the frame made into a directory is not the
/// root's, and the frame made into a leaf table is neither the root's nor
/// the directory-pointer table's.
pub open spec fn made_tables_are_fresh(
    space: SpaceView,
    frames: FrameState,
    virt: u64,
    hhdm_offset: u64,
) -> bool {
    let root = space.root;
    let s4 = descend_or_create(space, frames, root, virt, PML4_SHIFT, hhdm_offset);
    let pdpt = s4.0->Ok_0;
    let made3 = made_frame(s4.1, s4.2, pdpt, virt, PDPT_SHIFT, hhdm_offset);
    let s3 = descend_or_create(s4.1, s4.2, pdpt, virt, PDPT_SHIFT, hhdm_offset);
    let pd = s3.0->Ok_0;
    let made2 = made_frame(s3.1, s3.2, pd, virt, PD_SHIFT, hhdm_offset);
    &&& made3 != Some(root)
    &&& made2 != Some(root)
    &&& made2 != Some(pdpt)
}

/// In `space` the walk for `virt` leads from the root through the tables at
/// `pdpt`, `pd` and `pt`, by present entries without the huge flag.
pub open spec fn has_path(
    space: SpaceView,
    virt: u64,
    hhdm_offset: u64,
    pdpt: u64,
    pd: u64,
    pt: u64,
) -> bool {
    &&& space.descend(space.root, virt, PML4_SHIFT, hhdm_offset) == Ok::<u64, PteError>(pdpt)
    &&& space.descend(pdpt, virt, PDPT_SHIFT, hhdm_offset) == Ok::<u64, PteError>(pd)
    &&& space.descend(pd, virt, PD_SHIFT, hhdm_offset) == Ok::<u64, PteError>(pt)
}

/// What one step of `descend_or_create` that succeeds leaves behind.
///
/// The entry it went through is present, without the huge flag, and holds
/// the next table's address. Where the entry was present before, nothing
/// has changed. Where it was not, a frame was made into a table: outside
/// that frame only the entry has changed, and inside it every entry but
/// that one is empty. A frame below 2^52 is itself the next table.
pub proof fn lemma_descend_or_create(
    space: SpaceView,
    frames: FrameState,
    table_phys: u64,
    virt: u64,
    shift: u64,
    hhdm_offset: u64,
)
    requires
        space.valid(),
        frames.valid(),
        descend_or_create(space, frames, table_phys, virt, shift, hhdm_offset).0 is Ok,
    ensures
        ({
            let out = descend_or_create(space, frames, table_phys, virt, shift, hhdm_offset);
            let next = out.0->Ok_0;
            let made = made_frame(space, frames, table_phys, virt, shift, hhdm_offset);
            let slot = direct_map(table_phys, hhdm_offset);
            let index = level_index(virt, shift);
            &&& out.1.valid()
            &&& out.2.valid()
            &&& out.1.root == space.root
            &&& out.2.max_pfn == frames.max_pfn
            &&& 0 <= index < 512
            &&& next & ADDR_MASK == next
            &&& out.1.descend(table_phys, virt, shift, hhdm_offset) == Ok::<u64, PteError>(next)
            &&& made is None ==> out.1 == space && out.2 == frames
            &&& made is Some ==> {
                let fresh = direct_map(made->0, hhdm_offset);
                &&& made->0 % 4096 == 0
                &&& frames.max_pfn <= 0x100_0000_0000 ==> next == made->0
                &&& forall|x: u64, j: int|
                    0 <= j < 512 && x != fresh && !(x == slot && j == index)
                        ==> #[trigger] out.1.entry(x, j) == space.entry(x, j)
                &&& forall|j: int|
                    0 <= j < 512 && !(fresh == slot && j == index) ==> #[trigger] out.1.entry(
                        fresh,
                        j,
                    ) == 0
            }
        }),
{
    let out = descend_or_create(space, frames, table_phys, virt, shift, hhdm_offset);
    let e = space.walk_entry(table_phys, virt, shift, hhdm_offset);
    lemma_mask_idempotent(e);
    lemma_index_bound(virt, shift);
    if !entry_present(e) {
        crate::mm::frame_alloc::lemma_lowest_free(frames);
        let p = frames.lowest_free()->0;
        let frame = (p * 4096) as u64;
        let link = frame | (PRESENT | WRITABLE);
        lemma_link_bits(frame);
        lemma_mask_idempotent(link);
        let slot = direct_map(table_phys, hhdm_offset);
        let fresh = direct_map(frame, hhdm_offset);
        let zeroed = space.zero(fresh);
        assert(out.1 == zeroed.write(slot, level_index(virt, shift), link));
        assert(zeroed.table(slot).len() == 512);
    }
}

/// Replacing an entry that is not present leaves every walk that went
/// through present entries as it was.
pub proof fn lemma_write_keeps_path(
    space: SpaceView,
    table_virt: u64,
    index: int,
    raw: u64,
    virt: u64,
    hhdm_offset: u64,
    pdpt: u64,
    pd: u64,
    pt: u64,
)
    requires
        space.valid(),
        0 <= index < 512,
        !entry_present(space.entry(table_virt, index)),
        has_path(space, virt, hhdm_offset, pdpt, pd, pt),
    ensures
        space.write(table_virt, index, raw).valid(),
        has_path(space.write(table_virt, index, raw), virt, hhdm_offset, pdpt, pd, pt),
        forall|j: int|
            0 <= j < 512 && j != index ==> #[trigger] space.write(table_virt, index, raw).entry(
                table_virt,
                j,
            ) == space.entry(table_virt, j),
        space.write(table_virt, index, raw).entry(table_virt, index) == raw,
{
    lemma_index_bound(virt, PML4_SHIFT);
    lemma_index_bound(virt, PDPT_SHIFT);
    lemma_index_bound(virt, PD_SHIFT);
    assert(space.table(table_virt).len() == 512);
}

/// Where the walk for `virt` already leads to a leaf table, a mapping makes
/// no table and takes no frame: it is the last step alone.
pub proof fn lemma_map_on_path(
    space: SpaceView,
    frames: FrameState,
    virt: u64,
    phys: u64,
    flags: u64,
    hhdm_offset: u64,
)
    requires
        space.leaf_table(virt, hhdm_offset) is Ok,
    ensures
        ({
            let pt = space.leaf_table(virt, hhdm_offset)->Ok_0;
            let out = map_outcome(space, frames, virt, phys, flags, hhdm_offset);
            let leaf = install_leaf(space, pt, virt, phys, flags, hhdm_offset);
            &&& out.0 == leaf.0
            &&& out.1 == leaf.1
            &&& out.2 == frames
            &&& map_tables(space, frames, virt, hhdm_offset).2 == pt
        }),
{
}

/// What a mapping that succeeds leaves behind, where the tables it made
/// are fresh: the walk for `virt` leads through the tables of the mapping,
/// and the leaf entry holds `phys` with `flags` and the present flag.
///
/// Where the walk led to a leaf table before, only the leaf entry has
/// changed. Where it did not and every frame lies below 2^52, the leaf
/// table holds the leaf entry and, besides it, at most entries of the walk
/// itself.
#[verifier::rlimit(40)]
pub proof fn lemma_map_shape(
    space: SpaceView,
    frames: FrameState,
    virt: u64,
    phys: u64,
    flags: u64,
    hhdm_offset: u64,
)
    requires
        space.valid(),
        frames.valid(),
        map_outcome(space, frames, virt, phys, flags, hhdm_offset).0 is Ok,
        made_tables_are_fresh(space, frames, virt, hhdm_offset),
    ensures
        ({
            let out = map_outcome(space, frames, virt, phys, flags, hhdm_offset);
            let t = map_tables(space, frames, virt, hhdm_offset);
            let pt_virt = direct_map(t.2, hhdm_offset);
            let index = level_index(virt, PT_SHIFT);
            &&& out.1.valid()
            &&& out.2.valid()
            &&& out.1.root == space.root
            &&& out.2.max_pfn == frames.max_pfn
            &&& has_path(out.1, virt, hhdm_offset, t.0, t.1, t.2)
            &&& out.1.entry(pt_virt, index) == phys | (flags | PRESENT)
            &&& space.leaf_table(virt, hhdm_offset) is Ok ==> out.1 == space.write(
                pt_virt,
                index,
                phys | (flags | PRESENT),
            ) && out.2 == frames
            &&& !(space.leaf_table(virt, hhdm_offset) is Ok) && frames.max_pfn <= 0x100_0000_0000
                ==> forall|j: int|
                0 <= j < 512 && j != index && #[trigger] out.1.entry(pt_virt, j) != 0 ==> {
                    ||| t.2 == t.1 && j == level_index(virt, PD_SHIFT)
                    ||| t.2 == t.0 && j == level_index(virt, PDPT_SHIFT)
                    ||| t.2 == space.root && j == level_index(virt, PML4_SHIFT)
                }
        }),
{
    let root = space.root;
    let s4 = descend_or_create(space, frames, root, virt, PML4_SHIFT, hhdm_offset);
    let pdpt = s4.0->Ok_0;
    let s3 = descend_or_create(s4.1, s4.2, pdpt, virt, PDPT_SHIFT, hhdm_offset);
    let pd = s3.0->Ok_0;
    let s2 = descend_or_create(s3.1, s3.2, pd, virt, PD_SHIFT, hhdm_offset);
    let pt = s2.0->Ok_0;
    let out = map_outcome(space, frames, virt, phys, flags, hhdm_offset);
    let i4 = level_index(virt, PML4_SHIFT);
    let i3 = level_index(virt, PDPT_SHIFT);
    let i2 = level_index(virt, PD_SHIFT);
    let index = level_index(virt, PT_SHIFT);
    let root_virt = direct_map(root, hhdm_offset);
    let pdpt_virt = direct_map(pdpt, hhdm_offset);
    let pd_virt = direct_map(pd, hhdm_offset);
    let pt_virt = direct_map(pt, hhdm_offset);
    let made4 = made_frame(space, frames, root, virt, PML4_SHIFT, hhdm_offset);
    let made3 = made_frame(s4.1, s4.2, pdpt, virt, PDPT_SHIFT, hhdm_offset);
    let made2 = made_frame(s3.1, s3.2, pd, virt, PD_SHIFT, hhdm_offset);
    lemma_descend_or_create(space, frames, root, virt, PML4_SHIFT, hhdm_offset);
    lemma_descend_or_create(s4.1, s4.2, pdpt, virt, PDPT_SHIFT, hhdm_offset);
    lemma_descend_or_create(s3.1, s3.2, pd, virt, PD_SHIFT, hhdm_offset);
    lemma_index_bound(virt, PT_SHIFT);
    crate::mm::types::lemma_direct_map_injective(root, pdpt, hhdm_offset);
    crate::mm::types::lemma_direct_map_injective(root, pd, hhdm_offset);
    crate::mm::types::lemma_direct_map_injective(pdpt, pd, hhdm_offset);
    crate::mm::types::lemma_direct_map_injective(pt, pd, hhdm_offset);
    crate::mm::types::lemma_direct_map_injective(pt, pdpt, hhdm_offset);
    crate::mm::types::lemma_direct_map_injective(pt, root, hhdm_offset);
    if made3 is Some {
        crate::mm::types::lemma_direct_map_injective(made3->0, root, hhdm_offset);
        crate::mm::types::lemma_direct_map_injective(made3->0, pdpt, hhdm_offset);
    }
    if made2 is Some {
        crate::mm::types::lemma_direct_map_injective(made2->0, root, hhdm_offset);
        crate::mm::types::lemma_direct_map_injective(made2->0, pdpt, hhdm_offset);
        crate::mm::types::lemma_direct_map_injective(made2->0, pd, hhdm_offset);
    }
    if made4 is Some {
        crate::mm::types::lemma_direct_map_injective(made4->0, root, hhdm_offset);
    }
    // The entry in the root, as the two steps below it left it.
    assert(s3.1.entry(root_virt, i4) == s4.1.entry(root_virt, i4)) by {
        if made3 is Some {
            assert(entry_present(s4.1.entry(root_virt, i4)));
            assert(!entry_present(s4.1.entry(pdpt_virt, i3)));
        }
    }
    assert(s2.1.entry(root_virt, i4) == s3.1.entry(root_virt, i4)) by {
        if made2 is Some {
            assert(entry_present(s3.1.entry(root_virt, i4)));
            assert(!entry_present(s3.1.entry(pd_virt, i2)));
        }
    }
    // The entry in the directory-pointer table, as the step below left it.
    assert(s2.1.entry(pdpt_virt, i3) == s3.1.entry(pdpt_virt, i3)) by {
        if made2 is Some {
            assert(entry_present(s3.1.entry(pdpt_virt, i3)));
            assert(!entry_present(s3.1.entry(pd_virt, i2)));
        }
    }
    assert(has_path(s2.1, virt, hhdm_offset, pdpt, pd, pt));
    assert(!entry_present(s2.1.entry(pt_virt, index)));
    lemma_write_keeps_path(
        s2.1,
        pt_virt,
        index,
        phys | (flags | PRESENT),
        virt,
        hhdm_offset,
        pdpt,
        pd,
        pt,
    );
    assert(out.1 == s2.1.write(pt_virt, index, phys | (flags | PRESENT)));
    if space.leaf_table(virt, hhdm_offset) is Ok {
        lemma_map_on_path(space, frames, virt, phys, flags, hhdm_offset);
    } else if frames.max_pfn <= 0x100_0000_0000 {
        lemma_mask_idempotent(0);
        assert forall|j: int|
            0 <= j < 512 && j != index && #[trigger] out.1.entry(pt_virt, j) != 0 implies {
            ||| pt == pd && j == i2
            ||| pt == pdpt && j == i3
            ||| pt == root && j == i4
        } by {
            assert(out.1.entry(pt_virt, j) == s2.1.entry(pt_virt, j));
            if made2 is Some {
                assert(pt == made2->0);
            } else if made3 is Some {
                assert(pd == made3->0);
                assert(s2.1 == s3.1);
                assert(entry_present(s3.1.entry(pd_virt, i2)));
                assert(pd_virt == pdpt_virt && i2 == i3);
                assert(pt == pd);
            } else {
                assert(made4 is Some);
                assert(pdpt == made4->0);
                assert(s2.1 == s4.1);
                assert(entry_present(s4.1.entry(pdpt_virt, i3)));
                assert(pdpt_virt == root_virt && i3 == i4);
                assert(pd == pdpt);
                assert(entry_present(s4.1.entry(pd_virt, i2)));
                assert(i2 == i4);
                assert(pt == pdpt);
            }
        }
    }
}

/// After a mapping of the page at `virt` to the frame at `phys` succeeds,
/// `virt` translates to `phys`.
///
/// This holds where the tables that the mapping made are fresh, `phys` is
/// an address that an entry can hold, and `flags` sets none of an entry's
/// address bits.
pub proof fn map_then_translate(
    space: SpaceView,
    frames: FrameState,
    virt: u64,
    phys: u64,
    flags: u64,
    hhdm_offset: u64,
)
    requires
        space.valid(),
        frames.valid(),
        virt % 4096 == 0,
        phys & ADDR_MASK == phys,
        flags & ADDR_MASK == 0,
        map_outcome(space, frames, virt, phys, flags, hhdm_offset).0 is Ok,
        made_tables_are_fresh(space, frames, virt, hhdm_offset),
    ensures
        map_outcome(space, frames, virt, phys, flags, hhdm_offset).1.translate(virt, hhdm_offset)
            == Some(phys),
{
    lemma_map_shape(space, frames, virt, phys, flags, hhdm_offset);
    lemma_leaf_bits(phys, flags, virt);
}

/// Under a huge leaf, an address translates to the leaf's base with the
/// address's low bits: thirty of them under a leaf of 1 GiB, twenty-one
/// under a leaf of 2 MiB. The tables below the leaf are not read.
pub proof fn translate_under_huge_leaf(space: SpaceView, virt: u64, hhdm_offset: u64)
    requires
        entry_present(space.walk_entry(space.root, virt, PML4_SHIFT, hhdm_offset)),
    ensures
        ({
            let e4 = space.walk_entry(space.root, virt, PML4_SHIFT, hhdm_offset);
            let e3 = space.walk_entry(entry_addr(e4), virt, PDPT_SHIFT, hhdm_offset);
            let e2 = space.walk_entry(entry_addr(e3), virt, PD_SHIFT, hhdm_offset);
            &&& entry_present(e3) && entry_huge(e3) ==> space.translate(virt, hhdm_offset) == Some(
                entry_addr(e3) | (virt & 0x3FFF_FFFF),
            )
            &&& entry_present(e3) && !entry_huge(e3) && entry_present(e2) && entry_huge(e2)
                ==> space.translate(virt, hhdm_offset) == Some(
                entry_addr(e2) | (virt & 0x1F_FFFF),
            )
        }),
{
}

/// After the mapping of `virt` is removed, `virt` translates to nothing.
pub proof fn unmap_removes_translation(space: SpaceView, virt: u64, hhdm_offset: u64)
    requires
        space.valid(),
        space.unmap(virt, hhdm_offset).0 is Ok,
    ensures
        space.unmap(virt, hhdm_offset).1.translate(virt, hhdm_offset) is None,
{
    let pt = space.leaf_table(virt, hhdm_offset)->Ok_0;
    lemma_index_bound(virt, PML4_SHIFT);
    lemma_index_bound(virt, PDPT_SHIFT);
    lemma_index_bound(virt, PD_SHIFT);
    lemma_index_bound(virt, PT_SHIFT);
    lemma_mask_idempotent(0);
    assert(space.table(direct_map(pt, hhdm_offset)).len() == 512);
}

/// A mapping that succeeded can be removed again, and `virt` then
/// translates to nothing. The conditions are those of `map_then_translate`.
pub proof fn unmap_after_map(
    space: SpaceView,
    frames: FrameState,
    virt: u64,
    phys: u64,
    flags: u64,
    hhdm_offset: u64,
)
    requires
        space.valid(),
        frames.valid(),
        virt % 4096 == 0,
        phys & ADDR_MASK == phys,
        flags & ADDR_MASK == 0,
        map_outcome(space, frames, virt, phys, flags, hhdm_offset).0 is Ok,
        made_tables_are_fresh(space, frames, virt, hhdm_offset),
    ensures
        ({
            let mapped = map_outcome(space, frames, virt, phys, flags, hhdm_offset).1;
            &&& mapped.unmap(virt, hhdm_offset).0 is Ok
            &&& mapped.unmap(virt, hhdm_offset).1.translate(virt, hhdm_offset) is None
        }),
{
    lemma_map_shape(space, frames, virt, phys, flags, hhdm_offset);
    lemma_leaf_bits(phys, flags, virt);
    let mapped = map_outcome(space, frames, virt, phys, flags, hhdm_offset).1;
    unmap_removes_translation(mapped, virt, hhdm_offset);
}

/// Where `virt` has a 4 KiB mapping, mapping it again fails with
/// `AlreadyMapped` and changes neither the space nor the allocator.
pub proof fn map_of_mapped_page_is_rejected(
    space: SpaceView,
    frames: FrameState,
    virt: u64,
    phys: u64,
    flags: u64,
    hhdm_offset: u64,
)
    requires
        space.leaf_table(virt, hhdm_offset) is Ok,
        entry_present(
            space.walk_entry(
                space.leaf_table(virt, hhdm_offset)->Ok_0,
                virt,
                PT_SHIFT,
                hhdm_offset,
            ),
        ),
    ensures
        map_outcome(space, frames, virt, phys, flags, hhdm_offset) == (
            Err::<(), MapError>(MapError::AlreadyMapped),
            space,
            frames,
        ),
{
    lemma_map_on_path(space, frames, virt, phys, flags, hhdm_offset);
}

/// A second mapping of an address that was just mapped fails with
/// `AlreadyMapped`, changes nothing, and the address still translates to
/// the frame of the first mapping. The conditions on the first mapping are
/// those of `map_then_translate`.
pub proof fn second_map_is_rejected(
    space: SpaceView,
    frames: FrameState,
    virt: u64,
    phys: u64,
    flags: u64,
    other_phys: u64,
    other_flags: u64,
    hhdm_offset: u64,
)
    requires
        space.valid(),
        frames.valid(),
        virt % 4096 == 0,
        phys & ADDR_MASK == phys,
        flags & ADDR_MASK == 0,
        map_outcome(space, frames, virt, phys, flags, hhdm_offset).0 is Ok,
        made_tables_are_fresh(space, frames, virt, hhdm_offset),
    ensures
        ({
            let first = map_outcome(space, frames, virt, phys, flags, hhdm_offset);
            let second = map_outcome(first.1, first.2, virt, other_phys, other_flags, hhdm_offset);
            &&& second.0 == Err::<(), MapError>(MapError::AlreadyMapped)
            &&& second.1 == first.1
            &&& second.2 == first.2
            &&& second.1.translate(virt, hhdm_offset) == Some(phys)
        }),
{
    lemma_map_shape(space, frames, virt, phys, flags, hhdm_offset);
    lemma_leaf_bits(phys, flags, virt);
    let first = map_outcome(space, frames, virt, phys, flags, hhdm_offset);
    map_of_mapped_page_is_rejected(first.1, first.2, virt, other_phys, other_flags, hhdm_offset);
    map_then_translate(space, frames, virt, phys, flags, hhdm_offset);
}

} // verus!
