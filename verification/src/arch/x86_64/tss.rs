//! The task state segment: the stacks the processor switches to.

use vstd::prelude::*;

verus! {

/// Bytes in a task state segment.
pub const TSS_SIZE: u16 = 104;

/// Offset of the last byte of a task state segment.
pub const TSS_LIMIT: u16 = 103;

/// A 64-bit task state segment. `ist1` is the stack for double faults.
pub struct Tss {
    pub _reserved1: u32,
    pub rsp0: u64,
    pub _rsp1: u64,
    pub _rsp2: u64,
    pub _reserved2: u64,
    pub ist1: u64,
    pub _ist2: u64,
    pub _ist3: u64,
    pub _ist4: u64,
    pub _ist5: u64,
    pub _ist6: u64,
    pub _ist7: u64,
    pub _reserved3: u64,
    pub _reserved4: u16,
    pub iopb_offset: u16,
}

impl Tss {
    /// Every stack pointer is zero and the I/O bitmap lies past the segment.
    pub open spec fn is_blank(&self) -> bool {
        &&& self._reserved1 == 0
        &&& self.rsp0 == 0
        &&& self._rsp1 == 0
        &&& self._rsp2 == 0
        &&& self._reserved2 == 0
        &&& self.ist1 == 0
        &&& self._ist2 == 0
        &&& self._ist3 == 0
        &&& self._ist4 == 0
        &&& self._ist5 == 0
        &&& self._ist6 == 0
        &&& self._ist7 == 0
        &&& self._reserved3 == 0
        &&& self._reserved4 == 0
        &&& self.iopb_offset == TSS_SIZE
    }

    /// A segment without stacks. The I/O bitmap offset equals the segment's
    /// size: there is no I/O bitmap.
    pub fn new() -> (tss: Self)
        ensures
            tss.is_blank(),
    {
        Self {
            _reserved1: 0,
            rsp0: 0,
            _rsp1: 0,
            _rsp2: 0,
            _reserved2: 0,
            ist1: 0,
            _ist2: 0,
            _ist3: 0,
            _ist4: 0,
            _ist5: 0,
            _ist6: 0,
            _ist7: 0,
            _reserved3: 0,
            _reserved4: 0,
            iopb_offset: TSS_SIZE,
        }
    }

    /// Set the double-fault stack; nothing else changes.
    pub fn init(&mut self, df_stack_top: u64)
        ensures
            *final(self) == (Tss { ist1: df_stack_top, ..*old(self) }),
    {
        self.ist1 = df_stack_top;
    }
}

} // verus!
