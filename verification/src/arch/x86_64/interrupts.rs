//! Exceptions: which vectors the kernel handles, and what the error codes
//! that the processor pushes say.

use crate::arch::x86_64::idt::{Idt, IdtEntry};
use vstd::prelude::*;

verus! {

pub const DIVIDE_BY_ZERO_VEC: usize = 0;

pub const DOUBLE_FAULT_VEC: usize = 8;

pub const GENERAL_PROTECTION_FAULT_VEC: usize = 13;

pub const PAGE_FAULT_VEC: usize = 14;

/// Interrupt stack, by its index in the task state segment, on which double
/// faults run.
pub const DOUBLE_FAULT_IST: u8 = 1;

pub const PF_PRESENT: u64 = 0x1;

pub const PF_WRITE: u64 = 0x2;

pub const PF_USER: u64 = 0x4;

pub const GPF_EXTERNAL: u64 = 0x1;

pub const GPF_TABLE_MASK: u64 = 0x6;

pub const GPF_SELECTOR_SHIFT: u64 = 3;

/// What the processor pushes on an exception, with the error code first.
#[derive(Clone, Copy, Debug)]
pub struct InterruptStackFrame {
    pub err_code: u64,
    pub rip: u64,
    pub cs: u64,
    pub rflags: u64,
    pub rsp: u64,
    pub ss: u64,
}

/// Addresses of the entry stubs of the four exceptions that are handled.
#[derive(Clone, Copy, Debug)]
pub struct ExceptionStubs {
    pub divide_by_zero: u64,
    pub double_fault: u64,
    pub general_protection_fault: u64,
    pub page_fault: u64,
}

/// Install the four exception stubs. Double faults run on their own stack;
/// the others on the stack that was current.
pub fn register_handlers(idt: &mut Idt, stubs: &ExceptionStubs)
    ensures
        final(idt).entries[DIVIDE_BY_ZERO_VEC as int] == IdtEntry::handler(stubs.divide_by_zero),
        final(idt).entries[DOUBLE_FAULT_VEC as int] == (IdtEntry {
            ist: DOUBLE_FAULT_IST,
            ..IdtEntry::handler(stubs.double_fault)
        }),
        final(idt).entries[GENERAL_PROTECTION_FAULT_VEC as int] == IdtEntry::handler(
            stubs.general_protection_fault,
        ),
        final(idt).entries[PAGE_FAULT_VEC as int] == IdtEntry::handler(stubs.page_fault),
        final(idt).entries[DOUBLE_FAULT_VEC as int].offset() == stubs.double_fault,
        forall|v: int|
            0 <= v < 256 && v != DIVIDE_BY_ZERO_VEC && v != DOUBLE_FAULT_VEC && v
                != GENERAL_PROTECTION_FAULT_VEC && v != PAGE_FAULT_VEC ==> final(idt).entries[v]
                == old(idt).entries[v],
{
    idt.set_handler(DIVIDE_BY_ZERO_VEC, stubs.divide_by_zero);
    idt.set_handler(DOUBLE_FAULT_VEC, stubs.double_fault);
    idt.set_handler(GENERAL_PROTECTION_FAULT_VEC, stubs.general_protection_fault);
    idt.set_handler(PAGE_FAULT_VEC, stubs.page_fault);

    idt.set_ist(DOUBLE_FAULT_VEC, DOUBLE_FAULT_IST);
}

/// What the error code of a page fault says.
#[derive(Clone, Copy, Debug, PartialEq, Eq, Structural)]
pub struct PageFaultCause {
    /// The page was present: the access broke its protection.
    pub present: bool,
    /// The access was a write.
    pub write: bool,
    /// The access came from user mode.
    pub user: bool,
}

/// Read the three low bits of a page fault's error code.
pub fn decode_page_fault(err_code: u64) -> (cause: PageFaultCause)
    ensures
        cause.present == (err_code & PF_PRESENT != 0),
        cause.write == (err_code & PF_WRITE != 0),
        cause.user == (err_code & PF_USER != 0),
{
    PageFaultCause {
        present: (err_code & PF_PRESENT) != 0,
        write: (err_code & PF_WRITE) != 0,
        user: (err_code & PF_USER) != 0,
    }
}

/// What the error code of a general protection fault says.
#[derive(Clone, Copy, Debug, PartialEq, Eq, Structural)]
pub struct ProtectionFaultCause {
    /// The fault came from an event outside the program.
    pub external: bool,
    /// Which descriptor table the selector names: two bits.
    pub table: u64,
    /// Index of the selector in that table.
    pub selector: u64,
}

/// Take apart the error code of a general protection fault.
pub fn decode_general_protection_fault(err_code: u64) -> (cause: ProtectionFaultCause)
    ensures
        cause.external == (err_code & GPF_EXTERNAL != 0),
        cause.table == (err_code & GPF_TABLE_MASK) >> 1,
        cause.table < 4,
        cause.selector == err_code >> GPF_SELECTOR_SHIFT,
{
    assert((err_code & 0x6) >> 1 < 4) by (bit_vector);
    ProtectionFaultCause {
        external: (err_code & GPF_EXTERNAL) != 0,
        table: (err_code & GPF_TABLE_MASK) >> 1,
        selector: err_code >> GPF_SELECTOR_SHIFT,
    }
}

} // verus!
