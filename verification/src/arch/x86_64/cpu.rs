//! The processor's own tables: its descriptor table, its task state
//! segment, and the stack that double faults run on.

use crate::arch::x86_64::gdt::Gdt;
use crate::arch::x86_64::tss::Tss;
use vstd::prelude::*;

verus! {

pub const APIC_ID_SHIFT: u32 = 24;

pub const APIC_ID_MASK: u32 = 0xFF;

/// Bytes in the double-fault stack.
pub const DF_STACK_SIZE: u64 = 4096;

pub struct Cpu {
    pub gdt: Gdt,
    pub tss: Tss,
    pub df_stack: [u8; 4096],
}

impl Cpu {
    /// Tables as they are before the processor is set up, and a
    /// double-fault stack of zeros.
    pub fn new() -> (cpu: Self)
        ensures
            cpu.tss.is_blank(),
            cpu.gdt.is_initial(),
            forall|i: int| 0 <= i < 4096 ==> cpu.df_stack[i] == 0,
    {
        Self { gdt: Gdt::new(), tss: Tss::new(), df_stack: [0;4096] }
    }
}

/// Tie the tables together: double faults run on the stack that starts at
/// `df_stack_addr` and grows down from its end, and the descriptor table
/// names the task state segment at `tss_addr`.
pub fn init(cpu: &mut Cpu, df_stack_addr: u64, tss_addr: u64)
    requires
        df_stack_addr + DF_STACK_SIZE <= u64::MAX,
    ensures
        final(cpu).tss == (Tss { ist1: (df_stack_addr + DF_STACK_SIZE) as u64, ..old(cpu).tss }),
        final(cpu).gdt.entries == old(cpu).gdt.entries,
        final(cpu).gdt.tss_desc == old(cpu).gdt.tss_desc.pointing_at(tss_addr),
        final(cpu).gdt.tss_desc.base() == tss_addr,
        final(cpu).df_stack == old(cpu).df_stack,
{
    let df_stack_top: u64 = df_stack_addr + DF_STACK_SIZE;
    cpu.tss.init(df_stack_top);
    cpu.gdt.init_tss(tss_addr);
}

/// The core's number: the initial APIC id, which the processor reports in
/// the top byte of `ebx` for CPUID leaf 1.
pub fn current_core_id(ebx: u32) -> (id: u16)
    ensures
        id == (ebx >> APIC_ID_SHIFT) & APIC_ID_MASK,
        id < 256,
{
    assert((ebx >> 24) & 0xFF < 256) by (bit_vector);
    ((ebx >> APIC_ID_SHIFT) & APIC_ID_MASK) as u16
}

} // verus!
