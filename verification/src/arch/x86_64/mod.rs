//! Descriptor tables of the x86-64 processor, as plain data, and what the
//! kernel decides from the registers it reads.

pub mod cpu;
pub mod gdt;
pub mod idt;
pub mod interrupts;
pub mod serial;
pub mod tss;
