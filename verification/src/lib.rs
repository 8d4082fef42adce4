//! Boot-time kernel memory management: a bitmap frame allocator, a four-level
//! page-table manager and a guarded kernel-stack builder, together with the
//! descriptor tables and event records of the surrounding kernel.

pub mod arch;
pub mod boot;
pub mod causality;
pub mod mm;
