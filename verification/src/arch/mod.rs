//! What depends on the processor architecture.

pub mod x86_64;
