//! Events and what caused them, recorded per core.

pub mod buffer;
pub mod types;
