//! A minimal trap-and-emulate hypervisor core together with the early
//! allocators and the hash map that the surrounding system is built on.

pub mod align;
pub mod bump_allocator;
pub mod collections;
pub mod context;
pub mod csr;
pub mod error;
pub mod lab_allocator;
pub mod regs;
pub mod sbi;
pub mod stage2;
pub mod vmexit;
