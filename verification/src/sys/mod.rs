//! Arithmetic and protocols of the operating-system layer.

pub mod cache;
pub mod counting;
pub mod futex;
pub mod mmap;
pub mod page;
pub mod shmem;
