//! Partition-table model and partition relocation planning.
//!
//! The crate decodes legacy (MBR) and GUID (GPT) partition tables from raw
//! sectors, validates them, and computes safe, memory-budget-aware plans for
//! moving or exchanging partition payloads on a block device. All decisions
//! are made here, over plain values; the block I/O that carries them out is
//! left to the surrounding program.

pub mod block_shifter;
pub mod crc32;
pub mod errors;
pub mod fs;
pub mod gpt;
pub mod helpers;
pub mod mbr;
pub mod mover;
pub mod planner;
