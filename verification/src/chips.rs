//! Chip implementations: each chip pairs a column schema, a trace generator
//! and a constraint evaluator proving one slice of the VM semantics.

pub mod cpu;
pub mod memory;
pub mod syscall;

pub use cpu::CpuChip;
pub use memory::MemoryChip;
pub use syscall::{Poseidon2Chip, Sha256Chip};
