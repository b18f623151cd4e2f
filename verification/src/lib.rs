//! Model of a RISC-V ACLINT (Advanced Core Local Interruptor) register block,
//! together with the boot-time extraction of board topology (core count,
//! timebase frequency, console base address) from a flattened device-tree
//! blob.
//!
//! RISC-V ACLINT is defined in <https://github.com/riscv/riscv-aclint>.

pub mod clint;
pub mod dtb;

pub use clint::{MTIME, MTIMECMP, MSIP, SETSSIP, MSWI, SSWI, SifiveClint};
pub use dtb::{BoardInfo, DtbError};
