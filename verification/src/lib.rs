//! A Motorola 68000 CPU core.
//!
//! All state lives in [`M68k`], and every memory access goes through [`Bus`].
//! The core holds no host I/O and no clock, so it is deterministic and can be
//! snapshotted by copying the struct.

pub mod bus;
pub mod cpu;
pub mod decode;
pub mod disasm;
pub mod ea;
pub mod exception;
pub mod flags;
pub mod ops;

pub use bus::Bus;
pub use cpu::M68k;
pub use ea::Size;
