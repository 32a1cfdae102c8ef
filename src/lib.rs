//! Syscall service layer of a MIPS-style emulator.
//!
//! The guest traps on `syscall`; the host decodes the request from registers
//! and memory, performs the requested effect and writes the reply back. The
//! decisions are made here as a state machine: the host performs the
//! effects it is asked for and feeds their outcomes back in.
pub mod channel;
pub mod driver;
pub mod format;
pub mod guest;
pub mod rng;
pub mod syscall;
pub mod time;
