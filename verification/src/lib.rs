//! Lockstep co-simulation checker for a RISC-V core.
//!
//! The library validates a hardware core's retirement trace against an
//! independent reference interpreter, one committed instruction at a time.
//! It holds the verified pieces: the commit-trace parser, the memory shim
//! that separates plain memory from memory-mapped I/O, the reconciliation
//! engine that owns the architectural state mirror and applies the
//! accept/reject policy, and the stall detector of the driver loop.

pub mod driver;
pub mod engine;
pub mod memory;
pub mod parse;
pub mod port;

pub use port::Port;
