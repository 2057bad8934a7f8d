//! Interrupt cause dispatch and handler registry for RISC-V platforms with a
//! platform-level interrupt controller.
//!
//! The crate decides; it never touches hardware and never runs a handler.
//! Writes to the interrupt controller and to the core's interrupt-enable bits
//! are queued as [`controller::Command`]s, and a handler that is due is handed
//! back to the caller, who runs it.

pub mod cause;
pub mod console;
pub mod controller;
pub mod irq;
pub mod registry;
pub mod timer;
