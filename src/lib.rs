//! Exclusive, register-level access to a single-board computer's GPIO
//! peripheral: pin modes, pull resistors, output levels and edge interrupts.
//!
//! The register block, the process-wide checkout registry and the interrupt
//! event loop are modelled as plain values so that every operation on them
//! carries a proved contract. Device files, the memory mapping and the
//! blocking multiplexer wait live with the caller, which hands the library
//! the words it mapped and the edges the kernel reported.

pub mod error;
pub mod types;
pub mod registers;
pub mod registry;
pub mod events;
pub mod gpio;
