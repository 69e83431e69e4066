//! Interrupt-driven controller logic for a button-triggered LED matrix.
//!
//! The crate verifies the core of a small firmware image: an edge latch
//! shared between an interrupt handler and a polling main loop, the
//! multiplexed scan plan that renders a fixed 5x5 bitmap, the button
//! engagement test, and the per-iteration decision of the main loop.
//! Hardware access itself (pins, the interrupt controller, the serial
//! sink) stays outside, in the thin shell that embeds this library.

pub mod bitmap;
pub mod console;
pub mod display;
pub mod latch;
pub mod mainloop;
pub mod monitor;
