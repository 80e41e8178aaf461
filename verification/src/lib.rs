//! A text console for a memory-mapped character grid, and the status
//! reporting of a bootstrap self-test run.
//!
//! - [`vga_buffer`] holds the grid console: cells, colors, the writer with
//!   its wrapping and scrolling, and the mathematical model that its
//!   contracts speak of.
//! - [`layout`] proves where written text lands on the grid.
//! - [`status`] holds the texts and codes of the status reporter.
//! - [`runner`] holds the test run that reports through them.
//!
//! The library touches memory only through the cells of the grid it is
//! given, and does no input or output of its own: the caller binds the grid
//! to the display, sends the status texts and ends the run.

pub mod layout;
pub mod runner;
pub mod status;
pub mod vga_buffer;

pub use runner::{test_panic_handler, test_runner, Testable};
pub use status::QemuExitCode;
