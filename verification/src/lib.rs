//! A process-level debugger as a library.
//!
//! The session is a state machine over plain values: it takes the answer to
//! its last request, updates the breakpoint table and the target it owns,
//! and names what to show and what to do next. Patching bytes through
//! word-sized reads and writes, stepping over a breakpoint, installing
//! breakpoints into a new target and walking the stack are smaller machines
//! of the same kind. `tracer` carries out the requests that are for the
//! traced process; the terminal, the debug information and the launching of
//! programs are left to the driver.
//!
//! `farm` holds the parts of a number-factoring work queue.

pub mod bound;
pub mod breakpoint;
pub mod command;
pub mod debugger;
pub mod farm;
pub mod inferior;
pub mod laws;
pub mod materialize;
pub mod numeral;
pub mod patch;
pub mod protocol;
pub mod registers;
pub mod resume;
pub mod session;
pub mod status;
pub mod step_over;
pub mod tracer;
pub mod unwind;
pub mod wait;
pub mod word;
