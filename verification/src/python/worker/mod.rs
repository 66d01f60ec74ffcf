//! The Python worker's side of the debugger.
pub mod debuggee;
