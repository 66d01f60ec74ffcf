//! The Python back end: the debugger state kept on the main thread and the
//! DAP answers built from it.
pub mod dap;
pub mod debug;
pub mod worker;
