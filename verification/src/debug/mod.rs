//! The DWARF side of the debugger: the type graph, value formatters, and
//! the DAP back end for DWARF-instrumented programs.
pub mod formatters;
pub mod types;
pub mod die;
pub mod dap;
