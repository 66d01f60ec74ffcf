//! DAP support for Python.
pub mod vars;
pub mod adapter;
