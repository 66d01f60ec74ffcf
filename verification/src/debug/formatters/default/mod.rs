//! Formatters that apply to any program.
pub mod array;
