//! Formatters for C++ library types.
pub mod string;
