//! The Debug Adapter Protocol: messages, the session that answers requests,
//! and the plain values that language back ends hand it.
pub mod json;
pub mod types;
pub mod protocol;
pub mod session;
pub mod adapter;
