//! Messages that a client sends.
pub mod v4;
pub mod v5;
