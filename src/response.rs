//! Messages that a server sends.
pub mod v4;
pub mod v5;
