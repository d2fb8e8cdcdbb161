//! Naming and storage decisions of a small paste service.
//!
//! The library decides under which file name a submitted paste is kept and
//! what bytes go into that file; the caller performs the actual write.

pub mod config;
pub mod naming;
pub mod paste;
