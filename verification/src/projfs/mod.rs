//! The Windows Projected File System provider: what its callbacks decide and compute.

pub mod enumeration;
pub mod file_data;
pub mod laws;
pub mod notify;
pub mod order;
pub mod progress;
pub mod serve;
pub mod sessions;
pub mod win32;
