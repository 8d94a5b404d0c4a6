//! What the server decides about the requests it is sent.

pub mod auth;
pub mod build_guard;
pub mod headers;
pub mod quic_storage;
pub mod storage_service;
