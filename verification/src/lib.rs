//! The decisions of a Lore workspace and its server: how a virtual file system shows a workspace,
//! how locks are waited for, what overlaps with git, what a build says of itself, and which
//! requests a server admits.
//!
//! Everything here computes on plain values. What comes from disk, from the network or from the
//! operating system is handed in, and what is to be done there is handed out.

pub mod build_info;
pub mod encoding;
pub mod git;
pub mod lock;
pub mod numerals;
pub mod projfs;
pub mod server;
pub mod text;
pub mod version;
pub mod vfs;
pub mod wide;
