//! Virtual file system support shared across platform backends.
//!
//! [`tree`] holds what a projected tree is made of. [`resolve`], [`listing`], [`content`] and
//! [`prefetch`] hold the platform-neutral path resolution, directory enumeration, content reads
//! and cache warming. Each is a machine that says what to ask of the host next and takes the
//! answer, since the answers come from disk or from a server.
//!
//! [`fuse`] holds the state of a mounted workspace, with [`inodes`], [`handles`] and [`attr`].

pub mod attr;
pub mod content;
pub mod directory;
pub mod fuse;
pub mod handles;
pub mod inodes;
pub mod laws;
pub mod listing;
pub mod mount;
pub mod mount_laws;
pub mod paths;
pub mod prefetch;
pub mod reconcile;
pub mod resolve;
pub mod tree;
pub mod tree_laws;
