//! A layered store for source-control file content.

pub mod access;
pub mod after;
pub mod assoc;
pub mod attrs;
pub mod backing;
pub mod codec;
pub mod error;
pub mod file;
pub mod frames;
pub mod keys;
pub mod laws;
pub mod lfs_remote;
pub mod model;
pub mod probe;
pub mod provenance;
pub mod rendezvous;
pub mod result;
pub mod roundtrip;
pub mod settle;
pub mod state;
pub mod store;
pub mod stores;
pub mod tree;
pub mod types;
pub mod write;
