//! Actor state migration for a content-addressed state tree.

pub mod bitswap;
pub mod cache;
pub mod codec;
pub mod engine;
pub mod error;
pub mod hash;
pub mod index;
pub mod init;
pub mod laws;
pub mod logo;
pub mod migrator;
pub mod mmap;
pub mod network;
pub mod node;
pub mod registry;
pub mod rpc;
pub mod schema;
pub mod store;
pub mod tree;
pub mod version;
