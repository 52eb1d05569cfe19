//! A mirror node of a content-distribution network for game resources.
//!
//! The node proves its cluster identity to the hub with a signed challenge
//! and keeps the token it is granted fresh (`token`), and keeps a backend,
//! a local directory or a WebDAV endpoint, in step with the manifest of files
//! the hub asks it to host (`storage`). This crate decides; the caller moves
//! the bytes and talks to the network.
use vstd::prelude::*;

pub mod cli;
pub mod config;
pub mod storage;
pub mod token;
pub mod utils;

pub use cli::Cli;
pub use config::{Config, LocalStorageConfig, StorageType, WebdavStorageConfig};
pub use storage::{get_storage, AnyStorage, BMCLAPIFile, LocalStorage, Storage, WebdavStorage};
pub use token::TokenManager;
pub use utils::path_basename;

verus! {

} // verus!
