//! Core of a version/environment manager for a three-binary software suite.
//!
//! The crate resolves version requirements against release candidates,
//! maintains a cache of installed releases, and manages named environments
//! pinned to installed releases, together with the activation-symlink and
//! bring-up bookkeeping around them.  All decisions are made here, under
//! contracts; the surrounding process (network, filesystem, subprocesses)
//! acts on the plans and records these functions produce.

pub mod binaries;
pub mod cache;
pub mod command;
pub mod digest;
pub mod downloader;
pub mod environment;
pub mod errors;
pub mod links;
pub mod penv;
pub mod release;
pub mod strutil;
pub mod version;
