//! Verified core of `rim`, a wrapper that keeps a JavaScript project's
//! dependency tree in a RAM-backed directory while the sources stay on disk.

pub mod config;
pub mod ancestry;
pub mod context;
pub mod hash;
pub mod links;
pub mod manifests;
pub mod meminfo;
pub mod meta;
pub mod mounts;
pub mod options;
pub mod paths;
pub mod platform;
pub mod project;
pub mod run;
pub mod storage;
pub mod text;
pub mod tool;
