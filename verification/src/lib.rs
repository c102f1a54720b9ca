//! Decision core of a self-updating game patcher.
//!
//! The crate holds everything the patcher decides: how a manifest tree is
//! walked, which files and archive members are replaced, how the running
//! binary swaps itself for a newer copy, how the base game is unpacked, and
//! which messages the front end sees. It performs no I/O of its own. A driver
//! feeds each outcome of the outside world to [`worker::PatchWorker`] and
//! carries out the request that comes back.

pub mod download;
pub mod installer;
pub mod laws;
pub mod machine;
pub mod manifest;
pub mod message;
pub mod model;
pub mod paths;
pub mod plan;
pub mod protocol;
mod steps;
pub mod text;
pub mod url;
pub mod utils;
pub mod worker;
