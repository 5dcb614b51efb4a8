//! A virtual filesystem layer for game resources: options for opening files,
//! validation of virtual paths, and the decisions of a physical, an overlay and
//! a zip-backed filesystem. The reading and writing themselves happen outside
//! this crate. Every function here is verified, but for a few small wrappers of
//! std and zip (UTF-8 decoding, `Debug`/`Display` rendering) whose contracts are
//! trusted. Paths are Unix paths held as their raw bytes.

pub mod context;
pub mod error;
pub mod metadata;
pub mod options;
pub mod overlay;
pub mod path;
pub mod physical;
pub mod text;
pub mod zipfs;
