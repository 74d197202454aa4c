//! Core logic of a YouTube-channel-to-podcast proxy.
//!
//! The library covers the pure and decision-making parts of the system: a
//! TTL-based cache's path construction and sweep planning, classification of
//! an external metadata tool's outcomes, and assembly of a filtered, sorted
//! podcast feed from channel and video records. Filesystem access, process
//! execution and HTTP serving are left to an unverified shell that drives
//! these functions.

pub mod cache;
pub mod dates;
pub mod encoding;
pub mod errors;
pub mod feed;
pub mod media;
pub mod text;
pub mod ytdl;
