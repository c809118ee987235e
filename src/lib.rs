//! Reclaims disk space in voxel-world saves: a verified codec for the named
//! binary tag format, the sector-based region container, and the policy that
//! decides which chunks to drop.

pub mod binary_reader;
pub mod bytes;
pub mod chunk;
pub mod cli;
pub mod compression_scheme;
pub mod location;
pub mod optimizer;
pub mod parse;
pub mod readers;
pub mod region;
pub mod round_trip;
pub mod tag;
pub mod writers;
