//! Conversion of console disc images into partitioned, hash-chained containers.
//!
//! The library reads the disc's embedded filesystem, extracts the identity
//! record of the title's executable, and encodes the raw data volume as
//! container parts with a two-level SHA-1 hash tree and a fixed-layout header.
//! Every function works on byte slices that the caller has in memory.

pub mod byte_order;
pub mod error;
pub mod executable;
pub mod god;
pub mod iso;
pub mod iso_fs;
pub mod ranged;
pub mod sha;
pub mod stream;
pub mod text;
pub mod unity;
pub mod xex;
