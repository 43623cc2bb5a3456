//! Byte blobs that can be materialised as files in a temporary directory,
//! and a keyed store of such blobs.
//!
//! The library names each blob's file, decides what mapping and unmapping do
//! to the file system, and keeps blobs under string keys. Looking at the disk
//! and writing or deleting files is left to the caller.

mod clock;
pub mod entry;
pub mod hex;
pub mod laws;
pub mod mapping;
pub mod storage;
