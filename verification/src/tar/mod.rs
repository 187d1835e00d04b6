//! Streaming TAR archives.

pub mod archive;
pub mod archive_laws;
pub mod compression;
pub mod entry;
pub mod extension;
pub mod global;
pub mod header;
