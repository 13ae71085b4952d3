//! Password-based encryption of files, directory archives and byte streams.

pub mod error;
pub mod hexcode;
pub mod crypto;
pub mod compression;
pub mod text;
pub mod pipe;
pub mod names;
pub mod file_operations;
pub mod erase;
pub mod cli;
