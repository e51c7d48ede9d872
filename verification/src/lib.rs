//! Chunked storage of large files on a remote host whose objects are capped
//! in size.
//!
//! A file is cut into chunks, each chunk is stored as one object, and an
//! index that lists the chunks is stored as one more. The index is all that
//! is needed to fetch the file again or to erase it.
//!
//! The library decides and the caller acts: [`commands`] holds one machine
//! for each of the three operations, which says what is due next and takes
//! what came of it; [`discord`] says which request to send and reads the
//! answers; [`index`] is the index and its document format; [`chunks`] is
//! the arithmetic of cutting; [`multipart`] frames a chunk for sending;
//! [`config`] keeps the named endpoints; [`runs`] states what holds of
//! whole runs. The formats of the documents are read and written by the
//! `toml` and `serde_json` crates, behind [`toml_format`] and
//! [`json_format`].

pub mod chunks;
pub mod cli;
pub mod commands;
pub mod config;
pub mod decimal;
pub mod discord;
pub mod document;
pub mod error;
pub mod index;
pub mod json_format;
pub mod multipart;
pub mod read_ext;
pub mod runs;
pub mod toml_format;
