//! The rules of a small music service: albums, their ordered tracks, and the
//! upload and download of each track's audio.

pub mod config;
pub mod download;
pub mod error;
pub mod file_laws;
pub mod files;
pub mod ident;
pub mod laws;
pub mod model;
pub mod request_laws;
pub mod scan;
pub mod step_laws;
pub mod store;
pub mod table;
pub mod text;
pub mod text_laws;
pub mod transfer;
pub mod upload;
