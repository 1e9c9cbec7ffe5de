//! Ingestion and normalization of wiki item records: field decoding,
//! wikitext extraction, item normalization, image resolution and download,
//! and milestone tree assembly.

pub mod text;
pub mod field;
pub mod types;
pub mod wikitext;
pub mod raw;
pub mod image;
pub mod item;
pub mod tdata;
pub mod download;
pub mod loader;
