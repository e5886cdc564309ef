//! A small system-information reporting library: parsers for key-value
//! identity files, uptime and memory-statistics files and the mount table,
//! formatters for durations and byte sizes, and a box-drawn report renderer.

pub mod bytesize;
pub mod duration;
pub mod error;
pub mod kv;
pub mod meminfo;
pub mod mounts;
pub mod num;
pub mod render;
pub mod report;
pub mod text;
pub mod uptime;
