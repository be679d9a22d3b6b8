//! Core logic of a locally mirrored media server: a version-gated read cache
//! over a metadata store, byte-range resolution for media streaming, and an
//! orchestrator for background download jobs.
//!
//! Everything here is ordinary sequential logic with contracts; the
//! surrounding process (HTTP handlers, the database connection, subprocess
//! supervision) lives outside the library and feeds it plain values.

pub mod args;
pub mod cache;
pub mod config;
pub mod downloader;
pub mod errors;
pub mod jobs;
pub mod media;
pub mod paths;
pub mod progress;
pub mod range;
pub mod records;
pub mod routine;
pub mod security;
pub mod settings;
pub mod text;
