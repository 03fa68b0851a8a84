//! Verified core of a desktop tool that restores recently deleted iCloud Drive
//! items in batches, with resumable progress.
pub mod text;
pub mod models;
pub mod ids;
pub mod api;
pub mod checkpoint;
pub mod job;
pub mod browser;
pub mod redact;
pub mod session;
