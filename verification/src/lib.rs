//! Verified core of the vdub video dubbing engine.
pub mod strings;
pub mod sentences;
pub mod energy;
pub mod align;
pub mod config;
pub mod task;
pub mod text;
pub mod cli_art;
pub mod deps;
pub mod transcript;
pub mod ass;
pub mod link;
pub mod api;
pub mod providers;
pub mod storage;
pub mod service;
pub mod aliyun;
pub mod media;
pub mod finalize;
pub mod files;
pub mod pipeline;
pub mod srt;
