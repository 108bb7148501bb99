//! Incremental build cache and orchestration logic of a Debian package CI engine.

pub mod text;
pub mod config;
pub mod repo;
pub mod git;
pub mod cache;
pub mod resolve;
pub mod stage;
pub mod plan;
pub mod publish;
pub mod script;
pub mod status;
pub mod orchestrate;
