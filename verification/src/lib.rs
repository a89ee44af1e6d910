//! Repository-intelligence context harness and reactive proxies.
pub mod intercept;
pub mod json;
pub mod large_read;
pub mod text;
pub mod telemetry;
pub mod sorted;
pub mod harness;
pub mod extension;
pub mod cli;
