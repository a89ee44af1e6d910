//! The repo-intelligence extension layer: live run state fed by tool
//! lifecycle hooks.
pub mod run_memory_bridge;
pub mod repo_intelligence;
