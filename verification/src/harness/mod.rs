//! The context harness: task analysis, scoring of agent runs and the
//! rendering and parsing of repo-intelligence prompt fragments.
pub mod repair_hint;
pub mod agent_eval;
pub mod report;
pub mod renderer;
pub mod task_terms;
pub mod task_scope;
pub mod packet;
pub mod metrics;
pub mod run_memory;
pub mod classifier;
pub mod post_failure;
pub mod prompt_paths;
pub mod assembler;
pub mod budgeter;
pub mod exec_events;
pub mod render_level;
pub mod ownership;
pub mod prompt_visibility;
pub mod test_select;
pub mod debug_view;
pub mod fragment_laws;
pub mod eval_report;
