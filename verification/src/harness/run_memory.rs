//! Per-run state of the current agent session.
use vstd::prelude::*;

verus! {

/// Files read and edited, commands run, failures and open questions of one
/// agent run.
#[derive(Debug, Clone, PartialEq)]
pub struct RunMemory {
    pub files_read: Vec<String>,
    pub files_edited: Vec<String>,
    pub commands_run: Vec<String>,
    pub failures: Vec<String>,
    pub open_questions: Vec<String>,
}

impl Default for RunMemory {
    fn default() -> (m: Self)
        ensures
            m.files_read@.len() == 0,
            m.files_edited@.len() == 0,
            m.commands_run@.len() == 0,
            m.failures@.len() == 0,
            m.open_questions@.len() == 0,
    {
        RunMemory {
            files_read: Vec::new(),
            files_edited: Vec::new(),
            commands_run: Vec::new(),
            failures: Vec::new(),
            open_questions: Vec::new(),
        }
    }
}

} // verus!
