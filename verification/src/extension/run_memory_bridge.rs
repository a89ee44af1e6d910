//! Live per-run state updated by tool lifecycle hooks.
use vstd::prelude::*;

use crate::harness::run_memory::RunMemory;

verus! {

/// Live per-run state updated by tool lifecycle hooks.
#[derive(Debug, Clone)]
pub struct RunMemoryBridge {
    pub memory: RunMemory,
}

impl Default for RunMemoryBridge {
    fn default() -> (b: Self)
        ensures
            b.memory.files_read@.len() == 0,
            b.memory.files_edited@.len() == 0,
            b.memory.commands_run@.len() == 0,
            b.memory.failures@.len() == 0,
            b.memory.open_questions@.len() == 0,
    {
        RunMemoryBridge { memory: RunMemory::default() }
    }
}

impl RunMemoryBridge {
    /// Records that a file was read; nothing else changes.
    pub fn record_file_read(&mut self, path: String)
        ensures
            final(self).memory.files_read@ == old(self).memory.files_read@.push(path),
            final(self).memory.files_edited@ == old(self).memory.files_edited@,
            final(self).memory.commands_run@ == old(self).memory.commands_run@,
            final(self).memory.failures@ == old(self).memory.failures@,
            final(self).memory.open_questions@ == old(self).memory.open_questions@,
    {
        self.memory.files_read.push(path);
    }

    /// Records that a file was edited; nothing else changes.
    pub fn record_file_edited(&mut self, path: String)
        ensures
            final(self).memory.files_edited@ == old(self).memory.files_edited@.push(path),
            final(self).memory.files_read@ == old(self).memory.files_read@,
            final(self).memory.commands_run@ == old(self).memory.commands_run@,
            final(self).memory.failures@ == old(self).memory.failures@,
            final(self).memory.open_questions@ == old(self).memory.open_questions@,
    {
        self.memory.files_edited.push(path);
    }

    /// Records that a command was run; nothing else changes.
    pub fn record_command(&mut self, command: String)
        ensures
            final(self).memory.commands_run@ == old(self).memory.commands_run@.push(command),
            final(self).memory.files_read@ == old(self).memory.files_read@,
            final(self).memory.files_edited@ == old(self).memory.files_edited@,
            final(self).memory.failures@ == old(self).memory.failures@,
            final(self).memory.open_questions@ == old(self).memory.open_questions@,
    {
        self.memory.commands_run.push(command);
    }

    /// Records a failure; nothing else changes.
    pub fn record_failure(&mut self, failure: String)
        ensures
            final(self).memory.failures@ == old(self).memory.failures@.push(failure),
            final(self).memory.files_read@ == old(self).memory.files_read@,
            final(self).memory.files_edited@ == old(self).memory.files_edited@,
            final(self).memory.commands_run@ == old(self).memory.commands_run@,
            final(self).memory.open_questions@ == old(self).memory.open_questions@,
    {
        self.memory.failures.push(failure);
    }
}

} // verus!
