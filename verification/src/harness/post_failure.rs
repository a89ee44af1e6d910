//! The follow-up prompt after a failed verification: what failed, what
//! changed, the repair hint, and the repository guidance.
use vstd::prelude::*;

use crate::harness::renderer::{fragment_lines, ContextPacketRenderer, PromptPacket};
use crate::harness::repair_hint::{infer_repair_hint, is_repair_hint_for, FailureType, RepairHint};
use crate::text::{chars_of, dec, join, push_dec, push_str, str_views, string_from, sub_chars};

verus! {

/// Most characters of failure output shown in the prompt.
pub const MAX_POST_FAILURE_PROMPT_OUTPUT_CHARS: usize = 6_000;

/// Inputs for a verification-failure follow-up packet.
#[derive(Debug, Clone, PartialEq)]
pub struct PostFailureContext {
    pub task: String,
    pub changed_files: Vec<String>,
    pub failed_command: String,
    pub run_reason: String,
    pub failure_summary: String,
    pub relevant_output: String,
    pub repair_hint: RepairHint,
}

/// `text` cut to `max_chars` characters, followed by a note of how many
/// were left out when it was cut.
pub open spec fn spec_cap_prompt_text(text: Seq<char>, max_chars: nat) -> Seq<char> {
    if text.len() <= max_chars {
        text
    } else {
        text.take(max_chars as int) + "\n\u{2026} [truncated, "@ + dec((text.len() - max_chars) as nat)
            + " chars omitted]"@
    }
}

/// Caps `text` at `max_chars` characters, noting what was omitted.
pub fn cap_prompt_text(text: &str, max_chars: usize) -> (out: String)
    ensures
        out@ == spec_cap_prompt_text(text@, max_chars as nat),
{
    let tc = chars_of(text);
    if tc.len() <= max_chars {
        return string_from(tc.as_slice());
    }
    let cut = sub_chars(tc.as_slice(), 0, max_chars);
    assert(cut@ =~= text@.take(max_chars as int));
    let mut out = string_from(cut.as_slice());
    push_str(&mut out, "\n\u{2026} [truncated, ");
    push_dec(&mut out, (tc.len() - max_chars) as u64);
    push_str(&mut out, " chars omitted]");
    out
}

impl PostFailureContext {
    /// The context with its output capped at `max_chars` characters and the
    /// repair hint recomputed from the capped output.
    pub fn with_capped_output(self, max_chars: usize) -> (c: Self)
        ensures
            c.task == self.task,
            c.changed_files == self.changed_files,
            c.failed_command == self.failed_command,
            c.run_reason == self.run_reason,
            c.failure_summary == self.failure_summary,
            c.relevant_output@ == spec_cap_prompt_text(self.relevant_output@, max_chars as nat),
            is_repair_hint_for(
                c.repair_hint,
                c.relevant_output@,
                str_views(self.changed_files@),
                self.failed_command@,
            ),
    {
        let mut c = self;
        c.relevant_output = cap_prompt_text(c.relevant_output.as_str(), max_chars);
        c.repair_hint = infer_repair_hint(
            c.relevant_output.as_str(),
            c.changed_files.as_slice(),
            c.failed_command.as_str(),
        );
        c
    }
}

/// The snake-case name of a failure type.
pub open spec fn failure_label(t: FailureType) -> Seq<char> {
    match t {
        FailureType::CompileError => "compile_error"@,
        FailureType::TestAssertionFailure => "test_assertion_failure"@,
        FailureType::MissingImport => "missing_import"@,
        FailureType::SnapshotFailure => "snapshot_failure"@,
        FailureType::LintFailure => "lint_failure"@,
        FailureType::Timeout => "timeout"@,
        FailureType::Unknown => "unknown"@,
    }
}

fn failure_type_label(t: FailureType) -> (s: &'static str)
    ensures
        s@ == failure_label(t),
{
    match t {
        FailureType::CompileError => "compile_error",
        FailureType::TestAssertionFailure => "test_assertion_failure",
        FailureType::MissingImport => "missing_import",
        FailureType::SnapshotFailure => "snapshot_failure",
        FailureType::LintFailure => "lint_failure",
        FailureType::Timeout => "timeout",
        FailureType::Unknown => "unknown",
    }
}

/// The lines of the post-failure fragment, before the repository guidance.
pub open spec fn failure_lines(f: PostFailureContext) -> Seq<Seq<char>> {
    let changed = str_views(f.changed_files@);
    let likely = str_views(f.repair_hint.likely_files@);
    let shown = if likely.len() <= 6 {
        likely
    } else {
        likely.take(6)
    };
    seq![
        "Verification failed:"@,
        "- Command: "@ + f.failed_command@,
        "- Why it was run: "@ + f.run_reason@,
        "- Failure summary: "@ + f.failure_summary@,
        "- Relevant output:\n"@ + spec_cap_prompt_text(
            f.relevant_output@,
            MAX_POST_FAILURE_PROMPT_OUTPUT_CHARS as nat,
        ),
    ] + (if changed.len() > 0 {
        seq![Seq::<char>::empty(), "Changed files:"@] + changed.map_values(|p: Seq<char>| "- "@ + p)
    } else {
        Seq::empty()
    }) + seq![
        Seq::<char>::empty(),
        "Repair hint:"@,
        "- Failure type: "@ + failure_label(f.repair_hint.likely_failure_type),
    ] + (if likely.len() > 0 {
        seq!["- Likely files:"@] + shown.map_values(|p: Seq<char>| "  - "@ + p)
    } else {
        Seq::empty()
    }) + seq!["- Focus: "@ + f.repair_hint.suggested_focus@]
}

fn push_prefixed(out: &mut Vec<String>, items: &Vec<String>, n: usize, prefix: &str)
    requires
        n <= items@.len(),
    ensures
        str_views(final(out)@) == str_views(old(out)@) + str_views(items@).take(n as int).map_values(
            |p: Seq<char>| prefix@ + p,
        ),
{
    let ghost start = str_views(out@);
    let ghost f = |p: Seq<char>| prefix@ + p;
    let mut i: usize = 0;
    while i < n
        invariant
            i <= n <= items@.len(),
            f == (|p: Seq<char>| prefix@ + p),
            str_views(out@) == start + str_views(items@).take(i as int).map_values(f),
        decreases n - i,
    {
        let mut line = prefix.to_owned();
        push_str(&mut line, items[i].as_str());
        let ghost before = str_views(out@);
        out.push(line);
        assert(str_views(out@) =~= before.push(line@));
        assert(str_views(items@).take(i + 1).map_values(f) =~= str_views(items@).take(i as int).map_values(
            f,
        ).push(f(str_views(items@)[i as int])));
        i = i + 1;
    }
}

/// Renders the post-failure fragment: the failed command and its output,
/// the changed files, the repair hint (at most six likely files), and the
/// repository guidance for the packet.
pub fn render_post_failure_prompt_fragment_with_caps(
    packet: &PromptPacket,
    failure: &PostFailureContext,
    max_prompt_included_files: usize,
    max_edit_targets: usize,
) -> (s: String)
    ensures
        s@ == join(
            failure_lines(*failure) + seq![
                Seq::<char>::empty(),
                join(
                    fragment_lines(*packet, max_prompt_included_files as nat, max_edit_targets as nat),
                    "\n"@,
                ),
            ],
            "\n"@,
        ),
{
    let capped = cap_prompt_text(failure.relevant_output.as_str(), MAX_POST_FAILURE_PROMPT_OUTPUT_CHARS);
    let mut lines: Vec<String> = Vec::new();
    lines.push("Verification failed:".to_owned());
    let mut l1 = "- Command: ".to_owned();
    push_str(&mut l1, failure.failed_command.as_str());
    lines.push(l1);
    let mut l2 = "- Why it was run: ".to_owned();
    push_str(&mut l2, failure.run_reason.as_str());
    lines.push(l2);
    let mut l3 = "- Failure summary: ".to_owned();
    push_str(&mut l3, failure.failure_summary.as_str());
    lines.push(l3);
    let mut l4 = "- Relevant output:\n".to_owned();
    push_str(&mut l4, capped.as_str());
    lines.push(l4);
    let ghost a = str_views(lines@);
    assert(a =~= seq![
        "Verification failed:"@,
        "- Command: "@ + failure.failed_command@,
        "- Why it was run: "@ + failure.run_reason@,
        "- Failure summary: "@ + failure.failure_summary@,
        "- Relevant output:\n"@ + spec_cap_prompt_text(
            failure.relevant_output@,
            MAX_POST_FAILURE_PROMPT_OUTPUT_CHARS as nat,
        ),
    ]);
    let ghost changed = str_views(failure.changed_files@);
    if failure.changed_files.len() > 0 {
        lines.push(String::new());
        lines.push("Changed files:".to_owned());
        push_prefixed(&mut lines, &failure.changed_files, failure.changed_files.len(), "- ");
        assert(str_views(failure.changed_files@).take(failure.changed_files@.len() as int) =~= str_views(
            failure.changed_files@,
        ));
        assert(str_views(lines@) =~= a + (seq![Seq::<char>::empty(), "Changed files:"@] + changed.map_values(
            |p: Seq<char>| "- "@ + p,
        )));
    } else {
        assert(str_views(lines@) =~= a + Seq::<Seq<char>>::empty());
    }
    let ghost b = str_views(lines@);
    lines.push(String::new());
    lines.push("Repair hint:".to_owned());
    let mut l5 = "- Failure type: ".to_owned();
    push_str(&mut l5, failure_type_label(failure.repair_hint.likely_failure_type));
    lines.push(l5);
    let likely = &failure.repair_hint.likely_files;
    let ghost c = str_views(lines@);
    assert(c =~= b + seq![
        Seq::<char>::empty(),
        "Repair hint:"@,
        "- Failure type: "@ + failure_label(failure.repair_hint.likely_failure_type),
    ]);
    let ghost lv = str_views(likely@);
    let ghost shown = if lv.len() <= 6 {
        lv
    } else {
        lv.take(6)
    };
    if likely.len() > 0 {
        lines.push("- Likely files:".to_owned());
        let n: usize = if likely.len() <= 6 {
            likely.len()
        } else {
            6
        };
        push_prefixed(&mut lines, likely, n, "  - ");
        assert(str_views(likely@).take(likely@.len() as int) =~= str_views(likely@));
        assert(lv.take(n as int) == shown);
        assert(str_views(lines@) =~= c + (seq!["- Likely files:"@] + shown.map_values(
            |p: Seq<char>| "  - "@ + p,
        )));
    } else {
        assert(str_views(lines@) =~= c + Seq::<Seq<char>>::empty());
    }
    let mut l6 = "- Focus: ".to_owned();
    push_str(&mut l6, failure.repair_hint.suggested_focus.as_str());
    lines.push(l6);
    let ghost fl = str_views(lines@);
    assert(fl =~= failure_lines(*failure));
    let repo_context = ContextPacketRenderer::render_prompt_fragment_with_caps(
        packet,
        max_prompt_included_files,
        max_edit_targets,
    );
    lines.push(String::new());
    lines.push(repo_context);
    assert(str_views(lines@) =~= fl + seq![Seq::<char>::empty(), repo_context@]);
    crate::text::join_strings(&lines, "\n")
}

/// Renders the post-failure fragment with the default caps.
pub fn render_post_failure_prompt_fragment(packet: &PromptPacket, failure: &PostFailureContext) -> (s: String)
    ensures
        s@ == join(
            failure_lines(*failure) + seq![Seq::<char>::empty(), join(fragment_lines(*packet, 8, 1), "\n"@)],
            "\n"@,
        ),
{
    render_post_failure_prompt_fragment_with_caps(packet, failure, 8, 1)
}

} // verus!
