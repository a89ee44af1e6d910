//! Command-line surface: the plain shapes of the `context`, `agent-eval`
//! and `verification` commands, and the decisions the agent-eval scorer
//! makes about its artifacts directory.
use vstd::prelude::*;

use crate::harness::agent_eval::AgentArm;
use crate::text::{ends_with, starts_with, str_views};

verus! {

/// `context agent-eval`.
#[derive(Debug, Clone, PartialEq)]
pub struct ContextAgentEvalCli {
    pub subcommand: ContextAgentEvalSubcommand,
}

/// Subcommands of `context agent-eval`.
#[derive(Debug, Clone, PartialEq)]
pub enum ContextAgentEvalSubcommand {
    /// Score baseline vs treatment run records under an artifacts directory.
    Score(ContextAgentEvalScoreCommand),
}

/// `context agent-eval score`.
#[derive(Debug, Clone, PartialEq)]
pub struct ContextAgentEvalScoreCommand {
    /// Task fixture (the same tasks for both arms).
    pub fixture: String,
    /// Directory with `{task_id}/{arm}/record.json`.
    pub artifacts_dir: String,
    /// Treatment arm: `harness` or `repo_intelligence`; detected when absent.
    pub treatment_arm: Option<String>,
    pub human: bool,
    pub json_out: Option<String>,
}

/// `context`.
#[derive(Debug, Clone, PartialEq)]
pub struct ContextCli {
    pub subcommand: ContextSubcommand,
}

/// Subcommands of `context`.
#[derive(Debug, Clone, PartialEq)]
pub enum ContextSubcommand {
    /// Build a context packet for a task.
    Build(ContextBuildCommand),
    /// Compare packet paths against the plain prompt input.
    DiffPrompt(ContextDiffPromptCommand),
    /// Run fixture-based packet metrics.
    Eval(ContextEvalCommand),
}

/// `context build`.
#[derive(Debug, Clone, PartialEq)]
pub struct ContextBuildCommand {
    pub task: String,
    pub cwd: Option<String>,
    pub json_out: Option<String>,
    pub refresh_index: bool,
    pub human: bool,
    pub prompt_fragment: bool,
    /// Token budget limit (12 000 unless given).
    pub token_budget: u32,
    pub changed: Vec<String>,
    pub with_verification_plan: bool,
    pub verification_report: Option<String>,
}

/// `context diff-prompt`.
#[derive(Debug, Clone, PartialEq)]
pub struct ContextDiffPromptCommand {
    pub task: String,
    pub cwd: Option<String>,
    pub refresh_index: bool,
    pub token_budget: Option<u32>,
    pub human: bool,
}

/// `context eval`.
#[derive(Debug, Clone, PartialEq)]
pub struct ContextEvalCommand {
    pub fixture: String,
    pub cwd: Option<String>,
    pub refresh_index: bool,
    pub map_fixture: Option<String>,
    pub json: bool,
    pub human: bool,
    pub token_budget: u32,
}

/// `verification`.
#[derive(Debug, Clone, PartialEq)]
pub struct VerificationCli {
    pub subcommand: VerificationSubcommand,
}

/// Subcommands of `verification`.
#[derive(Debug, Clone, PartialEq)]
pub enum VerificationSubcommand {
    /// Build a verification plan from changed paths.
    Plan(VerificationPlanCommand),
    /// Build a plan and run its narrow commands with approval.
    Run(VerificationRunCommand),
    /// Score plan fixtures against a repository map.
    Eval(VerificationEvalCommand),
}

/// `verification plan`.
#[derive(Debug, Clone, PartialEq)]
pub struct VerificationPlanCommand {
    pub changed: Vec<String>,
    pub task: Option<String>,
    pub cwd: Option<String>,
    pub refresh_index: bool,
    pub json_out: Option<String>,
}

/// `verification run`.
#[derive(Debug, Clone, PartialEq)]
pub struct VerificationRunCommand {
    pub changed: Vec<String>,
    pub task: Option<String>,
    pub cwd: Option<String>,
    pub refresh_index: bool,
    pub yes: bool,
    pub human: bool,
    /// Per-command timeout in seconds (600 unless given).
    pub timeout_secs: u64,
    /// Characters kept per output stream (24 000 unless given).
    pub max_output_chars: usize,
    pub json_out: Option<String>,
}

/// `verification eval`.
#[derive(Debug, Clone, PartialEq)]
pub struct VerificationEvalCommand {
    pub fixture: String,
    pub map_fixture: Option<String>,
    pub cwd: Option<String>,
    pub refresh_index: bool,
}

// ---------------------------------------------------------------------------
// Artifacts of an agent evaluation
// ---------------------------------------------------------------------------

/// The treatment arm a name selects: `harness` or `repo_intelligence`.
pub open spec fn spec_parse_treatment_arm(name: Seq<char>) -> Option<AgentArm> {
    if name == "harness"@ {
        Some(AgentArm::Harness)
    } else if name == "repo_intelligence"@ {
        Some(AgentArm::RepoIntelligence)
    } else {
        None
    }
}

/// A treatment arm's artifact directory name parses back to that arm, and
/// the baseline's and the search proxy's do not name a treatment.
pub proof fn lemma_treatment_arm_round_trip(arm: AgentArm)
    ensures
        (arm == AgentArm::Harness || arm == AgentArm::RepoIntelligence) ==> spec_parse_treatment_arm(
            arm.dir_label(),
        ) == Some(arm),
        (arm == AgentArm::Vanilla || arm == AgentArm::SearchProxy) ==> spec_parse_treatment_arm(
            arm.dir_label(),
        ) is None,
{
    reveal_strlit("harness");
    reveal_strlit("repo_intelligence");
    reveal_strlit("vanilla");
    reveal_strlit("search_proxy");
    assert("harness"@[0] != "repo_intelligence"@[0]);
    assert("vanilla"@[0] != "harness"@[0] && "vanilla"@[0] != "repo_intelligence"@[0]);
    assert("search_proxy"@[0] != "harness"@[0] && "search_proxy"@[0] != "repo_intelligence"@[0]);
}

/// The treatment arm a name selects; `None` for any other name.
pub fn parse_treatment_arm(name: &str) -> (r: Option<AgentArm>)
    ensures
        r == spec_parse_treatment_arm(name@),
{
    if crate::text::str_eq(name, "harness") {
        Some(AgentArm::Harness)
    } else if crate::text::str_eq(name, "repo_intelligence") {
        Some(AgentArm::RepoIntelligence)
    } else {
        None
    }
}

/// The treatment arm found among the first task's artifacts: repo
/// intelligence when its record exists, else harness when its record
/// exists.
pub fn detect_treatment_arm(repo_intelligence_present: bool, harness_present: bool) -> (r: Option<
    AgentArm,
>)
    ensures
        r == if repo_intelligence_present {
            Some(AgentArm::RepoIntelligence)
        } else if harness_present {
            Some(AgentArm::Harness)
        } else {
            None
        },
{
    if repo_intelligence_present {
        Some(AgentArm::RepoIntelligence)
    } else if harness_present {
        Some(AgentArm::Harness)
    } else {
        None
    }
}

/// `base` joined with `part` as a Unix path join does: an absolute `part`
/// replaces `base`, and a separator is added unless `base` is empty or
/// already ends with one.
pub open spec fn path_join(base: Seq<char>, part: Seq<char>) -> Seq<char> {
    if starts_with(part, "/"@) || base.len() == 0 {
        part
    } else if ends_with(base, "/"@) {
        base + part
    } else {
        base + "/"@ + part
    }
}

fn path_join_exec(base: &str, part: &str) -> (out: String)
    ensures
        out@ == path_join(base@, part@),
{
    let bc = crate::text::chars_of(base);
    if crate::text::str_starts_with(part, "/") || bc.len() == 0 {
        return part.to_owned();
    }
    let mut out = base.to_owned();
    if !crate::text::str_ends_with(base, "/") {
        crate::text::push_str(&mut out, "/");
    }
    crate::text::push_str(&mut out, part);
    out
}

/// Where the record of a task's arm lives.
pub open spec fn spec_record_path(dir: Seq<char>, task_id: Seq<char>, arm: AgentArm) -> Seq<char> {
    path_join(path_join(path_join(dir, task_id), arm.dir_label()), "record.json"@)
}

/// The path of the record of a task's arm under the artifacts directory.
pub fn artifact_record_path(artifacts_dir: &str, task_id: &str, arm: AgentArm) -> (p: String)
    ensures
        p@ == spec_record_path(artifacts_dir@, task_id@, arm),
{
    let a = path_join_exec(artifacts_dir, task_id);
    let b = path_join_exec(a.as_str(), arm.artifact_dir());
    path_join_exec(b.as_str(), "record.json")
}

/// The records an evaluation needs, in checking order: for each task the
/// baseline record, then the treatment record.
pub open spec fn spec_expected_artifacts(dir: Seq<char>, task_ids: Seq<Seq<char>>, arm: AgentArm) -> Seq<Seq<char>>
    decreases task_ids.len(),
{
    if task_ids.len() == 0 {
        Seq::empty()
    } else {
        spec_expected_artifacts(dir, task_ids.drop_last(), arm) + seq![
            spec_record_path(dir, task_ids.last(), AgentArm::Vanilla),
            spec_record_path(dir, task_ids.last(), arm),
        ]
    }
}

/// The records an evaluation needs, in checking order.
pub fn expected_artifacts(artifacts_dir: &str, task_ids: &[String], treatment_arm: AgentArm) -> (out: Vec<
    String,
>)
    ensures
        str_views(out@) == spec_expected_artifacts(artifacts_dir@, str_views(task_ids@), treatment_arm),
{
    let ghost tv = str_views(task_ids@);
    let mut out: Vec<String> = Vec::new();
    let mut i: usize = 0;
    assert(tv.take(0) =~= Seq::<Seq<char>>::empty());
    assert(str_views(out@) =~= Seq::<Seq<char>>::empty());
    while i < task_ids.len()
        invariant
            i <= task_ids@.len(),
            tv == str_views(task_ids@),
            str_views(out@) == spec_expected_artifacts(artifacts_dir@, tv.take(i as int), treatment_arm),
        decreases task_ids@.len() - i,
    {
        assert(tv.take(i + 1).drop_last() =~= tv.take(i as int));
        let ghost before = str_views(out@);
        let v = artifact_record_path(artifacts_dir, task_ids[i].as_str(), AgentArm::Vanilla);
        let t = artifact_record_path(artifacts_dir, task_ids[i].as_str(), treatment_arm);
        out.push(v);
        out.push(t);
        assert(str_views(out@) =~= before + seq![v@, t@]);
        i = i + 1;
    }
    assert(tv.take(task_ids@.len() as int) =~= tv);
    out
}

/// The message for a missing record.
pub open spec fn missing_message(path: Seq<char>) -> Seq<char> {
    "missing artifact: "@ + path
}

/// Checks that every expected record exists (`present[i]` tells whether
/// `expected[i]` does): `Ok` when all do, else the message for the first
/// that does not.
pub fn validate_artifacts_layout(expected: &[String], present: &[bool]) -> (r: Result<(), String>)
    requires
        expected@.len() == present@.len(),
    ensures
        r is Ok <==> forall|i: int| 0 <= i < present@.len() ==> #[trigger] present@[i],
        r matches Err(msg) ==> exists|i: int|
            0 <= i < present@.len() && !present@[i] && (forall|j: int| 0 <= j < i ==> #[trigger] present@[j])
                && msg@ == missing_message(expected@[i]@),
{
    let mut i: usize = 0;
    while i < expected.len()
        invariant
            expected@.len() == present@.len(),
            i <= expected@.len(),
            forall|j: int| 0 <= j < i ==> #[trigger] present@[j],
        decreases expected@.len() - i,
    {
        if !present[i] {
            let mut msg = "missing artifact: ".to_owned();
            crate::text::push_str(&mut msg, expected[i].as_str());
            return Err(msg);
        }
        i = i + 1;
    }
    Ok(())
}

} // verus!
