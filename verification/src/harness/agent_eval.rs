//! Scoring of paired agent runs (a baseline arm and a treatment arm) on the
//! same tasks: which target files each run touched, which arm did better on
//! the first dimension where they differ, the aggregate report and its
//! human-readable tables.
use vstd::prelude::*;

use crate::sorted::{
    filter_by_membership, insert_all_sorted, lemma_sorted_set_len, sorted_of, sorted_set_of,
    strictly_sorted,
};
use crate::text::{
    chars_of, clone_strings, contains, dec, push_dec, contains_exec, contains_piece, ends_with, ends_with_exec,
    eq_chars, find, find_exec, has_char, in_class_exec, is_ascii_digit, lemma_find_from,
    lemma_next_in_class, lemma_skip_class_bounds, lines, lines_exec, lower, lower_chars,
    next_in_class, next_in_class_exec, nonempty, push_str, replace_char, replace_char_exec,
    skip_class, split, split_exec, starts_with, starts_with_exec, str_trim, str_views,
    string_from, strip_prefix_all, strip_prefix_all_exec, sub_chars, trim, trim_end_class,
    trim_end_class_exec, trim_exec, trim_start, trim_start_class, trim_start_class_exec, views,
    CharClass,
};

verus! {

// ---------------------------------------------------------------------------
// Data
// ---------------------------------------------------------------------------

/// What aspect of repository guidance a task is meant to exercise; used for
/// report grouping only.
#[derive(Debug, Clone, Copy, PartialEq, Eq, PartialOrd, Ord)]
pub enum TaskCategory {
    /// Several files share a keyword; the right one must be found first.
    FileRouting,
    /// The owner concept needs a bridge file wired as well.
    BridgeWiring,
    /// A behaviour to verify; the matching test file is the target.
    TestTargeting,
    /// A convention that lives in one specific file.
    LocalConvention,
    /// Edits span two or more crates.
    CrossModuleOwnership,
}

impl TaskCategory {
    /// The snake-case name of the category.
    pub open spec fn label(self) -> Seq<char> {
        match self {
            TaskCategory::FileRouting => "file_routing"@,
            TaskCategory::BridgeWiring => "bridge_wiring"@,
            TaskCategory::TestTargeting => "test_targeting"@,
            TaskCategory::LocalConvention => "local_convention"@,
            TaskCategory::CrossModuleOwnership => "cross_module_ownership"@,
        }
    }

    /// The snake-case name of the category.
    pub fn slug(self) -> (s: &'static str)
        ensures
            s@ == self.label(),
    {
        match self {
            TaskCategory::FileRouting => "file_routing",
            TaskCategory::BridgeWiring => "bridge_wiring",
            TaskCategory::TestTargeting => "test_targeting",
            TaskCategory::LocalConvention => "local_convention",
            TaskCategory::CrossModuleOwnership => "cross_module_ownership",
        }
    }
}

/// Where a task's arms run.
#[derive(Debug, Clone, Copy, PartialEq, Eq)]
pub enum AgentEvalWorkdir {
    /// A fresh copy of the small calculator fixture.
    Calculator,
    /// The main source tree.
    CodexRs,
}

impl Default for AgentEvalWorkdir {
    fn default() -> (w: Self)
        ensures
            w == AgentEvalWorkdir::Calculator,
    {
        AgentEvalWorkdir::Calculator
    }
}

/// Which arm produced a run.
#[derive(Debug, Clone, Copy, PartialEq, Eq)]
pub enum AgentArm {
    Vanilla,
    Harness,
    RepoIntelligence,
    /// Treatment arm that answers searches with compact evidence.
    SearchProxy,
}

impl AgentArm {
    /// The arm's directory name among the run artifacts.
    pub open spec fn dir_label(self) -> Seq<char> {
        match self {
            AgentArm::Vanilla => "vanilla"@,
            AgentArm::Harness => "harness"@,
            AgentArm::RepoIntelligence => "repo_intelligence"@,
            AgentArm::SearchProxy => "search_proxy"@,
        }
    }

    /// The arm's directory name among the run artifacts.
    pub fn artifact_dir(self) -> (s: &'static str)
        ensures
            s@ == self.dir_label(),
    {
        match self {
            AgentArm::Vanilla => "vanilla",
            AgentArm::Harness => "harness",
            AgentArm::RepoIntelligence => "repo_intelligence",
            AgentArm::SearchProxy => "search_proxy",
        }
    }

    /// The arm's name in reports (the same as its directory name).
    pub fn display_label(self) -> (s: &'static str)
        ensures
            s@ == self.dir_label(),
    {
        self.artifact_dir()
    }
}

/// Why a run cannot be compared.
#[derive(Debug, Clone, Copy, PartialEq, Eq)]
pub enum AgentRunInvalidReason {
    ProviderUsageLimit,
    ProviderAuthError,
    ProviderNetworkError,
    TurnFailed,
    RunnerError,
    MissingEvents,
    UnknownFailure,
}

impl AgentRunInvalidReason {
    /// The snake-case name of the reason.
    pub open spec fn label(self) -> Seq<char> {
        match self {
            AgentRunInvalidReason::ProviderUsageLimit => "provider_usage_limit"@,
            AgentRunInvalidReason::ProviderAuthError => "provider_auth_error"@,
            AgentRunInvalidReason::ProviderNetworkError => "provider_network_error"@,
            AgentRunInvalidReason::TurnFailed => "turn_failed"@,
            AgentRunInvalidReason::RunnerError => "runner_error"@,
            AgentRunInvalidReason::MissingEvents => "missing_events"@,
            AgentRunInvalidReason::UnknownFailure => "unknown_failure"@,
        }
    }
}

pub(crate) fn invalid_reason_slug(reason: AgentRunInvalidReason) -> (s: &'static str)
    ensures
        s@ == reason.label(),
{
    match reason {
        AgentRunInvalidReason::ProviderUsageLimit => "provider_usage_limit",
        AgentRunInvalidReason::ProviderAuthError => "provider_auth_error",
        AgentRunInvalidReason::ProviderNetworkError => "provider_network_error",
        AgentRunInvalidReason::TurnFailed => "turn_failed",
        AgentRunInvalidReason::RunnerError => "runner_error",
        AgentRunInvalidReason::MissingEvents => "missing_events",
        AgentRunInvalidReason::UnknownFailure => "unknown_failure",
    }
}

/// Task fixture for paired agent evaluations.
#[derive(Debug, Clone)]
pub struct AgentEvalTask {
    pub id: String,
    pub task: String,
    /// Gold files the task is about.
    pub relevant_files: Vec<String>,
    pub relevant_tests: Vec<String>,
    pub danger_zones: Vec<String>,
    /// Shell command that must exit 0 for `tests_passed`.
    pub verify_command: Option<String>,
    /// Files that connect areas; scored as `bridge_files_touched`.
    pub bridge_files: Vec<String>,
    pub workdir: AgentEvalWorkdir,
    /// Report group; `None` renders under "uncategorized".
    pub category: Option<TaskCategory>,
    /// Whether the task naturally requires the model to verify its change.
    pub verification_required: Option<bool>,
}

/// Recorded outcome of one agent run.
#[derive(Debug, Clone, PartialEq)]
pub struct AgentRunRecord {
    pub arm: AgentArm,
    pub task_id: String,
    pub changed_files: Vec<String>,
    pub tests_passed: bool,
    pub turn_count: Option<u32>,
    pub exec_exit_code: Option<i32>,
    pub repo_intelligence_enabled: bool,
    pub harness_context_visible: bool,
    pub run_valid: bool,
    pub invalid_reason: Option<AgentRunInvalidReason>,
    pub tokens_input: Option<u64>,
    pub tokens_output: Option<u64>,
    pub tokens_total: Option<u64>,
    /// Wall-clock duration of the agent invocation in milliseconds.
    pub duration_ms: Option<u64>,
    /// One-time local index build shared by the batch, in milliseconds.
    pub harness_prewarm_ms: Option<u64>,
    /// Build profile of the agent binary ("release" or "debug").
    pub codex_build_profile: Option<String>,
    pub tool_call_count: Option<u32>,
    pub shell_command_count: Option<u32>,
    pub file_read_count: Option<u32>,
    pub discover_command_count: Option<u32>,
    pub edit_command_count: Option<u32>,
    pub verify_command_count: Option<u32>,
    /// Non-fatal observations that do not invalidate the run.
    pub warnings: Vec<String>,
    /// Paths the directive listed as likely edit targets.
    pub ri_surfaced_edit_targets: Vec<String>,
    /// Paths the directive listed as orientation only.
    pub ri_surfaced_orientation: Vec<String>,
    /// Paths the model intentionally edited (structured file changes).
    pub intent_changed_files: Vec<String>,
    /// Raw diff plus untracked files, kept for diagnosis.
    pub diff_changed_files: Vec<String>,
    /// `diff_changed_files` minus `intent_changed_files`.
    pub formatter_changed_files: Vec<String>,
    pub worktree_isolated: bool,
    pub base_ref: Option<String>,
    pub worktree_path: Option<String>,
    pub search_proxy_enabled: bool,
    pub search_proxy_substitutions: u32,
    pub search_proxy_escape_hatch_repeats: u32,
    pub search_proxy_build_pass_throughs: u32,
    pub search_proxy_compact_bytes: u64,
    pub search_proxy_raw_bytes_estimated: u64,
    pub search_proxy_top_files: Vec<String>,
}

/// Per-run scores for one arm.
#[derive(Debug, Clone, PartialEq)]
pub struct AgentRunScore {
    /// Some gold path was touched.
    pub correct_file_touched: bool,
    /// Distinct paths of gold ∪ bridge that were touched.
    pub target_files_hit: usize,
    /// Size of gold ∪ bridge.
    pub target_files_total: usize,
    pub tests_passed: bool,
    pub turn_count: Option<u32>,
    /// Touched paths outside the gold set, sorted.
    pub unnecessary_files_changed: Vec<String>,
    pub harness_context_visible: bool,
    /// Touched bridge paths, sorted.
    pub bridge_files_touched: Vec<String>,
    pub run_valid: bool,
    pub invalid_reason: Option<AgentRunInvalidReason>,
    pub tokens_input: Option<u64>,
    pub tokens_output: Option<u64>,
    pub tokens_total: Option<u64>,
    pub duration_ms: Option<u64>,
    pub tool_call_count: Option<u32>,
    pub shell_command_count: Option<u32>,
    pub file_read_count: Option<u32>,
    pub discover_command_count: Option<u32>,
    pub edit_command_count: Option<u32>,
    pub verify_command_count: Option<u32>,
    pub warnings: Vec<String>,
    /// Gold paths that were touched.
    pub edit_target_files_hit: usize,
    /// Size of the gold set.
    pub edit_target_files_total: usize,
    /// Touched paths of (bridge ∪ surfaced orientation) − gold.
    pub orientation_files_touched: usize,
    /// Size of (bridge ∪ surfaced orientation) − gold.
    pub orientation_files_total: usize,
}

// ---------------------------------------------------------------------------
// Path normalization and noise
// ---------------------------------------------------------------------------

/// A repository-relative path in the form that diffs print: trimmed, with
/// `/` separators, without leading `./` and without everything up to a
/// `codex-rs/` component.
pub open spec fn spec_normalize_path(path: Seq<char>) -> Seq<char> {
    let p = replace_char(trim(path), '\\', '/');
    if p.len() == 0 {
        Seq::empty()
    } else {
        let q = strip_prefix_all(p, "./"@);
        let idx = find(q, "/codex-rs/"@);
        if idx >= 0 {
            q.skip(idx + 10)
        } else {
            strip_prefix_all(q, "codex-rs/"@)
        }
    }
}

/// Normalizes a repository-relative path so fixture labels match diff output.
pub fn normalize_agent_eval_path(path: &str) -> (out: String)
    ensures
        out@ == spec_normalize_path(path@),
{
    let t = str_trim(path);
    let p = replace_char_exec(t.as_slice(), '\\', '/');
    if p.len() == 0 {
        return String::new();
    }
    let dot = chars_of("./");
    let q = strip_prefix_all_exec(p.as_slice(), dot.as_slice());
    let marker = chars_of("/codex-rs/");
    proof {
        reveal_strlit("/codex-rs/");
    }
    match find_exec(q.as_slice(), marker.as_slice()) {
        Some(idx) => {
            proof {
                lemma_find_from(q@, marker@, 0);
            }
            let ql: usize = q.len();
            assert(marker@.len() == 10);
            assert(idx + 10 <= ql);
            let rest = sub_chars(q.as_slice(), idx + 10, ql);
            assert(rest@ =~= q@.skip(idx + 10));
            string_from(rest.as_slice())
        },
        None => {
            let prefix = chars_of("codex-rs/");
            let rest = strip_prefix_all_exec(q.as_slice(), prefix.as_slice());
            string_from(rest.as_slice())
        },
    }
}

/// Paths left behind by test runs rather than by edits: empty, `.pyc`, or
/// inside a `__pycache__` or `.pytest_cache` directory.
pub open spec fn spec_is_noise_path(path: Seq<char>) -> bool {
    let t = trim(path);
    t.len() == 0 || ends_with(t, ".pyc"@) || split(t, CharClass::Is('/')).contains(
        "__pycache__"@,
    ) || split(t, CharClass::Is('/')).contains(".pytest_cache"@)
}

/// Whether a changed path is a side effect of running tests.
pub fn is_agent_eval_noise_path(path: &str) -> (r: bool)
    ensures
        r == spec_is_noise_path(path@),
{
    let t = str_trim(path);
    if t.len() == 0 {
        return true;
    }
    let pyc = chars_of(".pyc");
    if ends_with_exec(t.as_slice(), pyc.as_slice()) {
        return true;
    }
    let segments = split_exec(t.as_slice(), CharClass::Is('/'));
    let cache = chars_of("__pycache__");
    let pytest = chars_of(".pytest_cache");
    contains_piece(&segments, cache.as_slice()) || contains_piece(&segments, pytest.as_slice())
}

/// The predicate "is a path that counts for scoring".
pub open spec fn scoring_kept() -> spec_fn(Seq<char>) -> bool {
    |p: Seq<char>| !spec_is_noise_path(p)
}

/// Drops test-run side effects from a list of changed paths, keeping order.
pub fn filter_scoring_changed_files(paths: &[String]) -> (out: Vec<String>)
    ensures
        str_views(out@) == str_views(paths@).filter(scoring_kept()),
{
    let ghost pv = str_views(paths@);
    let mut out: Vec<String> = Vec::new();
    let mut i: usize = 0;
    assert(pv.take(0).filter(scoring_kept()) =~= Seq::<Seq<char>>::empty()) by {
        reveal(Seq::filter);
    }
    assert(str_views(out@) =~= Seq::<Seq<char>>::empty());
    while i < paths.len()
        invariant
            i <= paths@.len(),
            pv == str_views(paths@),
            str_views(out@) == pv.take(i as int).filter(scoring_kept()),
        decreases paths@.len() - i,
    {
        let ghost before = str_views(out@);
        assert(pv.take(i + 1) =~= pv.take(i as int).push(pv[i as int]));
        proof {
            pv.take(i as int).lemma_filter_push(pv[i as int], scoring_kept());
        }
        if !is_agent_eval_noise_path(paths[i].as_str()) {
            out.push(paths[i].clone());
            assert(str_views(out@) =~= before.push(pv[i as int]));
        }
        i = i + 1;
    }
    assert(pv.take(paths@.len() as int) =~= pv);
    out
}

/// The normalized, non-empty forms of `paths`, in order.
pub open spec fn normalized_nonempty(paths: Seq<Seq<char>>) -> Seq<Seq<char>> {
    paths.map_values(|p: Seq<char>| spec_normalize_path(p)).filter(nonempty())
}

fn normalize_nonempty(paths: &Vec<String>) -> (out: Vec<String>)
    ensures
        str_views(out@) == normalized_nonempty(str_views(paths@)),
{
    let ghost pv = str_views(paths@);
    let ghost f = |p: Seq<char>| spec_normalize_path(p);
    let mut out: Vec<String> = Vec::new();
    let mut i: usize = 0;
    assert(pv.take(0).map_values(f).filter(nonempty()) =~= Seq::<Seq<char>>::empty()) by {
        reveal(Seq::filter);
    }
    assert(str_views(out@) =~= Seq::<Seq<char>>::empty());
    while i < paths.len()
        invariant
            i <= paths@.len(),
            pv == str_views(paths@),
            f == (|p: Seq<char>| spec_normalize_path(p)),
            str_views(out@) == pv.take(i as int).map_values(f).filter(nonempty()),
        decreases paths@.len() - i,
    {
        let ghost before = str_views(out@);
        let n = normalize_agent_eval_path(paths[i].as_str());
        assert(pv.take(i + 1).map_values(f) =~= pv.take(i as int).map_values(f).push(n@));
        proof {
            pv.take(i as int).map_values(f).lemma_filter_push(n@, nonempty());
        }
        if !n.as_str().is_empty() {
            out.push(n);
            assert(str_views(out@) =~= before.push(pv.take(i + 1).map_values(f).last()));
        }
        i = i + 1;
    }
    assert(pv.take(paths@.len() as int) =~= pv);
    out
}

/// A fixture task as loaded: an empty id becomes `task_<index>`, and the
/// gold, bridge and danger-zone paths are normalized with empty ones
/// dropped; everything else is kept.
pub open spec fn is_prepared_task(r: AgentEvalTask, t: AgentEvalTask, index: nat) -> bool {
    &&& r.id@ == if t.id@.len() == 0 {
        "task_"@ + dec(index)
    } else {
        t.id@
    }
    &&& r.task@ == t.task@
    &&& str_views(r.relevant_files@) == normalized_nonempty(str_views(t.relevant_files@))
    &&& str_views(r.bridge_files@) == normalized_nonempty(str_views(t.bridge_files@))
    &&& str_views(r.danger_zones@) == normalized_nonempty(str_views(t.danger_zones@))
    &&& str_views(r.relevant_tests@) == str_views(t.relevant_tests@)
    &&& opt_view(r.verify_command) == opt_view(t.verify_command)
    &&& r.workdir == t.workdir
    &&& r.category == t.category
    &&& r.verification_required == t.verification_required
}

/// Prepares the fixture task at position `index`.
pub fn prepare_agent_eval_task(task: AgentEvalTask, index: usize) -> (r: AgentEvalTask)
    ensures
        is_prepared_task(r, task, index as nat),
{
    let ghost t = task;
    let id = if task.id.as_str().is_empty() {
        let mut id = "task_".to_owned();
        push_dec(&mut id, index as u64);
        id
    } else {
        task.id
    };
    let relevant_files = normalize_nonempty(&task.relevant_files);
    let bridge_files = normalize_nonempty(&task.bridge_files);
    let danger_zones = normalize_nonempty(&task.danger_zones);
    AgentEvalTask {
        id,
        task: task.task,
        relevant_files,
        relevant_tests: task.relevant_tests,
        danger_zones,
        verify_command: task.verify_command,
        bridge_files,
        workdir: task.workdir,
        category: task.category,
        verification_required: task.verification_required,
    }
}

/// Prepares freshly parsed fixture tasks (see [`is_prepared_task`]).
pub fn prepare_agent_eval_tasks(tasks: Vec<AgentEvalTask>) -> (r: Vec<AgentEvalTask>)
    ensures
        r@.len() == tasks@.len(),
        forall|i: int| 0 <= i < tasks@.len() ==> is_prepared_task(#[trigger] r@[i], tasks@[i], i as nat),
{
    let ghost orig = tasks@;
    let n: usize = tasks.len();
    let mut rest = tasks;
    let mut out: Vec<AgentEvalTask> = Vec::new();
    let mut i: usize = 0;
    while rest.len() > 0
        invariant
            out@.len() == i,
            i + rest@.len() == orig.len(),
            orig.len() == n,
            rest@ == orig.skip(i as int),
            forall|j: int| 0 <= j < i ==> is_prepared_task(#[trigger] out@[j], orig[j], j as nat),
        decreases rest@.len(),
    {
        let t = rest.remove(0);
        assert(t == orig[i as int]);
        out.push(prepare_agent_eval_task(t, i));
        assert(rest@ =~= orig.skip(i + 1));
        i = i + 1;
    }
    out
}

/// Trimmed non-empty lines of `s`, in order.
pub open spec fn trimmed_lines(s: Seq<char>) -> Seq<Seq<char>> {
    lines(s).map_values(|l: Seq<char>| trim(l)).filter(nonempty())
}

/// Changed paths from `git diff --name-only` output.
pub fn changed_files_from_git_diff(diff_output: &str) -> (out: Vec<String>)
    ensures
        str_views(out@) == trimmed_lines(diff_output@),
{
    let text = chars_of(diff_output);
    let ls = lines_exec(text.as_slice());
    let ghost lv = views(ls@);
    let ghost f = |l: Seq<char>| trim(l);
    let mut out: Vec<String> = Vec::new();
    let mut i: usize = 0;
    assert(lv.take(0).map_values(f).filter(nonempty()) =~= Seq::<Seq<char>>::empty()) by {
        reveal(Seq::filter);
    }
    assert(str_views(out@) =~= Seq::<Seq<char>>::empty());
    while i < ls.len()
        invariant
            i <= ls@.len(),
            lv == views(ls@),
            lv == lines(diff_output@),
            f == (|l: Seq<char>| trim(l)),
            str_views(out@) == lv.take(i as int).map_values(f).filter(nonempty()),
        decreases ls@.len() - i,
    {
        let ghost before = str_views(out@);
        let t = trim_exec(ls[i].as_slice());
        assert(lv.take(i + 1).map_values(f) =~= lv.take(i as int).map_values(f).push(t@));
        proof {
            lv.take(i as int).map_values(f).lemma_filter_push(t@, nonempty());
        }
        if t.len() > 0 {
            out.push(string_from(t.as_slice()));
            assert(str_views(out@) =~= before.push(t@));
        }
        i = i + 1;
    }
    assert(lv.take(ls@.len() as int) =~= lv);
    out
}


// ---------------------------------------------------------------------------
// Scoring one run
// ---------------------------------------------------------------------------

/// The paths a run is scored on: the intended edits when recorded, else the
/// raw changed files.
pub open spec fn changed_source(record: AgentRunRecord) -> Seq<Seq<char>> {
    if record.intent_changed_files@.len() == 0 {
        str_views(record.changed_files@)
    } else {
        str_views(record.intent_changed_files@)
    }
}

/// The set of normalized scoring paths a run touched.
pub open spec fn changed_set(record: AgentRunRecord) -> Set<Seq<char>> {
    normalized_nonempty(changed_source(record).filter(scoring_kept())).to_set()
}

/// The task's gold files.
pub open spec fn gold_set(task: AgentEvalTask) -> Set<Seq<char>> {
    str_views(task.relevant_files@).to_set()
}

/// The task's bridge files.
pub open spec fn bridge_set(task: AgentEvalTask) -> Set<Seq<char>> {
    str_views(task.bridge_files@).to_set()
}

/// Bridge files and the paths the directive labelled orientation-only,
/// without the gold files.
pub open spec fn orientation_set(record: AgentRunRecord, task: AgentEvalTask) -> Set<Seq<char>> {
    bridge_set(task).union(normalized_nonempty(str_views(record.ri_surfaced_orientation@)).to_set()).difference(
        gold_set(task),
    )
}

/// `s` is the score of `record` against `task`.
pub open spec fn is_score_of(s: AgentRunScore, record: AgentRunRecord, task: AgentEvalTask) -> bool {
    let gold = gold_set(task);
    let bridge = bridge_set(task);
    let changed = changed_set(record);
    let orient = orientation_set(record, task);
    &&& s.correct_file_touched == (exists|x: Seq<char>| #[trigger] gold.contains(x) && changed.contains(x))
    &&& s.target_files_hit == gold.union(bridge).intersect(changed).len()
    &&& s.target_files_total == gold.union(bridge).len()
    &&& s.tests_passed == (record.tests_passed && record.run_valid)
    &&& s.turn_count == record.turn_count
    &&& sorted_set_of(str_views(s.unnecessary_files_changed@), changed.difference(gold))
    &&& s.harness_context_visible == record.harness_context_visible
    &&& sorted_set_of(str_views(s.bridge_files_touched@), bridge.intersect(changed))
    &&& s.run_valid == record.run_valid
    &&& s.invalid_reason == record.invalid_reason
    &&& s.tokens_input == record.tokens_input
    &&& s.tokens_output == record.tokens_output
    &&& s.tokens_total == record.tokens_total
    &&& s.duration_ms == record.duration_ms
    &&& s.tool_call_count == record.tool_call_count
    &&& s.shell_command_count == record.shell_command_count
    &&& s.file_read_count == record.file_read_count
    &&& s.discover_command_count == record.discover_command_count
    &&& s.edit_command_count == record.edit_command_count
    &&& s.verify_command_count == record.verify_command_count
    &&& str_views(s.warnings@) == str_views(record.warnings@)
    &&& s.edit_target_files_hit == gold.intersect(changed).len()
    &&& s.edit_target_files_total == gold.len()
    &&& s.orientation_files_touched == orient.intersect(changed).len()
    &&& s.orientation_files_total == orient.len()
}

/// Scores one run against the task's gold and bridge files.
pub fn score_run(record: &AgentRunRecord, task: &AgentEvalTask) -> (s: AgentRunScore)
    ensures
        is_score_of(s, *record, *task),
{
    let ghost gold = gold_set(*task);
    let ghost bridge = bridge_set(*task);
    let gold_v = sorted_of(&task.relevant_files);
    let bridge_v = sorted_of(&task.bridge_files);
    let mut target_v = sorted_of(&task.relevant_files);
    insert_all_sorted(&mut target_v, &task.bridge_files);
    let source = if record.intent_changed_files.len() == 0 {
        &record.changed_files
    } else {
        &record.intent_changed_files
    };
    assert(str_views(source@) == changed_source(*record));
    let kept = filter_scoring_changed_files(source.as_slice());
    let normed = normalize_nonempty(&kept);
    let changed_v = sorted_of(&normed);
    let ghost changed = changed_set(*record);
    assert(str_views(changed_v@).to_set() == changed);
    let gold_hit = filter_by_membership(&gold_v, &changed_v, true);
    let target_hit = filter_by_membership(&target_v, &changed_v, true);
    let unnecessary = filter_by_membership(&changed_v, &gold_v, false);
    let bridge_touched = filter_by_membership(&bridge_v, &changed_v, true);
    let ri = normalize_nonempty(&record.ri_surfaced_orientation);
    let mut orient_union = sorted_of(&task.bridge_files);
    insert_all_sorted(&mut orient_union, &ri);
    let orientation = filter_by_membership(&orient_union, &gold_v, false);
    let orient_hit = filter_by_membership(&orientation, &changed_v, true);
    proof {
        lemma_sorted_set_len(str_views(gold_hit@), gold.intersect(changed));
        lemma_sorted_set_len(str_views(target_hit@), gold.union(bridge).intersect(changed));
        lemma_sorted_set_len(str_views(target_v@), gold.union(bridge));
        lemma_sorted_set_len(str_views(gold_v@), gold);
        lemma_sorted_set_len(str_views(orientation@), orientation_set(*record, *task));
        lemma_sorted_set_len(
            str_views(orient_hit@),
            orientation_set(*record, *task).intersect(changed),
        );
    }
    let correct = gold_hit.len() > 0;
    proof {
        let gh = str_views(gold_hit@);
        if correct {
            assert(gh.to_set().contains(gh[0]));
            assert(gold.contains(gh[0]) && changed.contains(gh[0]));
        }
        if exists|x: Seq<char>| #[trigger] gold.contains(x) && changed.contains(x) {
            let x = choose|x: Seq<char>| #[trigger] gold.contains(x) && changed.contains(x);
            assert(gh.to_set().contains(x));
            assert(gh.len() > 0);
        }
    }
    AgentRunScore {
        correct_file_touched: correct,
        target_files_hit: target_hit.len(),
        target_files_total: target_v.len(),
        tests_passed: record.tests_passed && record.run_valid,
        turn_count: record.turn_count,
        unnecessary_files_changed: unnecessary,
        harness_context_visible: record.harness_context_visible,
        bridge_files_touched: bridge_touched,
        run_valid: record.run_valid,
        invalid_reason: record.invalid_reason,
        tokens_input: record.tokens_input,
        tokens_output: record.tokens_output,
        tokens_total: record.tokens_total,
        duration_ms: record.duration_ms,
        tool_call_count: record.tool_call_count,
        shell_command_count: record.shell_command_count,
        file_read_count: record.file_read_count,
        discover_command_count: record.discover_command_count,
        edit_command_count: record.edit_command_count,
        verify_command_count: record.verify_command_count,
        warnings: clone_strings(&record.warnings),
        edit_target_files_hit: gold_hit.len(),
        edit_target_files_total: gold_v.len(),
        orientation_files_touched: orient_hit.len(),
        orientation_files_total: orientation.len(),
    }
}


// ---------------------------------------------------------------------------
// Comparing a pair of runs
// ---------------------------------------------------------------------------

/// The first dimension on which two runs differ, in priority order
/// file targeting, extra files, turns, wall clock, tokens.
#[derive(Debug, Clone, Copy, PartialEq, Eq)]
pub enum ResultReason {
    FileTargeting,
    FewerExtraFiles,
    FewerTurns,
    FasterWallClock,
    FewerTokens,
}

impl ResultReason {
    /// The snake-case name of the dimension.
    pub open spec fn label(self) -> Seq<char> {
        match self {
            ResultReason::FileTargeting => "file_targeting"@,
            ResultReason::FewerExtraFiles => "fewer_extra_files"@,
            ResultReason::FewerTurns => "fewer_turns"@,
            ResultReason::FasterWallClock => "faster_wall_clock"@,
            ResultReason::FewerTokens => "fewer_tokens"@,
        }
    }

    /// The snake-case name of the dimension.
    pub fn slug(self) -> (s: &'static str)
        ensures
            s@ == self.label(),
    {
        match self {
            ResultReason::FileTargeting => "file_targeting",
            ResultReason::FewerExtraFiles => "fewer_extra_files",
            ResultReason::FewerTurns => "fewer_turns",
            ResultReason::FasterWallClock => "faster_wall_clock",
            ResultReason::FewerTokens => "fewer_tokens",
        }
    }
}

/// Comparison verdict for a (baseline, treatment) pair on one task.
#[derive(Debug, Clone, PartialEq, Eq)]
pub enum AgentEvalResult {
    /// The treatment improved on the baseline on the named dimension.
    RiBetter { reason: ResultReason },
    /// The treatment regressed on the named dimension.
    RiWorse { reason: ResultReason },
    /// All dimensions tied.
    Tie,
    /// The pair was not compared.
    Excluded { reason: String },
}

impl AgentEvalResult {
    /// The label of the verdict, e.g. `ri_better:file_targeting`.
    pub open spec fn label(self) -> Seq<char> {
        match self {
            AgentEvalResult::RiBetter { reason } => "ri_better:"@ + reason.label(),
            AgentEvalResult::RiWorse { reason } => "ri_worse:"@ + reason.label(),
            AgentEvalResult::Tie => "tie"@,
            AgentEvalResult::Excluded { reason } => "excluded:"@ + reason@,
        }
    }

    /// The label of the verdict, e.g. `ri_better:file_targeting`.
    pub fn slug(&self) -> (s: String)
        ensures
            s@ == self.label(),
    {
        let mut out = String::new();
        match self {
            AgentEvalResult::RiBetter { reason } => {
                push_str(&mut out, "ri_better:");
                push_str(&mut out, reason.slug());
            },
            AgentEvalResult::RiWorse { reason } => {
                push_str(&mut out, "ri_worse:");
                push_str(&mut out, reason.slug());
            },
            AgentEvalResult::Tie => {
                push_str(&mut out, "tie");
            },
            AgentEvalResult::Excluded { reason } => {
                push_str(&mut out, "excluded:");
                push_str(&mut out, reason.as_str());
            },
        }
        out
    }
}

/// Which arm did better, and on which dimension: `Some((true, r))` when the
/// treatment is better on `r`, `Some((false, r))` when it is worse, `None`
/// when every dimension ties. Turns, wall clock and tokens are compared
/// only when both runs recorded them.
pub open spec fn verdict(vanilla: AgentRunScore, treatment: AgentRunScore) -> Option<(bool, ResultReason)> {
    let v_extra = vanilla.unnecessary_files_changed@.len();
    let t_extra = treatment.unnecessary_files_changed@.len();
    if treatment.target_files_hit > vanilla.target_files_hit {
        Some((true, ResultReason::FileTargeting))
    } else if treatment.target_files_hit < vanilla.target_files_hit {
        Some((false, ResultReason::FileTargeting))
    } else if t_extra < v_extra {
        Some((true, ResultReason::FewerExtraFiles))
    } else if t_extra > v_extra {
        Some((false, ResultReason::FewerExtraFiles))
    } else if vanilla.turn_count is Some && treatment.turn_count is Some
        && vanilla.turn_count->0 != treatment.turn_count->0 {
        Some((treatment.turn_count->0 < vanilla.turn_count->0, ResultReason::FewerTurns))
    } else if vanilla.duration_ms is Some && treatment.duration_ms is Some
        && vanilla.duration_ms->0 != treatment.duration_ms->0 {
        Some((treatment.duration_ms->0 < vanilla.duration_ms->0, ResultReason::FasterWallClock))
    } else if vanilla.tokens_total is Some && treatment.tokens_total is Some
        && vanilla.tokens_total->0 != treatment.tokens_total->0 {
        Some((treatment.tokens_total->0 < vanilla.tokens_total->0, ResultReason::FewerTokens))
    } else {
        None
    }
}

/// `r` is the verdict on the pair, given whether it may be compared and the
/// reason it may not.
pub open spec fn is_result_of(
    r: AgentEvalResult,
    vanilla: AgentRunScore,
    treatment: AgentRunScore,
    valid_for_comparison: bool,
    excluded_reason: Option<Seq<char>>,
) -> bool {
    if !valid_for_comparison {
        r matches AgentEvalResult::Excluded { reason } && reason@ == match excluded_reason {
            Some(x) => x,
            None => "invalid"@,
        }
    } else {
        match verdict(vanilla, treatment) {
            Some((true, reason)) => r == AgentEvalResult::RiBetter { reason },
            Some((false, reason)) => r == AgentEvalResult::RiWorse { reason },
            None => r == AgentEvalResult::Tie,
        }
    }
}

/// Swapping the two arms turns "better" into "worse" on the same dimension
/// and leaves a tie a tie; a run compared with itself ties.
pub proof fn lemma_verdict_swap(a: AgentRunScore, b: AgentRunScore)
    ensures
        verdict(b, a) == match verdict(a, b) {
            Some((better, reason)) => Some((!better, reason)),
            None => None::<(bool, ResultReason)>,
        },
        verdict(a, a) is None,
{
}

/// Correctness comes first: whenever the treatment touched more (fewer)
/// target files, it is better (worse) on file targeting, whatever its
/// cost in turns, time or tokens.
pub proof fn lemma_targeting_dominates(a: AgentRunScore, b: AgentRunScore)
    requires
        a.target_files_hit != b.target_files_hit,
    ensures
        verdict(a, b) == Some((b.target_files_hit > a.target_files_hit, ResultReason::FileTargeting)),
{
}

/// Decides the verdict for a pair in priority order.
pub fn classify_result(
    vanilla: &AgentRunScore,
    treatment: &AgentRunScore,
    valid_for_comparison: bool,
    excluded_reason: Option<&str>,
) -> (r: AgentEvalResult)
    ensures
        is_result_of(
            r,
            *vanilla,
            *treatment,
            valid_for_comparison,
            match excluded_reason {
                Some(x) => Some(x@),
                None => None,
            },
        ),
{
    if !valid_for_comparison {
        let reason = match excluded_reason {
            Some(x) => x.to_owned(),
            None => "invalid".to_owned(),
        };
        return AgentEvalResult::Excluded { reason };
    }
    if treatment.target_files_hit > vanilla.target_files_hit {
        return AgentEvalResult::RiBetter { reason: ResultReason::FileTargeting };
    }
    if treatment.target_files_hit < vanilla.target_files_hit {
        return AgentEvalResult::RiWorse { reason: ResultReason::FileTargeting };
    }
    let v_extra = vanilla.unnecessary_files_changed.len();
    let t_extra = treatment.unnecessary_files_changed.len();
    if t_extra < v_extra {
        return AgentEvalResult::RiBetter { reason: ResultReason::FewerExtraFiles };
    }
    if t_extra > v_extra {
        return AgentEvalResult::RiWorse { reason: ResultReason::FewerExtraFiles };
    }
    if let (Some(vt), Some(tt)) = (vanilla.turn_count, treatment.turn_count) {
        if tt < vt {
            return AgentEvalResult::RiBetter { reason: ResultReason::FewerTurns };
        }
        if tt > vt {
            return AgentEvalResult::RiWorse { reason: ResultReason::FewerTurns };
        }
    }
    if let (Some(vd), Some(td)) = (vanilla.duration_ms, treatment.duration_ms) {
        if td < vd {
            return AgentEvalResult::RiBetter { reason: ResultReason::FasterWallClock };
        }
        if td > vd {
            return AgentEvalResult::RiWorse { reason: ResultReason::FasterWallClock };
        }
    }
    if let (Some(vt), Some(tt)) = (vanilla.tokens_total, treatment.tokens_total) {
        if tt < vt {
            return AgentEvalResult::RiBetter { reason: ResultReason::FewerTokens };
        }
        if tt > vt {
            return AgentEvalResult::RiWorse { reason: ResultReason::FewerTokens };
        }
    }
    AgentEvalResult::Tie
}

/// The label of an optional invalid reason, `invalid` when absent.
pub open spec fn reason_or_invalid(r: Option<AgentRunInvalidReason>) -> Seq<char> {
    match r {
        Some(x) => x.label(),
        None => "invalid"@,
    }
}

/// Why a pair is excluded: `None` when both runs are valid, else
/// `pair_invalid:<baseline reason>|<treatment reason>`.
pub open spec fn spec_pair_excluded_reason(vanilla: AgentRunRecord, treatment: AgentRunRecord) -> Option<Seq<char>> {
    if vanilla.run_valid && treatment.run_valid {
        None
    } else {
        Some("pair_invalid:"@ + reason_or_invalid(vanilla.invalid_reason) + "|"@ + reason_or_invalid(
            treatment.invalid_reason,
        ))
    }
}

fn reason_or_invalid_exec(r: Option<AgentRunInvalidReason>) -> (s: &'static str)
    ensures
        s@ == reason_or_invalid(r),
{
    match r {
        Some(x) => invalid_reason_slug(x),
        None => "invalid",
    }
}

fn pair_excluded_reason(vanilla: &AgentRunRecord, treatment: &AgentRunRecord) -> (r: Option<String>)
    ensures
        match r {
            Some(s) => spec_pair_excluded_reason(*vanilla, *treatment) == Some(s@),
            None => spec_pair_excluded_reason(*vanilla, *treatment) is None,
        },
{
    if vanilla.run_valid && treatment.run_valid {
        return None;
    }
    let mut out = String::new();
    push_str(&mut out, "pair_invalid:");
    push_str(&mut out, reason_or_invalid_exec(vanilla.invalid_reason));
    push_str(&mut out, "|");
    push_str(&mut out, reason_or_invalid_exec(treatment.invalid_reason));
    Some(out)
}

/// One compared task.
#[derive(Debug, Clone, PartialEq)]
pub struct AgentEvalComparison {
    pub task_id: String,
    pub task: String,
    pub vanilla: AgentRunScore,
    pub treatment: AgentRunScore,
    pub treatment_arm: AgentArm,
    pub valid_for_comparison: bool,
    pub excluded_reason: Option<String>,
    pub result: AgentEvalResult,
    pub category: Option<TaskCategory>,
}

/// The view of an optional string.
pub open spec fn opt_view(s: Option<String>) -> Option<Seq<char>> {
    match s {
        Some(x) => Some(x@),
        None => None,
    }
}

/// Scores both runs of a task and classifies the pair.
pub fn compare_task(task: &AgentEvalTask, vanilla: &AgentRunRecord, treatment: &AgentRunRecord) -> (c: AgentEvalComparison)
    ensures
        c.task_id@ == task.id@,
        c.task@ == task.task@,
        is_score_of(c.vanilla, *vanilla, *task),
        is_score_of(c.treatment, *treatment, *task),
        c.treatment_arm == treatment.arm,
        opt_view(c.excluded_reason) == spec_pair_excluded_reason(*vanilla, *treatment),
        c.valid_for_comparison == (vanilla.run_valid && treatment.run_valid),
        is_result_of(
            c.result,
            c.vanilla,
            c.treatment,
            c.valid_for_comparison,
            opt_view(c.excluded_reason),
        ),
        c.category == task.category,
{
    let excluded_reason = pair_excluded_reason(vanilla, treatment);
    let valid_for_comparison = excluded_reason.is_none();
    let vanilla_score = score_run(vanilla, task);
    let treatment_score = score_run(treatment, task);
    let result = match &excluded_reason {
        Some(r) => classify_result(&vanilla_score, &treatment_score, valid_for_comparison, Some(r.as_str())),
        None => classify_result(&vanilla_score, &treatment_score, valid_for_comparison, None),
    };
    AgentEvalComparison {
        task_id: task.id.clone(),
        task: task.task.clone(),
        vanilla: vanilla_score,
        treatment: treatment_score,
        treatment_arm: treatment.arm,
        valid_for_comparison,
        excluded_reason,
        result,
        category: task.category,
    }
}


// ---------------------------------------------------------------------------
// The report
// ---------------------------------------------------------------------------

/// Totals over all pairs.
#[derive(Debug, Clone, PartialEq)]
pub struct AgentEvalSummary {
    pub total_pairs: usize,
    pub valid_pairs: usize,
    pub invalid_pairs: usize,
    /// How often each exclusion reason occurred, ordered by reason.
    pub invalid_reason_counts: Vec<(String, usize)>,
}

/// All compared pairs with their totals.
#[derive(Debug, Clone, PartialEq)]
pub struct AgentEvalReport {
    pub comparisons: Vec<AgentEvalComparison>,
    pub summary: AgentEvalSummary,
}

/// Number of pairs that were not valid for comparison.
pub open spec fn invalid_count(rows: Seq<AgentEvalComparison>) -> nat
    decreases rows.len(),
{
    if rows.len() == 0 {
        0
    } else {
        invalid_count(rows.drop_last()) + if rows.last().valid_for_comparison {
            0nat
        } else {
            1nat
        }
    }
}

/// Whether a pair is invalid and excluded for the reason `k`.
pub open spec fn excluded_for(row: AgentEvalComparison, k: Seq<char>) -> bool {
    !row.valid_for_comparison && opt_view(row.excluded_reason) == Some(k)
}

/// Number of invalid pairs excluded for the reason `k`.
pub open spec fn reason_count(rows: Seq<AgentEvalComparison>, k: Seq<char>) -> nat
    decreases rows.len(),
{
    if rows.len() == 0 {
        0
    } else {
        reason_count(rows.drop_last(), k) + if excluded_for(rows.last(), k) {
            1nat
        } else {
            0nat
        }
    }
}

/// The exclusion reasons of the invalid pairs, in order, repeats kept.
pub open spec fn invalid_reasons(rows: Seq<AgentEvalComparison>) -> Seq<Seq<char>>
    decreases rows.len(),
{
    if rows.len() == 0 {
        Seq::empty()
    } else {
        let last = rows.last();
        invalid_reasons(rows.drop_last()) + if !last.valid_for_comparison
            && last.excluded_reason is Some {
            seq![last.excluded_reason->0@]
        } else {
            Seq::empty()
        }
    }
}

/// The keys of a reason table.
pub open spec fn count_keys(v: Seq<(String, usize)>) -> Seq<Seq<char>> {
    v.map_values(|e: (String, usize)| e.0@)
}

/// `v` lists every exclusion reason of `rows` once, in increasing order,
/// with the number of pairs excluded for it.
pub open spec fn is_reason_table(v: Seq<(String, usize)>, rows: Seq<AgentEvalComparison>) -> bool {
    &&& strictly_sorted(count_keys(v))
    &&& forall|i: int| 0 <= i < v.len() ==> #[trigger] v[i].1 == reason_count(rows, v[i].0@) && v[i].1 > 0
    &&& forall|k: Seq<char>| reason_count(rows, k) > 0 ==> #[trigger] count_keys(v).contains(k)
}

proof fn lemma_counts_bounded(rows: Seq<AgentEvalComparison>, k: Seq<char>)
    ensures
        invalid_count(rows) <= rows.len(),
        reason_count(rows, k) <= rows.len(),
    decreases rows.len(),
{
    if rows.len() > 0 {
        lemma_counts_bounded(rows.drop_last(), k);
    }
}

proof fn lemma_invalid_reasons(rows: Seq<AgentEvalComparison>, k: Seq<char>)
    ensures
        invalid_reasons(rows).contains(k) <==> reason_count(rows, k) > 0,
    decreases rows.len(),
{
    if rows.len() > 0 {
        lemma_invalid_reasons(rows.drop_last(), k);
        let prev = invalid_reasons(rows.drop_last());
        let last = rows.last();
        if !last.valid_for_comparison && last.excluded_reason is Some {
            let x = last.excluded_reason->0@;
            assert(invalid_reasons(rows) == prev.push(x)) by {
                assert(prev + seq![x] =~= prev.push(x));
            }
            if prev.contains(k) {
                let j = choose|j: int| 0 <= j < prev.len() && prev[j] == k;
                assert(prev.push(x)[j] == k);
            }
            if prev.push(x).contains(k) && k != x {
                let j = choose|j: int| 0 <= j < prev.push(x).len() && prev.push(x)[j] == k;
                assert(prev[j] == k);
            }
            assert(prev.push(x)[prev.len() as int] == x);
        } else {
            assert(invalid_reasons(rows) =~= prev);
        }
    }
}

fn collect_invalid_reasons(rows: &Vec<AgentEvalComparison>) -> (out: Vec<String>)
    ensures
        str_views(out@) == invalid_reasons(rows@),
{
    let mut out: Vec<String> = Vec::new();
    let mut i: usize = 0;
    assert(rows@.take(0) =~= Seq::<AgentEvalComparison>::empty());
    assert(str_views(out@) =~= invalid_reasons(rows@.take(0)));
    while i < rows.len()
        invariant
            i <= rows@.len(),
            str_views(out@) == invalid_reasons(rows@.take(i as int)),
        decreases rows@.len() - i,
    {
        assert(rows@.take(i + 1).drop_last() =~= rows@.take(i as int));
        let ghost before = str_views(out@);
        if !rows[i].valid_for_comparison {
            match &rows[i].excluded_reason {
                Some(r) => {
                    out.push(r.clone());
                    assert(str_views(out@) =~= before + seq![r@]);
                },
                None => {
                    assert(str_views(out@) =~= before + Seq::<Seq<char>>::empty());
                },
            }
        } else {
            assert(str_views(out@) =~= before + Seq::<Seq<char>>::empty());
        }
        i = i + 1;
    }
    assert(rows@.take(rows@.len() as int) =~= rows@);
    out
}

fn count_reason(rows: &Vec<AgentEvalComparison>, key: &str) -> (n: usize)
    ensures
        n == reason_count(rows@, key@),
{
    let mut n: usize = 0;
    let mut i: usize = 0;
    assert(rows@.take(0) =~= Seq::<AgentEvalComparison>::empty());
    while i < rows.len()
        invariant
            i <= rows@.len(),
            n == reason_count(rows@.take(i as int), key@),
        decreases rows@.len() - i,
    {
        assert(rows@.take(i + 1).drop_last() =~= rows@.take(i as int));
        proof {
            lemma_counts_bounded(rows@.take(i as int), key@);
        }
        if !rows[i].valid_for_comparison {
            match &rows[i].excluded_reason {
                Some(r) => {
                    if crate::text::str_eq(r.as_str(), key) {
                        n = n + 1;
                    }
                },
                None => {},
            }
        }
        i = i + 1;
    }
    assert(rows@.take(rows@.len() as int) =~= rows@);
    n
}

fn count_invalid(rows: &Vec<AgentEvalComparison>) -> (n: usize)
    ensures
        n == invalid_count(rows@),
{
    let mut n: usize = 0;
    let mut i: usize = 0;
    assert(rows@.take(0) =~= Seq::<AgentEvalComparison>::empty());
    while i < rows.len()
        invariant
            i <= rows@.len(),
            n == invalid_count(rows@.take(i as int)),
        decreases rows@.len() - i,
    {
        assert(rows@.take(i + 1).drop_last() =~= rows@.take(i as int));
        proof {
            lemma_counts_bounded(rows@.take(i as int), Seq::empty());
        }
        if !rows[i].valid_for_comparison {
            n = n + 1;
        }
        i = i + 1;
    }
    assert(rows@.take(rows@.len() as int) =~= rows@);
    n
}

/// Totals the pairs: how many were valid, how many not, and why not.
pub fn build_report(comparisons: Vec<AgentEvalComparison>) -> (r: AgentEvalReport)
    ensures
        r.comparisons@ == comparisons@,
        r.summary.total_pairs == comparisons@.len(),
        r.summary.invalid_pairs == invalid_count(comparisons@),
        r.summary.valid_pairs == comparisons@.len() - invalid_count(comparisons@),
        is_reason_table(r.summary.invalid_reason_counts@, comparisons@),
{
    let ghost rows = comparisons@;
    let total_pairs = comparisons.len();
    let invalid_pairs = count_invalid(&comparisons);
    proof {
        lemma_counts_bounded(rows, Seq::empty());
    }
    let reasons = collect_invalid_reasons(&comparisons);
    let keys = sorted_of(&reasons);
    let mut table: Vec<(String, usize)> = Vec::new();
    let mut i: usize = 0;
    while i < keys.len()
        invariant
            i <= keys@.len(),
            rows == comparisons@,
            sorted_set_of(str_views(keys@), invalid_reasons(rows).to_set()),
            count_keys(table@) == str_views(keys@).take(i as int),
            forall|j: int| 0 <= j < table@.len() ==> #[trigger] table@[j].1 == reason_count(rows, table@[j].0@)
                && table@[j].1 > 0,
        decreases keys@.len() - i,
    {
        let n = count_reason(&comparisons, keys[i].as_str());
        proof {
            let kv = str_views(keys@);
            assert(invalid_reasons(rows).to_set().contains(kv[i as int]));
            lemma_invalid_reasons(rows, kv[i as int]);
        }
        let ghost before = table@;
        let k = keys[i].clone();
        assert(k@ == str_views(keys@)[i as int]);
        table.push((k, n));
        assert(table@ == before.push((k, n)));
        assert(count_keys(table@) =~= count_keys(before).push(k@));
        assert(str_views(keys@).take(i + 1) =~= str_views(keys@).take(i as int).push(k@));
        assert forall|j: int| 0 <= j < table@.len() implies #[trigger] table@[j].1 == reason_count(
            rows,
            table@[j].0@,
        ) && table@[j].1 > 0 by {
            if j < before.len() {
                assert(table@[j] == before[j]);
            }
        }
        i = i + 1;
    }
    proof {
        let kv = str_views(keys@);
        assert(kv.take(kv.len() as int) =~= kv);
        assert forall|k: Seq<char>| reason_count(rows, k) > 0 implies #[trigger] count_keys(table@).contains(k) by {
            lemma_invalid_reasons(rows, k);
            assert(invalid_reasons(rows).to_set().contains(k));
        }
    }
    AgentEvalReport {
        comparisons,
        summary: AgentEvalSummary {
            total_pairs,
            valid_pairs: total_pairs - invalid_pairs,
            invalid_pairs,
            invalid_reason_counts: table,
        },
    }
}


// ---------------------------------------------------------------------------
// Shell command phases
// ---------------------------------------------------------------------------

/// The command inside a shell wrapper such as `bash -c `, if there is one.
pub open spec fn strip_wrapper(t: Seq<char>) -> Option<Seq<char>> {
    if starts_with(t, "/bin/zsh -lc "@) {
        Some(t.skip("/bin/zsh -lc "@.len() as int))
    } else if starts_with(t, "/bin/bash -c "@) {
        Some(t.skip("/bin/bash -c "@.len() as int))
    } else if starts_with(t, "zsh -lc "@) {
        Some(t.skip("zsh -lc "@.len() as int))
    } else if starts_with(t, "bash -c "@) {
        Some(t.skip("bash -c "@.len() as int))
    } else {
        None
    }
}

/// Single and double quotes.
pub open spec fn quotes() -> CharClass {
    CharClass::Either('\'', '"')
}

/// The first word of a command, after its shell wrapper and opening quotes.
pub open spec fn first_token(cmd: Seq<char>) -> Seq<char> {
    let t = trim(cmd);
    let inner = match strip_wrapper(t) {
        Some(r) => trim_start(r),
        None => t,
    };
    let u = trim_start_class(inner, quotes());
    let a = skip_class(u, CharClass::AsciiWhitespace, 0);
    u.subrange(a, next_in_class(u, CharClass::AsciiWhitespace, a))
}

/// The command once every leading `cd <dir> && ` segment is dropped.
pub open spec fn strip_cd_chain(remaining: Seq<char>) -> Seq<char>
    decreases remaining.len(),
{
    let lead = trim_start(remaining);
    let idx = find(lead, seq!['&', '&']);
    if !starts_with(lead, "cd "@) || idx < 0 {
        remaining
    } else {
        proof {
            lemma_skip_class_bounds(remaining, CharClass::Whitespace, 0);
            lemma_find_from(lead, seq!['&', '&'], 0);
            lemma_skip_class_bounds(lead.skip(idx + 2), CharClass::Whitespace, 0);
        }
        strip_cd_chain(trim_start(lead.skip(idx + 2)))
    }
}

/// A command without its shell wrapper, its surrounding quotes and its
/// leading `cd` segments.
pub open spec fn normalized_command(command: Seq<char>) -> Seq<char> {
    let t = trim(command);
    let body = match strip_wrapper(t) {
        Some(r) => r,
        None => t,
    };
    strip_cd_chain(trim_end_class(trim_start_class(body, quotes()), quotes()))
}

/// A joined grep context flag: ` -a`, ` -b` or ` -c` followed by a digit.
pub open spec fn has_joined_context_flag(lc: Seq<char>) -> bool {
    exists|i: int|
        0 <= i && i + 3 < lc.len() && #[trigger] lc[i] == ' ' && lc[i + 1] == '-' && (lc[i + 2] == 'a'
            || lc[i + 2] == 'b' || lc[i + 2] == 'c') && is_ascii_digit(lc[i + 3])
}

/// Context options of grep in a lower-cased command.
pub open spec fn has_grep_context(lc: Seq<char>) -> bool {
    contains(lc, " -a "@) || contains(lc, " -b "@) || contains(lc, " -c "@) || contains(lc, " -a="@)
        || contains(lc, " -b="@) || contains(lc, " -c="@) || contains(lc, " --after-context"@)
        || contains(lc, " --before-context"@) || contains(lc, " --context"@)
        || has_joined_context_flag(lc)
}

/// The phase a shell command belongs to: `discover`, `read`, `edit`,
/// `verify` or `other`.
pub open spec fn spec_shell_phase(command: Seq<char>) -> Seq<char> {
    let normalized = normalized_command(command);
    let first = first_token(normalized);
    if first == "find"@ || first == "ls"@ || first == "tree"@ || first == "locate"@ || first == "fd"@ {
        "discover"@
    } else if first == "cat"@ || first == "head"@ || first == "tail"@ || first == "less"@ || first
        == "more"@ {
        "read"@
    } else if first == "grep"@ || first == "rg"@ || first == "ack"@ {
        if has_grep_context(lower(normalized)) {
            "verify"@
        } else {
            "discover"@
        }
    } else if first == "sed"@ || first == "perl"@ {
        if contains(command, "-i"@) {
            "edit"@
        } else {
            "other"@
        }
    } else if first == "awk"@ {
        if contains(command, "inplace"@) {
            "edit"@
        } else if contains(command, "print"@) {
            "verify"@
        } else {
            "other"@
        }
    } else if first == "echo"@ || first == "printf"@ {
        if command.contains('>') {
            "edit"@
        } else {
            "other"@
        }
    } else if first == "mv"@ || first == "cp"@ || first == "rm"@ || first == "mkdir"@ || first
        == "touch"@ || first == "rmdir"@ || first == "ln"@ {
        "edit"@
    } else if first == "diff"@ {
        "verify"@
    } else if first == "git"@ {
        let lc = lower(command);
        if contains(lc, " diff"@) || contains(lc, " log"@) || contains(lc, " show"@) {
            "verify"@
        } else if contains(lc, " status"@) || contains(lc, " ls-files"@) || contains(
            lc,
            " branch"@,
        ) {
            "discover"@
        } else {
            "other"@
        }
    } else {
        "other"@
    }
}

/// The phase of a command by its first word, after its shell wrapper,
/// quotes and leading `cd` segments are peeled: `find`, `ls`, `tree`,
/// `locate` and `fd` discover; `cat`, `head`, `tail`, `less` and `more`
/// read; `mv`, `cp`, `rm`, `mkdir`, `touch`, `rmdir` and `ln` edit; `diff`
/// verifies; `grep`, `rg` and `ack` discover unless they ask for context
/// lines, when they verify; any word not named here is `other`.
pub proof fn lemma_shell_phase_by_first_word(command: Seq<char>)
    ensures
        ({
            let w = first_token(normalized_command(command));
            let p = spec_shell_phase(command);
            &&& (w == "find"@ || w == "ls"@ || w == "tree"@ || w == "locate"@ || w == "fd"@) ==> p
                == "discover"@
            &&& (w == "cat"@ || w == "head"@ || w == "tail"@ || w == "less"@ || w == "more"@) ==> p
                == "read"@
            &&& (w == "mv"@ || w == "cp"@ || w == "rm"@ || w == "mkdir"@ || w == "touch"@ || w
                == "rmdir"@ || w == "ln"@) ==> p == "edit"@
            &&& w == "diff"@ ==> p == "verify"@
            &&& (w == "grep"@ || w == "rg"@ || w == "ack"@) ==> (p == if has_grep_context(
                lower(normalized_command(command)),
            ) {
                "verify"@
            } else {
                "discover"@
            })
            &&& !(w == "find"@ || w == "ls"@ || w == "tree"@ || w == "locate"@ || w == "fd"@ || w
                == "cat"@ || w == "head"@ || w == "tail"@ || w == "less"@ || w == "more"@ || w
                == "grep"@ || w == "rg"@ || w == "ack"@ || w == "sed"@ || w == "perl"@ || w
                == "awk"@ || w == "echo"@ || w == "printf"@ || w == "mv"@ || w == "cp"@ || w
                == "rm"@ || w == "mkdir"@ || w == "touch"@ || w == "rmdir"@ || w == "ln"@ || w
                == "diff"@ || w == "git"@) ==> p == "other"@
        }),
{
    reveal_strlit("find");
    assert("find"@.len() == 4 && "find"@[0] == 'f' && "find"@[1] == 'i');
    reveal_strlit("ls");
    assert("ls"@.len() == 2 && "ls"@[0] == 'l' && "ls"@[1] == 's');
    reveal_strlit("tree");
    assert("tree"@.len() == 4 && "tree"@[0] == 't' && "tree"@[1] == 'r');
    reveal_strlit("locate");
    assert("locate"@.len() == 6 && "locate"@[0] == 'l' && "locate"@[1] == 'o');
    reveal_strlit("fd");
    assert("fd"@.len() == 2 && "fd"@[0] == 'f' && "fd"@[1] == 'd');
    reveal_strlit("cat");
    assert("cat"@.len() == 3 && "cat"@[0] == 'c' && "cat"@[1] == 'a');
    reveal_strlit("head");
    assert("head"@.len() == 4 && "head"@[0] == 'h' && "head"@[1] == 'e');
    reveal_strlit("tail");
    assert("tail"@.len() == 4 && "tail"@[0] == 't' && "tail"@[1] == 'a');
    reveal_strlit("less");
    assert("less"@.len() == 4 && "less"@[0] == 'l' && "less"@[1] == 'e');
    reveal_strlit("more");
    assert("more"@.len() == 4 && "more"@[0] == 'm' && "more"@[1] == 'o');
    reveal_strlit("grep");
    assert("grep"@.len() == 4 && "grep"@[0] == 'g' && "grep"@[1] == 'r');
    reveal_strlit("rg");
    assert("rg"@.len() == 2 && "rg"@[0] == 'r' && "rg"@[1] == 'g');
    reveal_strlit("ack");
    assert("ack"@.len() == 3 && "ack"@[0] == 'a' && "ack"@[1] == 'c');
    reveal_strlit("sed");
    assert("sed"@.len() == 3 && "sed"@[0] == 's' && "sed"@[1] == 'e');
    reveal_strlit("perl");
    assert("perl"@.len() == 4 && "perl"@[0] == 'p' && "perl"@[1] == 'e');
    reveal_strlit("awk");
    assert("awk"@.len() == 3 && "awk"@[0] == 'a' && "awk"@[1] == 'w');
    reveal_strlit("echo");
    assert("echo"@.len() == 4 && "echo"@[0] == 'e' && "echo"@[1] == 'c');
    reveal_strlit("printf");
    assert("printf"@.len() == 6 && "printf"@[0] == 'p' && "printf"@[1] == 'r');
    reveal_strlit("mv");
    assert("mv"@.len() == 2 && "mv"@[0] == 'm' && "mv"@[1] == 'v');
    reveal_strlit("cp");
    assert("cp"@.len() == 2 && "cp"@[0] == 'c' && "cp"@[1] == 'p');
    reveal_strlit("rm");
    assert("rm"@.len() == 2 && "rm"@[0] == 'r' && "rm"@[1] == 'm');
    reveal_strlit("mkdir");
    assert("mkdir"@.len() == 5 && "mkdir"@[0] == 'm' && "mkdir"@[1] == 'k');
    reveal_strlit("touch");
    assert("touch"@.len() == 5 && "touch"@[0] == 't' && "touch"@[1] == 'o');
    reveal_strlit("rmdir");
    assert("rmdir"@.len() == 5 && "rmdir"@[0] == 'r' && "rmdir"@[1] == 'm');
    reveal_strlit("ln");
    assert("ln"@.len() == 2 && "ln"@[0] == 'l' && "ln"@[1] == 'n');
    reveal_strlit("diff");
    assert("diff"@.len() == 4 && "diff"@[0] == 'd' && "diff"@[1] == 'i');
    reveal_strlit("git");
    assert("git"@.len() == 3 && "git"@[0] == 'g' && "git"@[1] == 'i');
}

fn contains_str(s: &[char], p: &str) -> (r: bool)
    ensures
        r == contains(s@, p@),
{
    let pc = chars_of(p);
    contains_exec(s, pc.as_slice())
}

fn is_word(s: &[char], w: &str) -> (r: bool)
    ensures
        r == (s@ == w@),
{
    let wc = chars_of(w);
    eq_chars(s, wc.as_slice())
}

fn strip_prefix_exec(t: &[char], p: &str) -> (r: Option<Vec<char>>)
    ensures
        match r {
            Some(x) => starts_with(t@, p@) && x@ == t@.skip(p@.len() as int),
            None => !starts_with(t@, p@),
        },
{
    let pc = chars_of(p);
    if starts_with_exec(t, pc.as_slice()) {
        let x = sub_chars(t, pc.len(), t.len());
        assert(x@ =~= t@.skip(p@.len() as int));
        Some(x)
    } else {
        None
    }
}

fn strip_wrapper_exec(t: &[char]) -> (r: Option<Vec<char>>)
    ensures
        match r {
            Some(x) => strip_wrapper(t@) == Some(x@),
            None => strip_wrapper(t@) is None,
        },
{
    if let Some(x) = strip_prefix_exec(t, "/bin/zsh -lc ") {
        return Some(x);
    }
    if let Some(x) = strip_prefix_exec(t, "/bin/bash -c ") {
        return Some(x);
    }
    if let Some(x) = strip_prefix_exec(t, "zsh -lc ") {
        return Some(x);
    }
    strip_prefix_exec(t, "bash -c ")
}

fn first_token_exec(cmd: &[char]) -> (r: Vec<char>)
    ensures
        r@ == first_token(cmd@),
{
    let t = trim_exec(cmd);
    let inner = match strip_wrapper_exec(t.as_slice()) {
        Some(r) => trim_start_class_exec(r.as_slice(), CharClass::Whitespace),
        None => t,
    };
    let u = trim_start_class_exec(inner.as_slice(), CharClass::Either('\'', '"'));
    let mut a: usize = 0;
    while a < u.len() && in_class_exec(CharClass::AsciiWhitespace, u[a])
        invariant
            a <= u@.len(),
            skip_class(u@, CharClass::AsciiWhitespace, 0) == skip_class(
                u@,
                CharClass::AsciiWhitespace,
                a as int,
            ),
        decreases u@.len() - a,
    {
        a = a + 1;
    }
    let e = next_in_class_exec(u.as_slice(), CharClass::AsciiWhitespace, a);
    proof {
        lemma_next_in_class(u@, CharClass::AsciiWhitespace, a as int);
    }
    sub_chars(u.as_slice(), a, e)
}

fn strip_cd_chain_exec(body: Vec<char>) -> (r: Vec<char>)
    ensures
        r@ == strip_cd_chain(body@),
{
    let mut rem = body;
    let amp = chars_of("&&");
    proof {
        reveal_strlit("&&");
    }
    assert(amp@ =~= seq!['&', '&']);
    loop
        invariant
            strip_cd_chain(body@) == strip_cd_chain(rem@),
            amp@ == seq!['&', '&'],
        ensures
            strip_cd_chain(body@) == rem@,
        decreases rem@.len(),
    {
        let lead = trim_start_class_exec(rem.as_slice(), CharClass::Whitespace);
        if !contains_cd_prefix(lead.as_slice()) {
            break;
        }
        match find_exec(lead.as_slice(), amp.as_slice()) {
            None => {
                break;
            },
            Some(idx) => {
                proof {
                    lemma_skip_class_bounds(rem@, CharClass::Whitespace, 0);
                    lemma_find_from(lead@, amp@, 0);
                }
                let ll: usize = lead.len();
                assert(idx + 2 <= ll);
                let tail = sub_chars(lead.as_slice(), idx + 2, ll);
                assert(tail@ =~= lead@.skip(idx + 2));
                proof {
                    lemma_skip_class_bounds(tail@, CharClass::Whitespace, 0);
                }
                rem = trim_start_class_exec(tail.as_slice(), CharClass::Whitespace);
            },
        }
    }
    rem
}

fn contains_cd_prefix(lead: &[char]) -> (r: bool)
    ensures
        r == starts_with(lead@, "cd "@),
{
    let cd = chars_of("cd ");
    starts_with_exec(lead, cd.as_slice())
}

fn normalized_command_exec(command: &[char]) -> (r: Vec<char>)
    ensures
        r@ == normalized_command(command@),
{
    let t = trim_exec(command);
    let body = match strip_wrapper_exec(t.as_slice()) {
        Some(r) => r,
        None => t,
    };
    let a = trim_start_class_exec(body.as_slice(), CharClass::Either('\'', '"'));
    let b = trim_end_class_exec(a.as_slice(), CharClass::Either('\'', '"'));
    strip_cd_chain_exec(b)
}

fn has_joined_context_flag_exec(lc: &[char]) -> (r: bool)
    ensures
        r == has_joined_context_flag(lc@),
{
    let n: usize = lc.len();
    let mut i: usize = 0;
    while n > 3 && i < n - 3
        invariant
            n == lc@.len(),
            forall|j: int|
                0 <= j < i && j + 3 < lc@.len() ==> !(#[trigger] lc@[j] == ' ' && lc@[j + 1] == '-'
                    && (lc@[j + 2] == 'a' || lc@[j + 2] == 'b' || lc@[j + 2] == 'c')
                    && is_ascii_digit(lc@[j + 3])),
        decreases lc@.len() - i,
    {
        if lc[i] == ' ' && lc[i + 1] == '-' && (lc[i + 2] == 'a' || lc[i + 2] == 'b' || lc[i + 2]
            == 'c') && '0' <= lc[i + 3] && lc[i + 3] <= '9' {
            assert(lc@[i as int] == ' ');
            assert(is_ascii_digit(lc@[i + 3]));
            return true;
        }
        i = i + 1;
    }
    false
}

fn has_grep_context_exec(lc: &[char]) -> (r: bool)
    ensures
        r == has_grep_context(lc@),
{
    contains_str(lc, " -a ") || contains_str(lc, " -b ") || contains_str(lc, " -c ")
        || contains_str(lc, " -a=") || contains_str(lc, " -b=") || contains_str(lc, " -c=")
        || contains_str(lc, " --after-context") || contains_str(lc, " --before-context")
        || contains_str(lc, " --context") || has_joined_context_flag_exec(lc)
}

/// Classifies a shell command into `discover`, `read`, `edit`, `verify` or
/// `other` by the first word of the command it runs.
pub fn classify_shell_phase(command: &str) -> (r: &'static str)
    ensures
        r@ == spec_shell_phase(command@),
{
    let cmd = chars_of(command);
    let normalized = normalized_command_exec(cmd.as_slice());
    let first = first_token_exec(normalized.as_slice());
    let f = first.as_slice();
    if is_word(f, "find") || is_word(f, "ls") || is_word(f, "tree") || is_word(f, "locate")
        || is_word(f, "fd") {
        "discover"
    } else if is_word(f, "cat") || is_word(f, "head") || is_word(f, "tail") || is_word(f, "less")
        || is_word(f, "more") {
        "read"
    } else if is_word(f, "grep") || is_word(f, "rg") || is_word(f, "ack") {
        let lc = lower_chars(normalized.as_slice());
        if has_grep_context_exec(lc.as_slice()) {
            "verify"
        } else {
            "discover"
        }
    } else if is_word(f, "sed") || is_word(f, "perl") {
        if contains_str(cmd.as_slice(), "-i") {
            "edit"
        } else {
            "other"
        }
    } else if is_word(f, "awk") {
        if contains_str(cmd.as_slice(), "inplace") {
            "edit"
        } else if contains_str(cmd.as_slice(), "print") {
            "verify"
        } else {
            "other"
        }
    } else if is_word(f, "echo") || is_word(f, "printf") {
        if has_char(cmd.as_slice(), '>') {
            "edit"
        } else {
            "other"
        }
    } else if is_word(f, "mv") || is_word(f, "cp") || is_word(f, "rm") || is_word(f, "mkdir")
        || is_word(f, "touch") || is_word(f, "rmdir") || is_word(f, "ln") {
        "edit"
    } else if is_word(f, "diff") {
        "verify"
    } else if is_word(f, "git") {
        let lc = lower_chars(cmd.as_slice());
        let l = lc.as_slice();
        if contains_str(l, " diff") || contains_str(l, " log") || contains_str(l, " show") {
            "verify"
        } else if contains_str(l, " status") || contains_str(l, " ls-files") || contains_str(
            l,
            " branch",
        ) {
            "discover"
        } else {
            "other"
        }
    } else {
        "other"
    }
}


/// The packet-evaluation labels of a task: its gold files and tests, with
/// no bridge files.
pub fn agent_labels_from_task(task: &AgentEvalTask) -> (l: crate::harness::metrics::EvalLabels)
    ensures
        str_views(l.relevant_files@) == str_views(task.relevant_files@),
        str_views(l.relevant_tests@) == str_views(task.relevant_tests@),
        l.bridge_files@.len() == 0,
{
    crate::harness::metrics::EvalLabels {
        relevant_files: clone_strings(&task.relevant_files),
        relevant_tests: clone_strings(&task.relevant_tests),
        bridge_files: Vec::new(),
    }
}

} // verus!
