//! The proxies' bookkeeping around one intercepted shell command.
//!
//! An interceptor alternates decisions with outside work (reading the target
//! file, running `rg`), so each is split in two steps.  A `*_begin` step
//! decides, from the command and the session's registry of substituted
//! commands, whether the outside work is needed.  A `*_record` step takes what
//! that work produced, registers a substituted command, updates the session
//! telemetry and gives the text that replaces the command's output (`None`:
//! run the command unchanged).  Only a substitution is registered, so a
//! command that was substituted once runs raw when the model repeats it.
use std::collections::HashSet;

use vstd::prelude::*;

use crate::large_read::classifier::{spec_classify_command, ClassifiedRead, OutcomeModel};
use crate::large_read::proxy::{
    build_large_read_response, decide_read, set_contains, set_insert, spec_build_response,
    spec_decide_read, string_set_contents, BuildModel, DecisionModel, LargeReadOutcome,
    ReadDecision,
};
use crate::large_read::slice::SliceOptions;
use crate::text::lines;
use crate::telemetry::ProxyTelemetry;

verus! {

/// The byte length of a text's UTF-8 encoding.
pub open spec fn byte_len(s: Seq<char>) -> nat {
    vstd::utf8::encode_utf8(s).len()
}

// ---------------------------------------------------------------------------
// Large-read proxy
// ---------------------------------------------------------------------------

/// What the large-read interceptor does after looking at a command.
pub enum LargeReadStep {
    /// Let the shell run the command unchanged.
    RunCommand,
    /// Read the target file, build the compact response for its content
    /// (`build_large_read_response`) and finish with [`large_read_record`].
    ReadFile(ClassifiedRead),
}

/// The model of a step.
pub enum LargeReadStepModel {
    RunCommand,
    ReadFile(OutcomeModel),
}

impl LargeReadStep {
    /// The model of this step.
    pub open spec fn model(&self) -> LargeReadStepModel {
        match self {
            LargeReadStep::RunCommand => LargeReadStepModel::RunCommand,
            LargeReadStep::ReadFile(read) => LargeReadStepModel::ReadFile(read.model()),
        }
    }
}

/// The step after a command: when the proxy is enabled, a first eligible
/// large read goes on to read its file; anything else runs unchanged.
pub open spec fn large_read_next(
    enabled: bool,
    raw: Seq<char>,
    substituted: Set<Seq<char>>,
) -> LargeReadStepModel {
    if !enabled {
        LargeReadStepModel::RunCommand
    } else {
        match spec_decide_read(raw, substituted) {
            DecisionModel::Substitutable(read) => LargeReadStepModel::ReadFile(read),
            _ => LargeReadStepModel::RunCommand,
        }
    }
}

/// The telemetry after looking at a command: an enabled proxy marks itself
/// enabled, and counts a repeated read that it lets run raw.
pub open spec fn large_read_begin_telemetry(
    enabled: bool,
    raw: Seq<char>,
    substituted: Set<Seq<char>>,
    t: ProxyTelemetry,
) -> ProxyTelemetry {
    if !enabled {
        t
    } else {
        let marked = ProxyTelemetry { large_read_proxy_enabled: true, ..t };
        match spec_decide_read(raw, substituted) {
            DecisionModel::Bypass(_) => ProxyTelemetry {
                large_read_proxy_escape_hatch_repeats: (t.large_read_proxy_escape_hatch_repeats
                    + 1) as u32,
                ..marked
            },
            _ => marked,
        }
    }
}

/// Looks at one command for the large-read proxy.
pub fn large_read_begin(
    enabled: bool,
    raw_cmd: &str,
    registry: &HashSet<String>,
    tel: &mut ProxyTelemetry,
) -> (step: LargeReadStep)
    requires
        enabled && spec_decide_read(raw_cmd@, string_set_contents(*registry)) is Bypass
            ==> old(tel).large_read_proxy_escape_hatch_repeats < u32::MAX,
    ensures
        step.model() == large_read_next(enabled, raw_cmd@, string_set_contents(*registry)),
        *final(tel) == large_read_begin_telemetry(
            enabled,
            raw_cmd@,
            string_set_contents(*registry),
            *old(tel),
        ),
{
    if !enabled {
        return LargeReadStep::RunCommand;
    }
    tel.large_read_proxy_enabled = true;
    match decide_read(raw_cmd, registry) {
        ReadDecision::PassThrough(_) => LargeReadStep::RunCommand,
        ReadDecision::Bypass { .. } => {
            tel.large_read_proxy_escape_hatch_repeats = tel.large_read_proxy_escape_hatch_repeats
                + 1;
            LargeReadStep::RunCommand
        },
        ReadDecision::Substitutable(read) => LargeReadStep::ReadFile(read),
    }
}

/// What came of reading the target file and building the response.
pub enum LargeReadResult {
    /// The file could not be read, or is not UTF-8.
    Unreadable,
    /// The build's outcome for the file's content.
    Built(LargeReadOutcome),
}

impl LargeReadResult {
    /// The model of the result: `None` for an unreadable file, else the
    /// build's outcome.
    pub open spec fn model(&self) -> Option<BuildModel> {
        match self {
            LargeReadResult::Unreadable => None,
            LargeReadResult::Built(o) => Some(o.model()),
        }
    }
}

/// The slice options the interceptor builds with: at most three slices of
/// thirty lines, 6144 bytes in all.
pub open spec fn interceptor_slice_options() -> SliceOptions {
    SliceOptions { max_slices: 3, max_lines_per_slice: 30, max_total_bytes: 6144 }
}

/// What reading and building give for an eligible read: `None` when the file
/// could not be read as UTF-8 text, else the build for its `content` with no
/// hints and the interceptor's slice options.
pub open spec fn large_read_build(read: OutcomeModel, content: Option<Seq<char>>) -> Option<
    BuildModel,
> {
    match content {
        None => None,
        Some(t) => Some(
            spec_build_response(read, t, byte_len(t), Seq::empty(), interceptor_slice_options()),
        ),
    }
}

/// Builds the response for an eligible read from what reading its file gave
/// (`None`: unreadable or not UTF-8).
pub fn large_read_build_result(read: &ClassifiedRead, content: Option<&str>) -> (r: LargeReadResult)
    requires
        content matches Some(t) ==> lines(t@).len() + 30 <= u32::MAX && byte_len(t@) <= usize::MAX,
    ensures
        r.model() == large_read_build(
            read.model(),
            match content {
                Some(t) => Some(t@),
                None => None,
            },
        ),
{
    match content {
        None => LargeReadResult::Unreadable,
        Some(t) => {
            let opts = SliceOptions { max_slices: 3, max_lines_per_slice: 30, max_total_bytes: 6144 };
            let hints: Vec<String> = Vec::new();
            assert(crate::text::str_views(hints@) =~= Seq::<Seq<char>>::empty());
            assert(opts == interceptor_slice_options());
            let out = build_large_read_response(read, t, hints.as_slice(), &opts);
            assert(t.len() as nat == byte_len(t@));
            LargeReadResult::Built(out)
        },
    }
}

/// The reply of the record step: the compact text of a substitution.
pub open spec fn large_read_record_reply(r: Option<BuildModel>) -> Option<Seq<char>> {
    match r {
        Some(BuildModel::Substitute { rendered, .. }) => Some(rendered),
        _ => None,
    }
}

/// The registry after the record step: a substitution registers the read's
/// normalized command.
pub open spec fn large_read_record_registry(
    normalized: Seq<char>,
    r: Option<BuildModel>,
    substituted: Set<Seq<char>>,
) -> Set<Seq<char>> {
    match r {
        Some(BuildModel::Substitute { .. }) => substituted.insert(normalized),
        _ => substituted,
    }
}

/// One intercepted command end to end, for what reading the target file
/// gives (`content`): the reply that replaces the command's output
/// (`None`: it runs unchanged) and the registry afterwards.
pub open spec fn large_read_intercept(
    enabled: bool,
    raw: Seq<char>,
    substituted: Set<Seq<char>>,
    content: Option<Seq<char>>,
) -> (Option<Seq<char>>, Set<Seq<char>>) {
    match large_read_next(enabled, raw, substituted) {
        LargeReadStepModel::RunCommand => (None, substituted),
        LargeReadStepModel::ReadFile(read) => {
            let b = large_read_build(read, content);
            match read {
                OutcomeModel::Eligible { normalized, .. } => (
                    large_read_record_reply(b),
                    large_read_record_registry(normalized, b, substituted),
                ),
                OutcomeModel::PassThrough(_) => (None, substituted),
            }
        },
    }
}

/// Records the outcome for an eligible read.  A substitution registers the
/// read's normalized command, counts itself with its compact and raw byte
/// sizes, and replies with the compact text; anything else counts as a build
/// pass-through and lets the command run unchanged.
pub fn large_read_record(
    read: &ClassifiedRead,
    result: LargeReadResult,
    registry: &mut HashSet<String>,
    tel: &mut ProxyTelemetry,
) -> (reply: Option<String>)
    requires
        match result {
            LargeReadResult::Built(LargeReadOutcome::Substitute { rendered, raw_bytes, .. }) => {
                &&& byte_len(rendered@) <= usize::MAX
                &&& old(tel).large_read_proxy_substitutions < u32::MAX
                &&& old(tel).large_read_proxy_compact_bytes + byte_len(rendered@) <= u64::MAX
                &&& old(tel).large_read_proxy_raw_bytes + raw_bytes <= u64::MAX
            },
            _ => old(tel).large_read_proxy_build_pass_throughs < u32::MAX,
        },
    ensures
        match reply {
            Some(text) => large_read_record_reply(result.model()) == Some(text@),
            None => large_read_record_reply(result.model()) is None,
        },
        string_set_contents(*final(registry)) == large_read_record_registry(
            read.normalized@,
            result.model(),
            string_set_contents(*old(registry)),
        ),
        match result {
            LargeReadResult::Built(LargeReadOutcome::Substitute { rendered, raw_bytes, .. }) => {
                &&& reply matches Some(text) && text@ == rendered@
                &&& string_set_contents(*final(registry)) == string_set_contents(
                    *old(registry),
                ).insert(read.normalized@)
                &&& *final(tel) == ProxyTelemetry {
                    large_read_proxy_substitutions: (old(tel).large_read_proxy_substitutions
                        + 1) as u32,
                    large_read_proxy_compact_bytes: (old(tel).large_read_proxy_compact_bytes
                        + byte_len(rendered@)) as u64,
                    large_read_proxy_raw_bytes: (old(tel).large_read_proxy_raw_bytes
                        + raw_bytes) as u64,
                    ..*old(tel)
                }
            },
            _ => {
                &&& reply is None
                &&& *final(registry) == *old(registry)
                &&& *final(tel) == ProxyTelemetry {
                    large_read_proxy_build_pass_throughs: (
                    old(tel).large_read_proxy_build_pass_throughs + 1) as u32,
                    ..*old(tel)
                }
            },
        },
{
    match result {
        LargeReadResult::Built(LargeReadOutcome::Substitute { rendered, raw_bytes, .. }) => {
            set_insert(registry, read.normalized.clone());
            let compact: usize = rendered.as_str().len();
            tel.large_read_proxy_substitutions = tel.large_read_proxy_substitutions + 1;
            tel.large_read_proxy_compact_bytes = tel.large_read_proxy_compact_bytes
                + compact as u64;
            tel.large_read_proxy_raw_bytes = tel.large_read_proxy_raw_bytes + raw_bytes as u64;
            Some(rendered)
        },
        _ => {
            tel.large_read_proxy_build_pass_throughs = tel.large_read_proxy_build_pass_throughs
                + 1;
            None
        },
    }
}

/// Repeating a read once it has been substituted lets the raw command run:
/// when the registry holds the normalized key of an eligible command, an
/// enabled proxy runs it unchanged and counts the repeat.
pub proof fn lemma_substituted_read_runs_raw_when_repeated(
    raw: Seq<char>,
    substituted: Set<Seq<char>>,
    t: ProxyTelemetry,
)
    requires
        spec_classify_command(raw) matches OutcomeModel::Eligible { normalized, .. }
            && substituted.contains(normalized),
    ensures
        large_read_next(true, raw, substituted) == LargeReadStepModel::RunCommand,
        large_read_begin_telemetry(true, raw, substituted, t).large_read_proxy_escape_hatch_repeats
            == (t.large_read_proxy_escape_hatch_repeats + 1) as u32,
{
}

/// Whether the proxy is enabled, the command is a first eligible read, its
/// file reads as text and the build for that text substitutes.
pub open spec fn large_read_substitutes(
    enabled: bool,
    raw: Seq<char>,
    substituted: Set<Seq<char>>,
    content: Option<Seq<char>>,
) -> bool {
    enabled && match spec_decide_read(raw, substituted) {
        DecisionModel::Substitutable(read) => match content {
            Some(t) => spec_build_response(
                read,
                t,
                byte_len(t),
                Seq::empty(),
                interceptor_slice_options(),
            ) is Substitute,
            None => false,
        },
        _ => false,
    }
}

/// One intercepted read end to end: the command's output is replaced exactly
/// when the proxy is enabled, the command is a first eligible read, its file
/// reads as text and the build substitutes; the reply is then the compact
/// text and the registry gains the read's normalized command.  In every
/// other case the command runs unchanged and the registry stays as it was.
pub proof fn lemma_large_read_intercept(
    enabled: bool,
    raw: Seq<char>,
    substituted: Set<Seq<char>>,
    content: Option<Seq<char>>,
)
    ensures
        ({
            let (reply, after) = large_read_intercept(enabled, raw, substituted, content);
            match reply {
                Some(o) => {
                    &&& enabled
                    &&& spec_decide_read(raw, substituted) matches DecisionModel::Substitutable(
                        read,
                    )
                    &&& read matches OutcomeModel::Eligible { normalized, .. }
                    &&& content matches Some(t)
                    &&& spec_build_response(
                        read,
                        t,
                        byte_len(t),
                        Seq::empty(),
                        interceptor_slice_options(),
                    ) matches BuildModel::Substitute { rendered, .. }
                    &&& o == rendered
                    &&& after == substituted.insert(normalized)
                },
                None => {
                    &&& after == substituted
                    &&& !large_read_substitutes(enabled, raw, substituted, content)
                },
            }
        }),
{
}

// ---------------------------------------------------------------------------
// Search proxy
// ---------------------------------------------------------------------------

/// Whether the search interceptor runs `rg` for a command: the proxy is
/// enabled, the command was classified eligible (its normalized form is
/// `key`), and that form was not substituted before.
pub open spec fn search_next(
    enabled: bool,
    key: Option<Seq<char>>,
    substituted: Set<Seq<char>>,
) -> bool {
    enabled && (key matches Some(k) && !substituted.contains(k))
}

/// The telemetry after looking at a command: an enabled proxy marks itself
/// enabled, and counts an eligible repeat that it lets run raw.
pub open spec fn search_begin_telemetry(
    enabled: bool,
    key: Option<Seq<char>>,
    substituted: Set<Seq<char>>,
    t: ProxyTelemetry,
) -> ProxyTelemetry {
    if !enabled {
        t
    } else {
        let marked = ProxyTelemetry { search_proxy_enabled: true, ..t };
        if key matches Some(k) && substituted.contains(k) {
            ProxyTelemetry {
                search_proxy_escape_hatch_repeats: (t.search_proxy_escape_hatch_repeats
                    + 1) as u32,
                ..marked
            }
        } else {
            marked
        }
    }
}

/// Looks at one command for the search proxy.  `key` is the normalized
/// command when the search-proxy classifier found it eligible, `None` when
/// it passed it through.  Returns whether to run the search.
pub fn search_begin(
    enabled: bool,
    key: Option<&String>,
    registry: &HashSet<String>,
    tel: &mut ProxyTelemetry,
) -> (run_search: bool)
    requires
        enabled && (key matches Some(k) && string_set_contents(*registry).contains(k@))
            ==> old(tel).search_proxy_escape_hatch_repeats < u32::MAX,
    ensures
        run_search == search_next(
            enabled,
            match key {
                Some(k) => Some(k@),
                None => None,
            },
            string_set_contents(*registry),
        ),
        *final(tel) == search_begin_telemetry(
            enabled,
            match key {
                Some(k) => Some(k@),
                None => None,
            },
            string_set_contents(*registry),
            *old(tel),
        ),
{
    if !enabled {
        return false;
    }
    tel.search_proxy_enabled = true;
    match key {
        None => false,
        Some(k) => {
            if set_contains(registry, k) {
                tel.search_proxy_escape_hatch_repeats = tel.search_proxy_escape_hatch_repeats
                    + 1;
                false
            } else {
                true
            }
        },
    }
}

/// What came of running the search.
pub enum SearchResult {
    /// Compact evidence to return in place of the raw output, and the size
    /// of the raw output it replaces.
    Substitute { rendered: String, raw_bytes: usize },
    /// The search ran but the builder declined to substitute.
    PassThrough,
    /// The search could not be run to completion.
    RunFailed,
}

/// The reply of the search record step: the compact text of a substitution.
pub open spec fn search_record_reply(result: SearchResult) -> Option<Seq<char>> {
    match result {
        SearchResult::Substitute { rendered, .. } => Some(rendered@),
        _ => None,
    }
}

/// The registry after the search record step: a substitution registers `key`.
pub open spec fn search_record_registry(
    key: Seq<char>,
    result: SearchResult,
    substituted: Set<Seq<char>>,
) -> Set<Seq<char>> {
    match result {
        SearchResult::Substitute { .. } => substituted.insert(key),
        _ => substituted,
    }
}

/// One intercepted search end to end, for what running it gives
/// (`result`): the reply that replaces the command's output (`None`: it runs
/// unchanged) and the registry afterwards.
pub open spec fn search_intercept(
    enabled: bool,
    key: Option<Seq<char>>,
    substituted: Set<Seq<char>>,
    result: SearchResult,
) -> (Option<Seq<char>>, Set<Seq<char>>) {
    if search_next(enabled, key, substituted) {
        (search_record_reply(result), search_record_registry(key->0, result, substituted))
    } else {
        (None, substituted)
    }
}

/// One intercepted search end to end: the command's output is replaced
/// exactly when the proxy is enabled, the command is a first eligible search
/// and the run substitutes; the reply is then the compact text and the
/// registry gains the command's key.  Otherwise the command runs unchanged
/// and the registry stays as it was.
pub proof fn lemma_search_intercept(
    enabled: bool,
    key: Option<Seq<char>>,
    substituted: Set<Seq<char>>,
    result: SearchResult,
)
    ensures
        ({
            let (reply, after) = search_intercept(enabled, key, substituted, result);
            match reply {
                Some(o) => {
                    &&& enabled
                    &&& key matches Some(k)
                    &&& !substituted.contains(k)
                    &&& result matches SearchResult::Substitute { rendered, .. }
                    &&& o == rendered@
                    &&& after == substituted.insert(k)
                },
                None => {
                    &&& after == substituted
                    &&& !(search_next(enabled, key, substituted) && result is Substitute)
                },
            }
        }),
{
}

/// Records the outcome of a search for the command normalized as `key`.  A
/// substitution registers `key`, counts itself with its compact and raw byte
/// sizes and replies with the compact text; a declined build is counted as
/// such; a failed run changes nothing.  Only a substitution replies.
pub fn search_record(
    key: &String,
    result: SearchResult,
    registry: &mut HashSet<String>,
    tel: &mut ProxyTelemetry,
) -> (reply: Option<String>)
    requires
        match result {
            SearchResult::Substitute { rendered, raw_bytes } => {
                &&& byte_len(rendered@) <= usize::MAX
                &&& old(tel).search_proxy_substitutions < u32::MAX
                &&& old(tel).search_proxy_compact_bytes + byte_len(rendered@) <= u64::MAX
                &&& old(tel).search_proxy_raw_bytes + raw_bytes <= u64::MAX
            },
            SearchResult::PassThrough => old(tel).search_proxy_build_pass_throughs < u32::MAX,
            SearchResult::RunFailed => true,
        },
    ensures
        match reply {
            Some(text) => search_record_reply(result) == Some(text@),
            None => search_record_reply(result) is None,
        },
        string_set_contents(*final(registry)) == search_record_registry(
            key@,
            result,
            string_set_contents(*old(registry)),
        ),
        match result {
            SearchResult::Substitute { rendered, raw_bytes } => {
                &&& reply matches Some(text) && text@ == rendered@
                &&& string_set_contents(*final(registry)) == string_set_contents(
                    *old(registry),
                ).insert(key@)
                &&& *final(tel) == ProxyTelemetry {
                    search_proxy_substitutions: (old(tel).search_proxy_substitutions + 1) as u32,
                    search_proxy_compact_bytes: (old(tel).search_proxy_compact_bytes + byte_len(
                        rendered@,
                    )) as u64,
                    search_proxy_raw_bytes: (old(tel).search_proxy_raw_bytes + raw_bytes) as u64,
                    ..*old(tel)
                }
            },
            SearchResult::PassThrough => {
                &&& reply is None
                &&& *final(registry) == *old(registry)
                &&& *final(tel) == ProxyTelemetry {
                    search_proxy_build_pass_throughs: (old(tel).search_proxy_build_pass_throughs
                        + 1) as u32,
                    ..*old(tel)
                }
            },
            SearchResult::RunFailed => {
                &&& reply is None
                &&& *final(registry) == *old(registry)
                &&& *final(tel) == *old(tel)
            },
        },
{
    match result {
        SearchResult::Substitute { rendered, raw_bytes } => {
            set_insert(registry, key.clone());
            let compact: usize = rendered.as_str().len();
            tel.search_proxy_substitutions = tel.search_proxy_substitutions + 1;
            tel.search_proxy_compact_bytes = tel.search_proxy_compact_bytes + compact as u64;
            tel.search_proxy_raw_bytes = tel.search_proxy_raw_bytes + raw_bytes as u64;
            Some(rendered)
        },
        SearchResult::PassThrough => {
            tel.search_proxy_build_pass_throughs = tel.search_proxy_build_pass_throughs + 1;
            None
        },
        SearchResult::RunFailed => None,
    }
}

/// Repeating a search once it has been substituted lets the raw command
/// run: after `search_record` substitutes for `key`, an enabled proxy does
/// not run the search again for a command normalized as `key`.
pub proof fn lemma_substituted_search_runs_raw_when_repeated(
    key: Seq<char>,
    substituted: Set<Seq<char>>,
)
    ensures
        !search_next(true, Some(key), substituted.insert(key)),
{
}

} // verus!
