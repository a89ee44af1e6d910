//! Context packet vocabulary: stages, item kinds and states, how much of an
//! item the prompt shows, the token budget, and the token estimates that
//! go with them.
use vstd::prelude::*;

use crate::harness::task_scope::TaskScope;
use crate::text::starts_with;

verus! {

/// Version of the context packet layout.
pub const CONTEXT_PACKET_VERSION: u32 = 1;

/// When in a run a packet is built.
#[derive(Debug, Clone, Copy, PartialEq, Eq)]
pub enum ContextStage {
    Preflight,
    PostInspection,
    PreEdit,
    PostEdit,
    PostFailure,
}

/// What a context item holds.
#[derive(Debug, Clone, Copy, PartialEq, Eq, Structural)]
pub enum ContextItemKind {
    TaskSummary,
    RepoRule,
    FileSummary,
    FileSnippet,
    SymbolDefinition,
    CallSite,
    TestFile,
    RecentDiff,
    CommandOutput,
    RunMemory,
}

/// How much of an included item appears in the model-visible prompt.
#[derive(Debug, Clone, Copy, PartialEq, Eq)]
pub enum RenderLevel {
    Full,
    Compact,
    PathOnly,
    HiddenDebugOnly,
}

impl Default for RenderLevel {
    fn default() -> (r: Self)
        ensures
            r == RenderLevel::Full,
    {
        RenderLevel::Full
    }
}

/// Where a context item stands in selection.
#[derive(Debug, Clone, Copy, PartialEq, Eq)]
pub enum ContextItemState {
    Candidate,
    Included,
    Pinned,
    Compressed,
    Dropped,
    Stale,
}

/// The packet's token budget and how much of it the prompt uses.
#[derive(Debug, Clone, PartialEq, Eq)]
pub struct TokenBudgetInfo {
    pub limit: u32,
    pub used_estimate: u32,
}

/// The token budget for a packet.
#[derive(Debug, Clone, Copy)]
pub struct TokenBudget {
    pub limit: u32,
}

impl Default for TokenBudget {
    fn default() -> (b: Self)
        ensures
            b.limit == 12_000,
    {
        TokenBudget { limit: 12_000 }
    }
}

/// Prompt order of render levels: fuller renderings first.
pub open spec fn spec_render_level_rank(level: RenderLevel) -> u8 {
    match level {
        RenderLevel::Full => 0,
        RenderLevel::Compact => 1,
        RenderLevel::PathOnly => 2,
        RenderLevel::HiddenDebugOnly => 3,
    }
}

/// Fuller render levels come first in the prompt: full before compact
/// before path-only before hidden, each with its own rank.
pub proof fn lemma_render_level_order()
    ensures
        spec_render_level_rank(RenderLevel::Full) < spec_render_level_rank(RenderLevel::Compact),
        spec_render_level_rank(RenderLevel::Compact) < spec_render_level_rank(RenderLevel::PathOnly),
        spec_render_level_rank(RenderLevel::PathOnly) < spec_render_level_rank(
            RenderLevel::HiddenDebugOnly,
        ),
        spec_render_level_rank(RenderLevel::Full) == 0,
{
}

/// The prompt order of a render level.
pub fn render_level_rank(level: RenderLevel) -> (r: u8)
    ensures
        r == spec_render_level_rank(level),
{
    match level {
        RenderLevel::Full => 0,
        RenderLevel::Compact => 1,
        RenderLevel::PathOnly => 2,
        RenderLevel::HiddenDebugOnly => 3,
    }
}

/// `a + b`, or `u32::MAX` when the sum does not fit.
pub open spec fn sat_add(a: u32, b: u32) -> u32 {
    if a + b > u32::MAX {
        u32::MAX
    } else {
        (a + b) as u32
    }
}

/// The prompt-token estimate of a rendered fragment: a quarter of its byte
/// length, plus 24 per selected test, 16 per warning and 80 fixed, each
/// addition saturating.
pub open spec fn spec_estimate_prompt_tokens(bytes: usize, test_count: usize, warning_count: usize) -> u32 {
    sat_add(
        sat_add(sat_add((bytes as u32) / 4, ((test_count as u32) * 24) as u32), ((warning_count as u32) * 16) as u32),
        80,
    )
}

/// Estimates the prompt tokens of a fragment with its tests and warnings.
pub fn estimate_prompt_tokens(fragment: &str, test_count: usize, warning_count: usize) -> (r: u32)
    requires
        (test_count as u32) * 24 <= u32::MAX,
        (warning_count as u32) * 16 <= u32::MAX,
    ensures
        r == spec_estimate_prompt_tokens(fragment.len(), test_count, warning_count),
{
    let base: u32 = fragment.len() as u32 / 4;
    let tests: u32 = test_count as u32 * 24;
    let warnings: u32 = warning_count as u32 * 16;
    base.saturating_add(tests).saturating_add(warnings).saturating_add(80)
}

/// The render level of a bridge file: the CLI bridge is compact when a
/// command was matched, `core/` files are path-only, and otherwise compact
/// only for an area-plus-bridge task with a matched command.
pub open spec fn spec_bridge_render_level(path: Seq<char>, scope: TaskScope, command_primary: bool) -> RenderLevel {
    if path == "cli/src/context_cmd.rs"@ && command_primary {
        RenderLevel::Compact
    } else if starts_with(path, "core/"@) {
        RenderLevel::PathOnly
    } else if scope == TaskScope::AreaPlusBridge && command_primary {
        RenderLevel::Compact
    } else {
        RenderLevel::PathOnly
    }
}

/// The render level of a bridge file.
pub fn bridge_render_level(path: &str, scope: TaskScope, command_primary: bool) -> (r: RenderLevel)
    ensures
        r == spec_bridge_render_level(path@, scope, command_primary),
{
    if crate::text::str_eq(path, "cli/src/context_cmd.rs") && command_primary {
        return RenderLevel::Compact;
    }
    if crate::text::str_starts_with(path, "core/") {
        return RenderLevel::PathOnly;
    }
    match scope {
        TaskScope::AreaPlusBridge => {
            if command_primary {
                RenderLevel::Compact
            } else {
                RenderLevel::PathOnly
            }
        },
        _ => RenderLevel::PathOnly,
    }
}

/// Whether an item of the given state, kind and render level shows in the
/// prompt's list of `wanted` items: it is included or pinned, of that kind,
/// and not hidden from the prompt.
pub open spec fn spec_prompt_visible_item(
    state: ContextItemState,
    kind: ContextItemKind,
    level: RenderLevel,
    wanted: ContextItemKind,
) -> bool {
    (state == ContextItemState::Included || state == ContextItemState::Pinned) && kind == wanted
        && level != RenderLevel::HiddenDebugOnly
}

/// Whether an item shows in the prompt's list of `wanted` items (see
/// [`spec_prompt_visible_item`]).
pub fn prompt_visible_item(
    state: ContextItemState,
    kind: ContextItemKind,
    level: RenderLevel,
    wanted: ContextItemKind,
) -> (r: bool)
    ensures
        r == spec_prompt_visible_item(state, kind, level, wanted),
{
    let shown_state = match state {
        ContextItemState::Included | ContextItemState::Pinned => true,
        _ => false,
    };
    let shown_level = match level {
        RenderLevel::HiddenDebugOnly => false,
        _ => true,
    };
    shown_state && kind == wanted && shown_level
}

/// The packet's warnings with the likely area in front: when an area was
/// found and no warning already starts with `Likely area:`, the warning
/// `Likely area: <area>` comes first; otherwise the warnings are unchanged.
pub open spec fn spec_with_likely_area(ws: Seq<Seq<char>>, area: Option<Seq<char>>) -> Seq<
    Seq<char>,
> {
    match area {
        Some(a) => if exists|i: int| 0 <= i < ws.len() && starts_with(#[trigger] ws[i], "Likely area:"@) {
            ws
        } else {
            seq!["Likely area: "@ + a] + ws
        },
        None => ws,
    }
}

/// Puts the likely-area warning in front (see [`spec_with_likely_area`]).
pub fn with_likely_area(warnings: Vec<String>, area: Option<&str>) -> (out: Vec<String>)
    ensures
        crate::text::str_views(out@) == spec_with_likely_area(
            crate::text::str_views(warnings@),
            match area {
                Some(a) => Some(a@),
                None => None,
            },
        ),
{
    let ghost wv = crate::text::str_views(warnings@);
    match area {
        None => warnings,
        Some(a) => {
            let mut i: usize = 0;
            while i < warnings.len()
                invariant
                    i <= warnings@.len(),
                    wv == crate::text::str_views(warnings@),
                    forall|j: int| 0 <= j < i ==> !starts_with(#[trigger] wv[j], "Likely area:"@),
                decreases warnings@.len() - i,
            {
                if crate::text::str_starts_with(warnings[i].as_str(), "Likely area:") {
                    assert(starts_with(wv[i as int], "Likely area:"@));
                    return warnings;
                }
                i = i + 1;
            }
            let mut line = "Likely area: ".to_owned();
            crate::text::push_str(&mut line, a);
            let mut out: Vec<String> = Vec::new();
            out.push(line);
            crate::text::append_strings(&mut out, &warnings);
            assert(crate::text::str_views(out@) =~= seq!["Likely area: "@ + a@] + wv);
            out
        },
    }
}

} // verus!
