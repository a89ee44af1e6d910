//! How much of each selected item the prompt shows.
//!
//! File summaries and repository rules that were included or pinned are
//! walked in rank order (relevance first, then path; the ranking itself is
//! the caller's, as relevance is a float).  Bridge files get the level their
//! role calls for; the others fill the full slots, then the compact slots,
//! and are shown by path only after that.  Items that are neither included
//! nor pinned are hidden from the prompt.
use vstd::prelude::*;

use crate::harness::packet::{
    bridge_render_level, spec_bridge_render_level, ContextItemKind, ContextItemState, RenderLevel,
};
use crate::harness::task_scope::{is_bridge_path, spec_is_bridge_path, ResolvedOwnership};
use crate::sorted::member;
use crate::text::str_views;

verus! {

/// What render-level assignment reads of a context item.
#[derive(Debug, Clone)]
pub struct LevelItem {
    pub state: ContextItemState,
    pub kind: ContextItemKind,
    pub path: Option<String>,
    pub render_level: RenderLevel,
}

/// An item the prompt can show: included or pinned.
pub open spec fn is_visible(state: ContextItemState) -> bool {
    state == ContextItemState::Included || state == ContextItemState::Pinned
}

/// An item that takes part in the ranking: a visible file summary or
/// repository rule.
pub open spec fn is_ranked(item: LevelItem) -> bool {
    is_visible(item.state) && (item.kind == ContextItemKind::FileSummary || item.kind
        == ContextItemKind::RepoRule)
}

/// The item's path, empty when it has none.
pub open spec fn path_of(item: LevelItem) -> Seq<char> {
    match item.path {
        Some(p) => p@,
        None => Seq::empty(),
    }
}

/// A bridge file: a path listed among the bridge paths, or a CLI bridge.
pub open spec fn is_bridge_item(own: ResolvedOwnership, path: Seq<char>) -> bool {
    path.len() > 0 && (str_views(own.bridge_paths@).to_set().contains(path) || spec_is_bridge_path(
        path,
    ))
}

/// The levels, and the full and compact slots used, after walking the first
/// `k` entries of the ranking.
pub open spec fn level_walk(
    items: Seq<LevelItem>,
    order: Seq<usize>,
    own: ResolvedOwnership,
    max_full: nat,
    max_compact: nat,
    k: int,
) -> (Seq<RenderLevel>, nat, nat)
    decreases k,
{
    if k <= 0 {
        (items.map_values(|it: LevelItem| it.render_level), 0, 0)
    } else {
        let (lv, full, compact) = level_walk(items, order, own, max_full, max_compact, k - 1);
        let idx = order[k - 1] as int;
        let item = items[idx];
        let p = path_of(item);
        if !is_ranked(item) {
            (lv, full, compact)
        } else if is_bridge_item(own, p) {
            (
                lv.update(
                    idx,
                    spec_bridge_render_level(p, own.task_scope, own.matched_command is Some),
                ),
                full,
                compact,
            )
        } else if full < max_full {
            (lv.update(idx, RenderLevel::Full), full + 1, compact)
        } else if compact < max_compact {
            (lv.update(idx, RenderLevel::Compact), full, compact + 1)
        } else if p.len() == 0 {
            (lv.update(idx, RenderLevel::Compact), full, compact)
        } else {
            (lv.update(idx, RenderLevel::PathOnly), full, compact)
        }
    }
}

/// The level of every item: hidden when not visible, else what the walk of
/// the whole ranking gave it (its own level when the walk left it alone).
pub open spec fn assigned_levels(
    items: Seq<LevelItem>,
    order: Seq<usize>,
    own: ResolvedOwnership,
    max_full: nat,
    max_compact: nat,
) -> Seq<RenderLevel> {
    let walked = level_walk(items, order, own, max_full, max_compact, order.len() as int).0;
    Seq::new(
        items.len(),
        |i: int|
            if is_visible(items[i].state) {
                walked[i]
            } else {
                RenderLevel::HiddenDebugOnly
            },
    )
}

/// Assigns render levels.  `order` ranks item indices (relevance
/// descending, then path); the result has one level per item.
pub fn assign_render_levels(
    items: &Vec<LevelItem>,
    order: &Vec<usize>,
    ownership: &ResolvedOwnership,
    max_full: usize,
    max_compact: usize,
) -> (levels: Vec<RenderLevel>)
    requires
        forall|j: int| 0 <= j < order@.len() ==> (#[trigger] order@[j]) < items@.len(),
    ensures
        levels@ == assigned_levels(
            items@,
            order@,
            *ownership,
            max_full as nat,
            max_compact as nat,
        ),
{
    let mut levels: Vec<RenderLevel> = Vec::new();
    let mut i: usize = 0;
    while i < items.len()
        invariant
            i <= items@.len(),
            levels@ == items@.take(i as int).map_values(|it: LevelItem| it.render_level),
        decreases items@.len() - i,
    {
        levels.push(items[i].render_level);
        assert(levels@ =~= items@.take(i + 1).map_values(|it: LevelItem| it.render_level));
        i = i + 1;
    }
    assert(items@.take(items@.len() as int) =~= items@);
    let bridge_primary = ownership.matched_command.is_some();
    let primary: Option<&str> = match &ownership.primary_area {
        Some(a) => Some(a.as_str()),
        None => None,
    };
    let mut full: usize = 0;
    let mut compact: usize = 0;
    let mut k: usize = 0;
    while k < order.len()
        invariant
            k <= order@.len(),
            forall|j: int| 0 <= j < order@.len() ==> (#[trigger] order@[j]) < items@.len(),
            levels@.len() == items@.len(),
            bridge_primary == ownership.matched_command is Some,
            (levels@, full as nat, compact as nat) == level_walk(
                items@,
                order@,
                *ownership,
                max_full as nat,
                max_compact as nat,
                k as int,
            ),
        decreases order@.len() - k,
    {
        let idx = order[k];
        assert(order@[k as int] < items@.len());
        let item = &items[idx];
        let visible = match item.state {
            ContextItemState::Included | ContextItemState::Pinned => true,
            _ => false,
        };
        let ranked_kind = match item.kind {
            ContextItemKind::FileSummary | ContextItemKind::RepoRule => true,
            _ => false,
        };
        if visible && ranked_kind {
            let path: &str = match &item.path {
                Some(p) => p.as_str(),
                None => "",
            };
            proof {
                reveal_strlit("");
            }
            assert(path@ == path_of(*item));
            let bridge = !path.is_empty() && (member(&ownership.bridge_paths, path)
                || is_bridge_path(path, primary));
            if bridge {
                let level = bridge_render_level(path, ownership.task_scope, bridge_primary);
                levels.set(idx, level);
            } else if full < max_full {
                full = full + 1;
                levels.set(idx, RenderLevel::Full);
            } else if compact < max_compact {
                compact = compact + 1;
                levels.set(idx, RenderLevel::Compact);
            } else if path.is_empty() {
                levels.set(idx, RenderLevel::Compact);
            } else {
                levels.set(idx, RenderLevel::PathOnly);
            }
        }
        k = k + 1;
    }
    let ghost walked = levels@;
    let mut i: usize = 0;
    while i < items.len()
        invariant
            i <= items@.len(),
            levels@.len() == items@.len(),
            walked.len() == items@.len(),
            walked == level_walk(
                items@,
                order@,
                *ownership,
                max_full as nat,
                max_compact as nat,
                order@.len() as int,
            ).0,
            forall|j: int|
                0 <= j < i ==> #[trigger] levels@[j] == if is_visible(items@[j].state) {
                    walked[j]
                } else {
                    RenderLevel::HiddenDebugOnly
                },
            forall|j: int| i <= j < items@.len() ==> #[trigger] levels@[j] == walked[j],
        decreases items@.len() - i,
    {
        let visible = match items[i].state {
            ContextItemState::Included | ContextItemState::Pinned => true,
            _ => false,
        };
        if !visible {
            levels.set(i, RenderLevel::HiddenDebugOnly);
        }
        i = i + 1;
    }
    assert(levels@ =~= assigned_levels(
        items@,
        order@,
        *ownership,
        max_full as nat,
        max_compact as nat,
    ));
    levels
}

} // verus!
