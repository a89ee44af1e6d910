//! Token costs of context items and choice of candidates under a token
//! budget.
use vstd::prelude::*;

use crate::harness::packet::{sat_add, ContextItemKind, RenderLevel, TokenBudget};

verus! {

/// Fits candidates under a token budget.
pub struct ContextBudgeter;

/// Prompt tokens an item costs at its render level: a base per level plus a
/// quarter of its path's byte length (and of its reason's for full items).
pub open spec fn spec_render_tokens(path_bytes: usize, reason_bytes: usize, level: RenderLevel) -> u32 {
    let p = (path_bytes as u32) / 4;
    match level {
        RenderLevel::Full => (90 + p + (reason_bytes as u32) / 4) as u32,
        RenderLevel::Compact => (35 + p) as u32,
        RenderLevel::PathOnly => (10 + p) as u32,
        RenderLevel::HiddenDebugOnly => 0,
    }
}

/// The byte length of an optional path, 0 when absent.
pub open spec fn opt_len(path: Option<&str>) -> usize {
    match path {
        Some(p) => p.len(),
        None => 0,
    }
}

/// Prompt tokens of an item at its render level.
pub fn estimate_item_render_tokens(path: Option<&str>, reason: &str, level: RenderLevel) -> (r: u32)
    ensures
        r == spec_render_tokens(opt_len(path), reason.len(), level),
{
    let path_len: u32 = match path {
        Some(p) => p.len() as u32,
        None => 0,
    };
    match level {
        RenderLevel::Full => 90 + path_len / 4 + (reason.len() as u32) / 4,
        RenderLevel::Compact => 35 + path_len / 4,
        RenderLevel::PathOnly => 10 + path_len / 4,
        RenderLevel::HiddenDebugOnly => 0,
    }
}

/// The selection cost of an item kind.
pub open spec fn selection_cost(kind: ContextItemKind) -> u32 {
    match kind {
        ContextItemKind::RepoRule => 120,
        ContextItemKind::FileSnippet => 180,
        ContextItemKind::FileSummary => 90,
        _ => 80,
    }
}

/// Budget tokens of an item: its selection cost, its render cost and an
/// eighth of its path's byte length, saturating.
pub open spec fn spec_item_tokens(kind: ContextItemKind, path_bytes: usize, reason_bytes: usize, level: RenderLevel) -> u32 {
    sat_add(
        sat_add(selection_cost(kind), spec_render_tokens(path_bytes, reason_bytes, level)),
        (path_bytes as u32) / 8,
    )
}

/// Budget tokens of an item.
pub fn estimate_item_tokens(kind: ContextItemKind, path: Option<&str>, reason: &str, level: RenderLevel) -> (r: u32)
    ensures
        r == spec_item_tokens(kind, opt_len(path), reason.len(), level),
{
    let cost: u32 = match kind {
        ContextItemKind::RepoRule => 120,
        ContextItemKind::FileSnippet => 180,
        ContextItemKind::FileSummary => 90,
        _ => 80,
    };
    let path_len: u32 = match path {
        Some(p) => p.len() as u32,
        None => 0,
    };
    cost.saturating_add(estimate_item_render_tokens(path, reason, level)).saturating_add(path_len / 8)
}

/// Walks the candidates in order, taking each whose cost still fits
/// under the limit: which were taken, and the tokens used.
pub open spec fn budget_walk(costs: Seq<u32>, limit: u32) -> (Seq<bool>, u32)
    decreases costs.len(),
{
    if costs.len() == 0 {
        (Seq::empty(), 0)
    } else {
        let prev = budget_walk(costs.drop_last(), limit);
        let c = costs.last();
        if sat_add(prev.1, c) > limit {
            (prev.0.push(false), prev.1)
        } else {
            (prev.0.push(true), sat_add(prev.1, c))
        }
    }
}

/// Whatever is taken stays within the limit.
pub proof fn lemma_budget_within_limit(costs: Seq<u32>, limit: u32)
    ensures
        budget_walk(costs, limit).1 <= limit,
        budget_walk(costs, limit).0.len() == costs.len(),
    decreases costs.len(),
{
    if costs.len() > 0 {
        lemma_budget_within_limit(costs.drop_last(), limit);
    }
}

impl ContextBudgeter {
    /// Takes candidates in order while their costs fit under the budget;
    /// returns which were taken and the tokens used.
    pub fn fit_to_budget(costs: &Vec<u32>, budget: TokenBudget) -> (r: (Vec<bool>, u32))
        ensures
            r.0@ == budget_walk(costs@, budget.limit).0,
            r.1 == budget_walk(costs@, budget.limit).1,
            r.1 <= budget.limit,
    {
        let mut taken: Vec<bool> = Vec::new();
        let mut used: u32 = 0;
        let mut i: usize = 0;
        assert(costs@.take(0) =~= Seq::<u32>::empty());
        while i < costs.len()
            invariant
                i <= costs@.len(),
                (taken@, used) == budget_walk(costs@.take(i as int), budget.limit),
            decreases costs@.len() - i,
        {
            assert(costs@.take(i + 1).drop_last() =~= costs@.take(i as int));
            let c = costs[i];
            let next = used.saturating_add(c);
            if next > budget.limit {
                taken.push(false);
            } else {
                taken.push(true);
                used = next;
            }
            i = i + 1;
        }
        assert(costs@.take(costs@.len() as int) =~= costs@);
        proof {
            lemma_budget_within_limit(costs@, budget.limit);
        }
        (taken, used)
    }
}

} // verus!
