//! Gold labels for evaluation tasks and the diagnostics of a packet against
//! them: which gold files and tests were missed and what was included
//! beyond them.
use vstd::prelude::*;

use crate::harness::packet::{ContextItemState, RenderLevel};
use crate::text::str_views;

verus! {

/// Gold labels of an evaluation task.
#[derive(Debug, Clone)]
pub struct EvalLabels {
    pub relevant_files: Vec<String>,
    pub relevant_tests: Vec<String>,
    pub bridge_files: Vec<String>,
}

impl Default for EvalLabels {
    fn default() -> (l: Self)
        ensures
            l.relevant_files@.len() == 0,
            l.relevant_tests@.len() == 0,
            l.bridge_files@.len() == 0,
    {
        EvalLabels { relevant_files: Vec::new(), relevant_tests: Vec::new(), bridge_files: Vec::new() }
    }
}

/// What a packet missed and what it added beyond the labels.
#[derive(Debug, Clone, PartialEq, Eq)]
pub struct EvalDiagnostics {
    pub missed_gold_files: Vec<String>,
    pub extra_included_files: Vec<String>,
    pub missed_gold_tests: Vec<String>,
    pub extra_selected_tests: Vec<String>,
    pub missed_bridge_files: Vec<String>,
    pub extra_bridge_rendered: Vec<String>,
}

/// A context item as the diagnostics read it.
#[derive(Debug, Clone, PartialEq)]
pub struct PacketItemView {
    pub path: Option<String>,
    pub state: ContextItemState,
    pub render_level: RenderLevel,
}

/// A context packet as the diagnostics read it.
#[derive(Debug, Clone, PartialEq)]
pub struct PacketView {
    pub items: Vec<PacketItemView>,
    /// Paths of the selected tests, in order.
    pub selected_tests: Vec<String>,
}

/// Evaluates packets against gold labels.
pub struct Metrics;

/// The predicate "is not one of `b`".
pub open spec fn absent_from(b: Seq<Seq<char>>) -> spec_fn(Seq<char>) -> bool {
    |x: Seq<char>| !b.contains(x)
}

/// The paths of included items, in item order.
pub open spec fn included_paths(items: Seq<PacketItemView>) -> Seq<Seq<char>>
    decreases items.len(),
{
    if items.len() == 0 {
        Seq::empty()
    } else {
        let it = items.last();
        included_paths(items.drop_last()) + if it.state == ContextItemState::Included
            && it.path is Some {
            seq![it.path->0@]
        } else {
            Seq::empty()
        }
    }
}

/// The paths of items that are bridge files and visible in the prompt, in
/// item order.
pub open spec fn bridge_rendered(items: Seq<PacketItemView>, bridge: Seq<Seq<char>>) -> Seq<Seq<char>>
    decreases items.len(),
{
    if items.len() == 0 {
        Seq::empty()
    } else {
        let it = items.last();
        bridge_rendered(items.drop_last(), bridge) + if it.path is Some && bridge.contains(
            it.path->0@,
        ) && it.render_level != RenderLevel::HiddenDebugOnly {
            seq![it.path->0@]
        } else {
            Seq::empty()
        }
    }
}

/// The strings of `a` that are not in `b`, in order.
pub fn filter_not_in(a: &Vec<String>, b: &Vec<String>) -> (out: Vec<String>)
    ensures
        str_views(out@) == str_views(a@).filter(absent_from(str_views(b@))),
{
    let ghost av = str_views(a@);
    let ghost pred = absent_from(str_views(b@));
    let mut out: Vec<String> = Vec::new();
    let mut i: usize = 0;
    assert(av.take(0).filter(pred) =~= Seq::<Seq<char>>::empty()) by {
        reveal(Seq::filter);
    }
    assert(str_views(out@) =~= Seq::<Seq<char>>::empty());
    while i < a.len()
        invariant
            i <= a@.len(),
            av == str_views(a@),
            pred == absent_from(str_views(b@)),
            str_views(out@) == av.take(i as int).filter(pred),
        decreases a@.len() - i,
    {
        assert(av.take(i + 1) =~= av.take(i as int).push(av[i as int]));
        proof {
            av.take(i as int).lemma_filter_push(av[i as int], pred);
        }
        let ghost before = str_views(out@);
        if !crate::text::any_eq(b, a[i].as_str()) {
            out.push(a[i].clone());
            assert(str_views(out@) =~= before.push(av[i as int]));
        }
        i = i + 1;
    }
    assert(av.take(a@.len() as int) =~= av);
    out
}

/// The paths of the packet's included items.
pub fn packet_included_paths(packet: &PacketView) -> (out: Vec<String>)
    ensures
        str_views(out@) == included_paths(packet.items@),
{
    let mut out: Vec<String> = Vec::new();
    let mut i: usize = 0;
    assert(packet.items@.take(0) =~= Seq::<PacketItemView>::empty());
    assert(str_views(out@) =~= Seq::<Seq<char>>::empty());
    while i < packet.items.len()
        invariant
            i <= packet.items@.len(),
            str_views(out@) == included_paths(packet.items@.take(i as int)),
        decreases packet.items@.len() - i,
    {
        assert(packet.items@.take(i + 1).drop_last() =~= packet.items@.take(i as int));
        let ghost before = str_views(out@);
        let it = &packet.items[i];
        let is_included = match it.state {
            ContextItemState::Included => true,
            _ => false,
        };
        if is_included {
            match &it.path {
                Some(p) => {
                    out.push(p.clone());
                    assert(str_views(out@) =~= before + seq![p@]);
                },
                None => {
                    assert(str_views(out@) =~= before + Seq::<Seq<char>>::empty());
                },
            }
        } else {
            assert(str_views(out@) =~= before + Seq::<Seq<char>>::empty());
        }
        i = i + 1;
    }
    assert(packet.items@.take(packet.items@.len() as int) =~= packet.items@);
    out
}

fn bridge_rendered_paths(packet: &PacketView, bridge: &Vec<String>) -> (out: Vec<String>)
    ensures
        str_views(out@) == bridge_rendered(packet.items@, str_views(bridge@)),
{
    let mut out: Vec<String> = Vec::new();
    let mut i: usize = 0;
    assert(packet.items@.take(0) =~= Seq::<PacketItemView>::empty());
    assert(str_views(out@) =~= Seq::<Seq<char>>::empty());
    while i < packet.items.len()
        invariant
            i <= packet.items@.len(),
            str_views(out@) == bridge_rendered(packet.items@.take(i as int), str_views(bridge@)),
        decreases packet.items@.len() - i,
    {
        assert(packet.items@.take(i + 1).drop_last() =~= packet.items@.take(i as int));
        let ghost before = str_views(out@);
        let it = &packet.items[i];
        let hidden = match it.render_level {
            RenderLevel::HiddenDebugOnly => true,
            _ => false,
        };
        match &it.path {
            Some(p) => {
                if crate::text::any_eq(bridge, p.as_str()) && !hidden {
                    out.push(p.clone());
                    assert(str_views(out@) =~= before + seq![p@]);
                } else {
                    assert(str_views(out@) =~= before + Seq::<Seq<char>>::empty());
                }
            },
            None => {
                assert(str_views(out@) =~= before + Seq::<Seq<char>>::empty());
            },
        }
        i = i + 1;
    }
    assert(packet.items@.take(packet.items@.len() as int) =~= packet.items@);
    out
}

impl Metrics {
    /// Lists what the packet missed of the labels and what it added beyond
    /// them, each in the order of the list it comes from.
    pub fn diagnose(packet: &PacketView, labels: &EvalLabels) -> (d: EvalDiagnostics)
        ensures
            ({
                let included = included_paths(packet.items@);
                let selected = str_views(packet.selected_tests@);
                let gold = str_views(labels.relevant_files@);
                let tests = str_views(labels.relevant_tests@);
                let bridge = str_views(labels.bridge_files@);
                &&& str_views(d.missed_gold_files@) == gold.filter(absent_from(included))
                &&& str_views(d.extra_included_files@) == included.filter(absent_from(gold))
                &&& str_views(d.missed_gold_tests@) == tests.filter(absent_from(selected))
                &&& str_views(d.extra_selected_tests@) == selected.filter(absent_from(tests))
                &&& str_views(d.missed_bridge_files@) == bridge.filter(absent_from(included))
                &&& str_views(d.extra_bridge_rendered@) == bridge_rendered(packet.items@, bridge).filter(
                    absent_from(bridge),
                )
            }),
    {
        let included = packet_included_paths(packet);
        let rendered = bridge_rendered_paths(packet, &labels.bridge_files);
        EvalDiagnostics {
            missed_gold_files: filter_not_in(&labels.relevant_files, &included),
            extra_included_files: filter_not_in(&included, &labels.relevant_files),
            missed_gold_tests: filter_not_in(&labels.relevant_tests, &packet.selected_tests),
            extra_selected_tests: filter_not_in(&packet.selected_tests, &labels.relevant_tests),
            missed_bridge_files: filter_not_in(&labels.bridge_files, &included),
            extra_bridge_rendered: filter_not_in(&rendered, &labels.bridge_files),
        }
    }
}

/// Rendered bridge files are bridge files, so none is ever reported as an
/// extra rendered bridge file.
pub proof fn lemma_no_extra_bridge_rendered(items: Seq<PacketItemView>, bridge: Seq<Seq<char>>)
    ensures
        bridge_rendered(items, bridge).filter(absent_from(bridge)).len() == 0,
    decreases items.len(),
{
    reveal(Seq::filter);
    if items.len() > 0 {
        lemma_no_extra_bridge_rendered(items.drop_last(), bridge);
        let prev = bridge_rendered(items.drop_last(), bridge);
        let it = items.last();
        if it.path is Some && bridge.contains(it.path->0@) && it.render_level
            != RenderLevel::HiddenDebugOnly {
            assert(bridge_rendered(items, bridge) =~= prev.push(it.path->0@));
            prev.lemma_filter_push(it.path->0@, absent_from(bridge));
        } else {
            assert(bridge_rendered(items, bridge) =~= prev);
        }
    }
}

/// How many entries of `items` are (`inside == true`) or are not
/// (`inside == false`) members of `pool`, repeats counted.
pub open spec fn count_membership(items: Seq<Seq<char>>, pool: Seq<Seq<char>>, inside: bool) -> nat
    decreases items.len(),
{
    if items.len() == 0 {
        0
    } else {
        count_membership(items.drop_last(), pool, inside) + if pool.contains(items.last())
            == inside {
            1nat
        } else {
            0nat
        }
    }
}

/// Counts the entries of `items` that are (or are not) in `pool`.
fn count_membership_exec(items: &Vec<String>, pool: &Vec<String>, inside: bool) -> (r: usize)
    ensures
        r == count_membership(str_views(items@), str_views(pool@), inside),
{
    let ghost iv = str_views(items@);
    let mut n: usize = 0;
    let mut i: usize = 0;
    while i < items.len()
        invariant
            i <= items@.len(),
            iv == str_views(items@),
            n == count_membership(iv.take(i as int), str_views(pool@), inside),
            n <= i,
        decreases items@.len() - i,
    {
        assert(iv.take(i + 1).drop_last() =~= iv.take(i as int));
        if crate::text::any_eq(pool, items[i].as_str()) == inside {
            n = n + 1;
        }
        i = i + 1;
    }
    assert(iv.take(iv.len() as int) =~= iv);
    n
}

/// The number of gold paths that were selected (the numerator of recall).
pub fn gold_hits(selected: &Vec<String>, gold: &Vec<String>) -> (r: usize)
    ensures
        r == count_membership(str_views(gold@), str_views(selected@), true),
{
    count_membership_exec(gold, selected, true)
}

/// The number of selected paths that are not gold (the numerator of waste).
pub fn irrelevant_selected(selected: &Vec<String>, gold: &Vec<String>) -> (r: usize)
    ensures
        r == count_membership(str_views(selected@), str_views(gold@), false),
{
    count_membership_exec(selected, gold, false)
}

} // verus!
