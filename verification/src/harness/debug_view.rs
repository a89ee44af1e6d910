//! The human-readable debug rendering of a context packet, and the count of
//! the warnings that reach the prompt.
use vstd::prelude::*;

use crate::harness::packet::ContextStage;
use crate::harness::renderer::ContextPacketRenderer;
use crate::text::{dec, join, join_strings, push_dec, push_str, starts_with, str_starts_with};

verus! {

/// One entry of a packet's decision log, as the debug view reads it.
#[derive(Debug, Clone)]
pub struct LogEntry {
    pub path: Option<String>,
    pub reason: String,
}

/// What the debug view reads of a context packet.  `confidence` is the
/// task classification's confidence already printed with two decimals.
#[derive(Debug, Clone)]
pub struct DebugPacket {
    pub version: u32,
    pub task: String,
    pub task_type: String,
    pub confidence: String,
    pub stage: ContextStage,
    pub used_estimate: u32,
    pub limit: u32,
    pub included: Vec<LogEntry>,
    pub dropped: Vec<LogEntry>,
    pub budget_exhausted: Vec<LogEntry>,
    pub low_confidence: Vec<LogEntry>,
}

/// The name of a stage.
pub open spec fn stage_name(stage: ContextStage) -> Seq<char> {
    match stage {
        ContextStage::Preflight => "Preflight"@,
        ContextStage::PostInspection => "PostInspection"@,
        ContextStage::PreEdit => "PreEdit"@,
        ContextStage::PostEdit => "PostEdit"@,
        ContextStage::PostFailure => "PostFailure"@,
    }
}

fn stage_name_exec(stage: ContextStage) -> (r: &'static str)
    ensures
        r@ == stage_name(stage),
{
    match stage {
        ContextStage::Preflight => "Preflight",
        ContextStage::PostInspection => "PostInspection",
        ContextStage::PreEdit => "PreEdit",
        ContextStage::PostEdit => "PostEdit",
        ContextStage::PostFailure => "PostFailure",
    }
}

/// One log line: the bullet, the path (`-` without one), `: ` and the
/// reason.
pub open spec fn entry_line(e: LogEntry, bullet: Seq<char>) -> Seq<char> {
    bullet + match e.path {
        Some(p) => p@,
        None => "-"@,
    } + ": "@ + e.reason@
}

/// The log lines of the entries, in order.
pub open spec fn entry_lines(es: Seq<LogEntry>, bullet: Seq<char>) -> Seq<Seq<char>> {
    es.map_values(|e: LogEntry| entry_line(e, bullet))
}

/// A titled section of the log: a blank line, the title, the entries.
pub open spec fn section(title: Seq<char>, es: Seq<LogEntry>, bullet: Seq<char>) -> Seq<Seq<char>> {
    seq![Seq::empty(), title] + entry_lines(es, bullet)
}

/// The header lines: version, task, stage, budget and log counts.
pub open spec fn header_lines(p: DebugPacket) -> Seq<Seq<char>> {
    seq![
        "Context packet v"@ + dec(p.version as nat),
        "Task: "@ + p.task@ + " ["@ + p.task_type@ + "] (confidence "@ + p.confidence@ + ")"@,
        "Stage: "@ + stage_name(p.stage),
        "Token budget: "@ + dec(p.used_estimate as nat) + "/"@ + dec(p.limit as nat),
        "Included items: "@ + dec(p.included@.len()) + " | dropped: "@ + dec(p.dropped@.len())
            + " | budget exhausted: "@ + dec(p.budget_exhausted@.len()) + " | low confidence: "@
            + dec(p.low_confidence@.len()),
    ]
}

/// The lines of the debug view: the header, the included and dropped
/// entries, and the budget-exhausted and low-confidence entries when there
/// are any.
pub open spec fn debug_lines(p: DebugPacket) -> Seq<Seq<char>> {
    header_lines(p) + section("Included:"@, p.included@, "  + "@) + section(
        "Dropped:"@,
        p.dropped@,
        "  - "@,
    ) + (if p.budget_exhausted@.len() > 0 {
        section("Budget exhausted:"@, p.budget_exhausted@, "  ! "@)
    } else {
        Seq::empty()
    }) + (if p.low_confidence@.len() > 0 {
        section("Low confidence:"@, p.low_confidence@, "  ? "@)
    } else {
        Seq::empty()
    })
}

/// Appends the log lines of the entries.
fn push_entry_lines(lines: &mut Vec<String>, es: &Vec<LogEntry>, bullet: &str)
    ensures
        crate::text::str_views(final(lines)@) == crate::text::str_views(old(lines)@)
            + entry_lines(es@, bullet@),
{
    let ghost start = crate::text::str_views(lines@);
    let mut i: usize = 0;
    while i < es.len()
        invariant
            i <= es@.len(),
            crate::text::str_views(lines@) == start + entry_lines(es@.take(i as int), bullet@),
        decreases es@.len() - i,
    {
        let mut line = bullet.to_owned();
        match &es[i].path {
            Some(p) => push_str(&mut line, p.as_str()),
            None => push_str(&mut line, "-"),
        }
        push_str(&mut line, ": ");
        push_str(&mut line, es[i].reason.as_str());
        let ghost before = crate::text::str_views(lines@);
        lines.push(line);
        assert(crate::text::str_views(lines@) =~= before.push(entry_line(es@[i as int], bullet@)));
        assert(entry_lines(es@.take(i + 1), bullet@) =~= entry_lines(es@.take(i as int), bullet@).push(
            entry_line(es@[i as int], bullet@),
        ));
        i = i + 1;
    }
    assert(es@.take(es@.len() as int) =~= es@);
}

/// Appends a titled section.
fn push_section(lines: &mut Vec<String>, title: &str, es: &Vec<LogEntry>, bullet: &str)
    ensures
        crate::text::str_views(final(lines)@) == crate::text::str_views(old(lines)@) + section(
            title@,
            es@,
            bullet@,
        ),
{
    let ghost start = crate::text::str_views(lines@);
    lines.push(String::new());
    lines.push(title.to_owned());
    assert(crate::text::str_views(lines@) =~= start + seq![Seq::<char>::empty(), title@]);
    push_entry_lines(lines, es, bullet);
    assert(start + seq![Seq::<char>::empty(), title@] + entry_lines(es@, bullet@) =~= start
        + section(title@, es@, bullet@));
}

impl ContextPacketRenderer {
    /// Renders the packet's debug view: the lines of [`debug_lines`] joined
    /// by newlines.
    pub fn render_human_debug(packet: &DebugPacket) -> (out: String)
        ensures
            out@ == join(debug_lines(*packet), "\n"@),
    {
        let mut lines: Vec<String> = Vec::new();
        let mut l0 = "Context packet v".to_owned();
        push_dec(&mut l0, packet.version as u64);
        lines.push(l0);
        let mut l1 = "Task: ".to_owned();
        push_str(&mut l1, packet.task.as_str());
        push_str(&mut l1, " [");
        push_str(&mut l1, packet.task_type.as_str());
        push_str(&mut l1, "] (confidence ");
        push_str(&mut l1, packet.confidence.as_str());
        push_str(&mut l1, ")");
        lines.push(l1);
        let mut l2 = "Stage: ".to_owned();
        push_str(&mut l2, stage_name_exec(packet.stage));
        lines.push(l2);
        let mut l3 = "Token budget: ".to_owned();
        push_dec(&mut l3, packet.used_estimate as u64);
        push_str(&mut l3, "/");
        push_dec(&mut l3, packet.limit as u64);
        lines.push(l3);
        let mut l4 = "Included items: ".to_owned();
        push_dec(&mut l4, packet.included.len() as u64);
        push_str(&mut l4, " | dropped: ");
        push_dec(&mut l4, packet.dropped.len() as u64);
        push_str(&mut l4, " | budget exhausted: ");
        push_dec(&mut l4, packet.budget_exhausted.len() as u64);
        push_str(&mut l4, " | low confidence: ");
        push_dec(&mut l4, packet.low_confidence.len() as u64);
        lines.push(l4);
        assert(crate::text::str_views(lines@) =~= header_lines(*packet));
        push_section(&mut lines, "Included:", &packet.included, "  + ");
        push_section(&mut lines, "Dropped:", &packet.dropped, "  - ");
        let ghost mid = crate::text::str_views(lines@);
        if packet.budget_exhausted.len() > 0 {
            push_section(&mut lines, "Budget exhausted:", &packet.budget_exhausted, "  ! ");
        } else {
            assert(mid + Seq::<Seq<char>>::empty() =~= mid);
        }
        let ghost mid2 = crate::text::str_views(lines@);
        if packet.low_confidence.len() > 0 {
            push_section(&mut lines, "Low confidence:", &packet.low_confidence, "  ? ");
        } else {
            assert(mid2 + Seq::<Seq<char>>::empty() =~= mid2);
        }
        assert(crate::text::str_views(lines@) =~= debug_lines(*packet));
        join_strings(&lines, "\n")
    }
}

/// A warning that stays out of the prompt's warning count: the likely area
/// and the matched CLI command are shown elsewhere.
pub open spec fn is_routing_warning(w: Seq<char>) -> bool {
    starts_with(w, "Likely area:"@) || starts_with(w, "Matched CLI command:"@)
}

/// The number of warnings among the first `k` that the prompt shows.
pub open spec fn prompt_warning_count_upto(ws: Seq<Seq<char>>, k: int) -> nat
    decreases k,
{
    if k <= 0 {
        0
    } else {
        prompt_warning_count_upto(ws, k - 1) + if is_routing_warning(ws[k - 1]) {
            0nat
        } else {
            1nat
        }
    }
}

/// How many of the packet's warnings count toward the prompt estimate.
pub fn prompt_warning_count(warnings: &Vec<String>) -> (r: usize)
    ensures
        r == prompt_warning_count_upto(
            crate::text::str_views(warnings@),
            warnings@.len() as int,
        ),
{
    let ghost ws = crate::text::str_views(warnings@);
    let mut n: usize = 0;
    let mut i: usize = 0;
    while i < warnings.len()
        invariant
            i <= warnings@.len(),
            ws == crate::text::str_views(warnings@),
            n == prompt_warning_count_upto(ws, i as int),
            n <= i,
        decreases warnings@.len() - i,
    {
        let w = warnings[i].as_str();
        if !(str_starts_with(w, "Likely area:") || str_starts_with(w, "Matched CLI command:")) {
            n = n + 1;
        }
        i = i + 1;
    }
    n
}

} // verus!
