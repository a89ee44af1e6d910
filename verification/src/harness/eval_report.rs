//! The text rendering of a fixture evaluation: the averaged summary and,
//! per task, its metrics and what it missed or added.  Ratios arrive
//! already printed with two decimals.
use vstd::prelude::*;

use crate::harness::metrics::EvalDiagnostics;
use crate::text::{dec, join, join_strings, push_dec, push_str, str_views};

verus! {

/// One evaluated task, as the report shows it.
#[derive(Debug, Clone)]
pub struct EvalTaskView {
    pub task: String,
    pub recall: String,
    pub waste: String,
    pub tests: String,
    pub tokens: u32,
    pub bridge_recall: Option<String>,
    pub diagnostics: EvalDiagnostics,
}

/// A fixture evaluation, as the report shows it.
#[derive(Debug, Clone)]
pub struct EvalReportView {
    pub task_count: usize,
    pub avg_recall: String,
    pub avg_waste: String,
    pub avg_test_accuracy: String,
    pub avg_token_estimate: u32,
    pub avg_bridge_file_recall: Option<String>,
    pub tasks: Vec<EvalTaskView>,
}

/// The summary: task count, the averages, and the bridge recall when some
/// task had bridge files.
pub open spec fn summary_text(r: EvalReportView) -> Seq<char> {
    "task_count: "@ + dec(r.task_count as nat) + "\navg_recall: "@ + r.avg_recall@
        + "\navg_waste: "@ + r.avg_waste@ + "\navg_test_accuracy: "@ + r.avg_test_accuracy@
        + "\navg_token_estimate: "@ + dec(r.avg_token_estimate as nat) + match r.avg_bridge_file_recall {
        Some(b) => "\navg_bridge_file_recall: "@ + b@,
        None => Seq::empty(),
    }
}

/// Renders the summary.
pub fn render_eval_summary(report: &EvalReportView) -> (s: String)
    ensures
        s@ == summary_text(*report),
{
    let mut s = "task_count: ".to_owned();
    push_dec(&mut s, report.task_count as u64);
    push_str(&mut s, "\navg_recall: ");
    push_str(&mut s, report.avg_recall.as_str());
    push_str(&mut s, "\navg_waste: ");
    push_str(&mut s, report.avg_waste.as_str());
    push_str(&mut s, "\navg_test_accuracy: ");
    push_str(&mut s, report.avg_test_accuracy.as_str());
    push_str(&mut s, "\navg_token_estimate: ");
    push_dec(&mut s, report.avg_token_estimate as u64);
    match &report.avg_bridge_file_recall {
        Some(b) => {
            push_str(&mut s, "\navg_bridge_file_recall: ");
            push_str(&mut s, b.as_str());
        },
        None => {
            assert(s@ + Seq::<char>::empty() =~= s@);
        },
    }
    s
}

/// A titled list of paths: nothing when empty, else the title and one
/// `    - <path>` line per path.
pub open spec fn list_block(title: Seq<char>, paths: Seq<Seq<char>>) -> Seq<Seq<char>> {
    if paths.len() == 0 {
        Seq::empty()
    } else {
        seq![title] + paths.map_values(|p: Seq<char>| "    - "@ + p)
    }
}

/// The lines of one task: its metrics, the lists of what it missed or
/// added, and a blank line.
pub open spec fn task_lines(t: EvalTaskView) -> Seq<Seq<char>> {
    let d = t.diagnostics;
    seq![
        "Task: "@ + t.task@,
        "  Recall: "@ + t.recall@,
        "  Waste: "@ + t.waste@,
        "  Tests: "@ + t.tests@,
        "  Tokens: "@ + dec(t.tokens as nat),
    ] + match t.bridge_recall {
        Some(b) => seq!["  Bridge recall: "@ + b@],
        None => Seq::empty(),
    } + list_block("  Missed gold files:"@, str_views(d.missed_gold_files@)) + list_block(
        "  Missed bridge files:"@,
        str_views(d.missed_bridge_files@),
    ) + list_block("  Extra included files:"@, str_views(d.extra_included_files@)) + list_block(
        "  Missed gold tests:"@,
        str_views(d.missed_gold_tests@),
    ) + list_block("  Extra selected tests:"@, str_views(d.extra_selected_tests@)) + seq![
        Seq::<char>::empty(),
    ]
}

/// The lines of all tasks, in order.
pub open spec fn all_task_lines(ts: Seq<EvalTaskView>) -> Seq<Seq<char>>
    decreases ts.len(),
{
    if ts.len() == 0 {
        Seq::empty()
    } else {
        all_task_lines(ts.drop_last()) + task_lines(ts.last())
    }
}

fn push_line(lines: &mut Vec<String>, prefix: &str, text: &str)
    ensures
        str_views(final(lines)@) == str_views(old(lines)@).push(prefix@ + text@),
{
    let mut l = prefix.to_owned();
    push_str(&mut l, text);
    let ghost before = str_views(lines@);
    lines.push(l);
    assert(str_views(lines@) =~= before.push(prefix@ + text@));
}

fn push_list_block(lines: &mut Vec<String>, title: &str, paths: &Vec<String>)
    ensures
        str_views(final(lines)@) == str_views(old(lines)@) + list_block(title@, str_views(paths@)),
{
    let ghost start = str_views(lines@);
    if paths.len() == 0 {
        assert(start + list_block(title@, str_views(paths@)) =~= start);
        return;
    }
    lines.push(title.to_owned());
    let ghost mid = str_views(lines@);
    assert(mid =~= start + seq![title@]);
    let mut i: usize = 0;
    while i < paths.len()
        invariant
            i <= paths@.len(),
            str_views(lines@) == mid + str_views(paths@).take(i as int).map_values(
                |p: Seq<char>| "    - "@ + p,
            ),
        decreases paths@.len() - i,
    {
        push_line(lines, "    - ", paths[i].as_str());
        assert(str_views(paths@).take(i + 1).map_values(|p: Seq<char>| "    - "@ + p)
            =~= str_views(paths@).take(i as int).map_values(|p: Seq<char>| "    - "@ + p).push(
            "    - "@ + paths@[i as int]@,
        ));
        i = i + 1;
    }
    assert(str_views(paths@).take(paths@.len() as int) =~= str_views(paths@));
    assert(mid + str_views(paths@).map_values(|p: Seq<char>| "    - "@ + p) =~= start + list_block(
        title@,
        str_views(paths@),
    ));
}

/// The metric lines of a task: name, recall, waste, tests, tokens.
spec fn metric_lines(t: EvalTaskView) -> Seq<Seq<char>> {
    seq![
        "Task: "@ + t.task@,
        "  Recall: "@ + t.recall@,
        "  Waste: "@ + t.waste@,
        "  Tests: "@ + t.tests@,
        "  Tokens: "@ + dec(t.tokens as nat),
    ]
}

spec fn bridge_lines(t: EvalTaskView) -> Seq<Seq<char>> {
    match t.bridge_recall {
        Some(b) => seq!["  Bridge recall: "@ + b@],
        None => Seq::empty(),
    }
}

spec fn diagnostic_lines(t: EvalTaskView) -> Seq<Seq<char>> {
    let d = t.diagnostics;
    list_block("  Missed gold files:"@, str_views(d.missed_gold_files@)) + list_block(
        "  Missed bridge files:"@,
        str_views(d.missed_bridge_files@),
    ) + list_block("  Extra included files:"@, str_views(d.extra_included_files@)) + list_block(
        "  Missed gold tests:"@,
        str_views(d.missed_gold_tests@),
    ) + list_block("  Extra selected tests:"@, str_views(d.extra_selected_tests@))
}

proof fn lemma_task_lines_parts(t: EvalTaskView)
    ensures
        task_lines(t) =~= metric_lines(t) + bridge_lines(t) + diagnostic_lines(t) + seq![
            Seq::<char>::empty(),
        ],
{
}

fn push_task_lines(lines: &mut Vec<String>, t: &EvalTaskView)
    ensures
        str_views(final(lines)@) == str_views(old(lines)@) + task_lines(*t),
{
    let ghost start = str_views(lines@);
    push_line(lines, "Task: ", t.task.as_str());
    push_line(lines, "  Recall: ", t.recall.as_str());
    push_line(lines, "  Waste: ", t.waste.as_str());
    push_line(lines, "  Tests: ", t.tests.as_str());
    let mut tokens = "  Tokens: ".to_owned();
    push_dec(&mut tokens, t.tokens as u64);
    let ghost before_tokens = str_views(lines@);
    lines.push(tokens);
    assert(str_views(lines@) =~= before_tokens.push("  Tokens: "@ + dec(t.tokens as nat)));
    let ghost after_metrics = str_views(lines@);
    assert(after_metrics =~= start + metric_lines(*t));
    match &t.bridge_recall {
        Some(b) => push_line(lines, "  Bridge recall: ", b.as_str()),
        None => {},
    }
    let ghost after_bridge = str_views(lines@);
    assert(after_bridge =~= start + metric_lines(*t) + bridge_lines(*t));
    let d = &t.diagnostics;
    push_list_block(lines, "  Missed gold files:", &d.missed_gold_files);
    push_list_block(lines, "  Missed bridge files:", &d.missed_bridge_files);
    push_list_block(lines, "  Extra included files:", &d.extra_included_files);
    push_list_block(lines, "  Missed gold tests:", &d.missed_gold_tests);
    push_list_block(lines, "  Extra selected tests:", &d.extra_selected_tests);
    let ghost after_lists = str_views(lines@);
    assert(after_lists =~= after_bridge + diagnostic_lines(*t));
    lines.push(String::new());
    assert(str_views(lines@) =~= after_lists.push(Seq::<char>::empty()));
    proof {
        lemma_task_lines_parts(*t);
    }
    assert(str_views(lines@) =~= start + task_lines(*t));
}

/// Renders the evaluation: the summary, a blank line, then each task's
/// lines, all joined by newlines.
pub fn render_eval_human(report: &EvalReportView) -> (s: String)
    ensures
        s@ == join(
            seq![summary_text(*report), Seq::<char>::empty()] + all_task_lines(report.tasks@),
            "\n"@,
        ),
{
    let mut lines: Vec<String> = Vec::new();
    lines.push(render_eval_summary(report));
    lines.push(String::new());
    let ghost head = str_views(lines@);
    assert(head =~= seq![summary_text(*report), Seq::<char>::empty()]);
    let mut i: usize = 0;
    while i < report.tasks.len()
        invariant
            i <= report.tasks@.len(),
            str_views(lines@) == head + all_task_lines(report.tasks@.take(i as int)),
        decreases report.tasks@.len() - i,
    {
        let ghost before = str_views(lines@);
        push_task_lines(&mut lines, &report.tasks[i]);
        assert(report.tasks@.take(i + 1).drop_last() =~= report.tasks@.take(i as int));
        assert(report.tasks@.take(i + 1).last() == report.tasks@[i as int]);
        assert(head + all_task_lines(report.tasks@.take(i + 1)) =~= before + task_lines(
            report.tasks@[i as int],
        ));
        i = i + 1;
    }
    assert(report.tasks@.take(report.tasks@.len() as int) =~= report.tasks@);
    join_strings(&lines, "\n")
}

} // verus!
