//! The human-readable rendering of an agent-evaluation report: a `Main`
//! table (did the treatment help) and a `Cost` table (at what price), each
//! grouped by task category with column widths shared across groups.
use vstd::prelude::*;

use crate::harness::agent_eval::{
    AgentEvalComparison, AgentEvalReport, AgentEvalResult, AgentRunInvalidReason, AgentRunScore,
    TaskCategory,
};
use crate::text::{
    chars_of, dec, fmt_u64, join, join_strings, push_dec, push_str, str_views, utf8_len,
    utf8_len_checked,
};

verus! {

// ---------------------------------------------------------------------------
// Cells
// ---------------------------------------------------------------------------

/// The placeholder for a missing value: an em dash.
pub open spec fn dash() -> Seq<char> {
    seq!['\u{2014}']
}

fn dash_string() -> (s: String)
    ensures
        s@ == dash(),
{
    let mut s = String::new();
    crate::text::push_char(&mut s, '\u{2014}');
    assert(s@ =~= dash());
    s
}

/// A count, or the dash when absent.
pub open spec fn cell_u32(o: Option<u32>) -> Seq<char> {
    match o {
        Some(v) => dec(v as nat),
        None => dash(),
    }
}

/// A count, or the dash when absent.
pub open spec fn cell_u64(o: Option<u64>) -> Seq<char> {
    match o {
        Some(v) => dec(v as nat),
        None => dash(),
    }
}

fn cell_u32_exec(o: Option<u32>) -> (s: String)
    ensures
        s@ == cell_u32(o),
{
    match o {
        Some(v) => fmt_u64(v as u64),
        None => dash_string(),
    }
}

fn cell_u64_exec(o: Option<u64>) -> (s: String)
    ensures
        s@ == cell_u64(o),
{
    match o {
        Some(v) => fmt_u64(v),
        None => dash_string(),
    }
}

/// `hit/total`, or the dash when the total is zero.
pub open spec fn ratio_cell(hit: usize, total: usize) -> Seq<char> {
    if total == 0 {
        dash()
    } else {
        dec(hit as nat) + "/"@ + dec(total as nat)
    }
}

fn ratio_cell_exec(hit: usize, total: usize) -> (s: String)
    ensures
        s@ == ratio_cell(hit, total),
{
    if total == 0 {
        dash_string()
    } else {
        let mut s = fmt_u64(hit as u64);
        push_str(&mut s, "/");
        push_dec(&mut s, total as u64);
        s
    }
}

/// Two decimal digits, zero-padded.
pub open spec fn two_digits(n: nat) -> Seq<char> {
    if n < 10 {
        "0"@ + dec(n)
    } else {
        dec(n)
    }
}

/// A duration in milliseconds: `S.Ds` below 100 seconds, else `MmSSs`;
/// the dash when absent.
pub open spec fn duration_text(value: Option<u64>) -> Seq<char> {
    match value {
        None => dash(),
        Some(ms) => {
            let seconds = ms as nat / 1000;
            if seconds < 100 {
                dec(seconds) + "."@ + dec((ms as nat % 1000) / 100) + "s"@
            } else {
                dec(seconds / 60) + "m"@ + two_digits(seconds % 60) + "s"@
            }
        },
    }
}

/// Formats a duration in milliseconds for a table cell.
pub fn duration_cell(value: Option<u64>) -> (s: String)
    ensures
        s@ == duration_text(value),
{
    match value {
        None => dash_string(),
        Some(ms) => {
            let seconds = ms / 1000;
            if seconds < 100 {
                let mut s = fmt_u64(seconds);
                push_str(&mut s, ".");
                push_dec(&mut s, (ms % 1000) / 100);
                push_str(&mut s, "s");
                s
            } else {
                let mut s = fmt_u64(seconds / 60);
                push_str(&mut s, "m");
                let rem = seconds % 60;
                if rem < 10 {
                    push_str(&mut s, "0");
                }
                push_dec(&mut s, rem);
                push_str(&mut s, "s");
                proof {
                    if rem < 10 {
                        assert(s@ =~= dec(seconds as nat / 60) + "m"@ + two_digits(rem as nat) + "s"@);
                    }
                }
                s
            }
        },
    }
}

/// The name of an optional invalid reason.
pub open spec fn reason_name(r: Option<AgentRunInvalidReason>) -> Option<Seq<char>> {
    match r {
        Some(x) => Some(x.label()),
        None => None,
    }
}

/// The `Valid?` cell of a pair that was not compared.
pub open spec fn invalid_cell(row: AgentEvalComparison) -> Seq<char> {
    let v = reason_name(row.vanilla.invalid_reason);
    let t = reason_name(row.treatment.invalid_reason);
    if v is Some && t is Some && v->0 == t->0 {
        "invalid: "@ + v->0
    } else if v is Some && t is Some {
        "invalid: vanilla "@ + v->0 + ", RI "@ + t->0
    } else if v is Some {
        "invalid: vanilla "@ + v->0
    } else if t is Some {
        "invalid: RI "@ + t->0
    } else {
        "invalid"@
    }
}

fn reason_name_exec(r: Option<AgentRunInvalidReason>) -> (s: Option<&'static str>)
    ensures
        match s {
            Some(x) => reason_name(r) == Some(x@),
            None => reason_name(r) is None,
        },
{
    match r {
        Some(x) => Some(crate::harness::agent_eval::invalid_reason_slug(x)),
        None => None,
    }
}

fn invalid_cell_exec(row: &AgentEvalComparison) -> (s: String)
    ensures
        s@ == invalid_cell(*row),
{
    let v = reason_name_exec(row.vanilla.invalid_reason);
    let t = reason_name_exec(row.treatment.invalid_reason);
    let mut s = String::new();
    match (v, t) {
        (Some(a), Some(b)) => {
            if crate::text::str_eq(a, b) {
                push_str(&mut s, "invalid: ");
                push_str(&mut s, a);
            } else {
                push_str(&mut s, "invalid: vanilla ");
                push_str(&mut s, a);
                push_str(&mut s, ", RI ");
                push_str(&mut s, b);
            }
        },
        (Some(a), None) => {
            push_str(&mut s, "invalid: vanilla ");
            push_str(&mut s, a);
        },
        (None, Some(b)) => {
            push_str(&mut s, "invalid: RI ");
            push_str(&mut s, b);
        },
        (None, None) => {
            push_str(&mut s, "invalid");
        },
    }
    s
}

/// The `Valid?` cell of a compared pair: `valid`, followed by the warnings
/// of the runs when there are any, prefixed by arm when the arms differ.
pub open spec fn valid_text(row: AgentEvalComparison) -> Seq<char> {
    let v = str_views(row.vanilla.warnings@);
    let t = str_views(row.treatment.warnings@);
    if v.len() == 0 && t.len() == 0 {
        "valid"@
    } else if v == t {
        "valid ("@ + join(v, "; "@) + ")"@
    } else {
        let parts = (if v.len() > 0 {
            seq!["V: "@ + join(v, "; "@)]
        } else {
            Seq::empty()
        }) + (if t.len() > 0 {
            seq!["RI: "@ + join(t, "; "@)]
        } else {
            Seq::empty()
        });
        "valid ("@ + join(parts, " / "@) + ")"@
    }
}

fn strings_eq(a: &Vec<String>, b: &Vec<String>) -> (r: bool)
    ensures
        r == (str_views(a@) == str_views(b@)),
{
    if a.len() != b.len() {
        return false;
    }
    let mut i: usize = 0;
    while i < a.len()
        invariant
            a@.len() == b@.len(),
            i <= a@.len(),
            forall|j: int| 0 <= j < i ==> a@[j]@ == b@[j]@,
        decreases a@.len() - i,
    {
        if !crate::text::str_eq(a[i].as_str(), b[i].as_str()) {
            assert(str_views(a@)[i as int] != str_views(b@)[i as int]);
            return false;
        }
        i = i + 1;
    }
    assert(str_views(a@) =~= str_views(b@));
    true
}

/// The `Valid?` cell of a compared pair.
pub fn format_valid_cell(row: &AgentEvalComparison) -> (s: String)
    ensures
        s@ == valid_text(*row),
{
    let v = &row.vanilla.warnings;
    let t = &row.treatment.warnings;
    if v.len() == 0 && t.len() == 0 {
        return "valid".to_owned();
    }
    let mut s = String::new();
    push_str(&mut s, "valid (");
    if strings_eq(v, t) {
        let j = join_strings(v, "; ");
        push_str(&mut s, j.as_str());
    } else {
        let mut parts: Vec<String> = Vec::new();
        if v.len() > 0 {
            let mut p = String::new();
            push_str(&mut p, "V: ");
            let j = join_strings(v, "; ");
            push_str(&mut p, j.as_str());
            parts.push(p);
        }
        let ghost first = str_views(parts@);
        if t.len() > 0 {
            let mut p = String::new();
            push_str(&mut p, "RI: ");
            let j = join_strings(t, "; ");
            push_str(&mut p, j.as_str());
            parts.push(p);
        }
        let j = join_strings(&parts, " / ");
        proof {
            let vv = str_views(v@);
            let tv = str_views(t@);
            let a: Seq<Seq<char>> = if vv.len() > 0 {
                seq!["V: "@ + join(vv, "; "@)]
            } else {
                Seq::empty()
            };
            let b: Seq<Seq<char>> = if tv.len() > 0 {
                seq!["RI: "@ + join(tv, "; "@)]
            } else {
                Seq::empty()
            };
            assert(str_views(parts@) =~= a + b);
        }
        push_str(&mut s, j.as_str());
    }
    push_str(&mut s, ")");
    s
}

/// `yes` when the treatment saw the harness context, else `absent`.
pub open spec fn visible_cell(row: AgentEvalComparison, absent: Seq<char>) -> Seq<char> {
    if row.treatment.harness_context_visible {
        "yes"@
    } else {
        absent
    }
}

/// The cells of a row of the `Main` table.
pub open spec fn main_cells(row: AgentEvalComparison) -> Seq<Seq<char>> {
    let v = row.vanilla;
    let t = row.treatment;
    if !row.valid_for_comparison {
        seq![
            row.task_id@,
            invalid_cell(row),
            visible_cell(row, dash()),
            dash(),
            dash(),
            dash(),
            dash(),
            dash(),
            row.result.label(),
        ]
    } else {
        seq![
            row.task_id@,
            valid_text(row),
            visible_cell(row, "no"@),
            ratio_cell(v.edit_target_files_hit, v.edit_target_files_total) + " vs "@ + ratio_cell(
                t.edit_target_files_hit,
                t.edit_target_files_total,
            ),
            dec(v.orientation_files_touched as nat) + "/"@ + dec(t.orientation_files_touched as nat),
            dec(v.unnecessary_files_changed@.len()) + "/"@ + dec(t.unnecessary_files_changed@.len()),
            cell_u32(v.turn_count) + "/"@ + cell_u32(t.turn_count),
            duration_text(v.duration_ms) + "/"@ + duration_text(t.duration_ms),
            row.result.label(),
        ]
    }
}

/// The signed difference `t - v` of two token totals: `+N`, `0` or `-N`;
/// the dash when either is absent.
pub open spec fn token_delta_cell(v: Option<u64>, t: Option<u64>) -> Seq<char> {
    match (v, t) {
        (Some(a), Some(b)) => if b > a {
            "+"@ + dec((b - a) as nat)
        } else if b == a {
            "0"@
        } else {
            "-"@ + dec((a - b) as nat)
        },
        _ => dash(),
    }
}

/// A pair of counts `v/t`.
pub open spec fn pair_u32(v: Option<u32>, t: Option<u32>) -> Seq<char> {
    cell_u32(v) + "/"@ + cell_u32(t)
}

/// The cells of a row of the `Cost` table.
pub open spec fn cost_cells(row: AgentEvalComparison) -> Seq<Seq<char>> {
    let v = row.vanilla;
    let t = row.treatment;
    if !row.valid_for_comparison {
        seq![row.task_id@, dash(), dash(), dash(), dash(), dash(), dash(), dash()]
    } else {
        seq![
            row.task_id@,
            cell_u64(v.tokens_total) + "/"@ + cell_u64(t.tokens_total),
            token_delta_cell(v.tokens_total, t.tokens_total),
            pair_u32(v.tool_call_count, t.tool_call_count),
            pair_u32(v.discover_command_count, t.discover_command_count),
            pair_u32(v.file_read_count, t.file_read_count),
            pair_u32(v.edit_command_count, t.edit_command_count),
            pair_u32(v.verify_command_count, t.verify_command_count),
        ]
    }
}

fn slash_pair(a: String, b: String) -> (s: String)
    ensures
        s@ == a@ + "/"@ + b@,
{
    let mut s = a;
    push_str(&mut s, "/");
    push_str(&mut s, b.as_str());
    s
}

fn pair_u32_exec(v: Option<u32>, t: Option<u32>) -> (s: String)
    ensures
        s@ == pair_u32(v, t),
{
    slash_pair(cell_u32_exec(v), cell_u32_exec(t))
}

fn token_delta_exec(v: Option<u64>, t: Option<u64>) -> (s: String)
    ensures
        s@ == token_delta_cell(v, t),
{
    match (v, t) {
        (Some(a), Some(b)) => {
            if b > a {
                let mut s = "+".to_owned();
                push_dec(&mut s, b - a);
                s
            } else if b == a {
                "0".to_owned()
            } else {
                let mut s = "-".to_owned();
                push_dec(&mut s, a - b);
                s
            }
        },
        _ => dash_string(),
    }
}

/// The cells of a row of the `Main` table.
pub fn format_main_row(row: &AgentEvalComparison) -> (out: Vec<String>)
    ensures
        str_views(out@) == main_cells(*row),
{
    let mut out: Vec<String> = Vec::new();
    out.push(row.task_id.clone());
    let v = &row.vanilla;
    let t = &row.treatment;
    if !row.valid_for_comparison {
        out.push(invalid_cell_exec(row));
        out.push(
            if t.harness_context_visible {
                "yes".to_owned()
            } else {
                dash_string()
            },
        );
        out.push(dash_string());
        out.push(dash_string());
        out.push(dash_string());
        out.push(dash_string());
        out.push(dash_string());
        out.push(row.result.slug());
        assert(str_views(out@) =~= main_cells(*row));
        return out;
    }
    out.push(format_valid_cell(row));
    out.push(
        if t.harness_context_visible {
            "yes".to_owned()
        } else {
            "no".to_owned()
        },
    );
    let mut targets = ratio_cell_exec(v.edit_target_files_hit, v.edit_target_files_total);
    push_str(&mut targets, " vs ");
    let tr = ratio_cell_exec(t.edit_target_files_hit, t.edit_target_files_total);
    push_str(&mut targets, tr.as_str());
    out.push(targets);
    out.push(
        slash_pair(
            fmt_u64(v.orientation_files_touched as u64),
            fmt_u64(t.orientation_files_touched as u64),
        ),
    );
    out.push(
        slash_pair(
            fmt_u64(v.unnecessary_files_changed.len() as u64),
            fmt_u64(t.unnecessary_files_changed.len() as u64),
        ),
    );
    out.push(pair_u32_exec(v.turn_count, t.turn_count));
    out.push(slash_pair(duration_cell(v.duration_ms), duration_cell(t.duration_ms)));
    out.push(row.result.slug());
    assert(str_views(out@) =~= main_cells(*row));
    out
}

/// The cells of a row of the `Cost` table.
pub fn format_cost_row(row: &AgentEvalComparison) -> (out: Vec<String>)
    ensures
        str_views(out@) == cost_cells(*row),
{
    let mut out: Vec<String> = Vec::new();
    out.push(row.task_id.clone());
    let v = &row.vanilla;
    let t = &row.treatment;
    if !row.valid_for_comparison {
        let mut k: usize = 0;
        while k < 7
            invariant
                k <= 7,
                out@.len() == 1 + k,
                out@[0]@ == row.task_id@,
                forall|j: int| 1 <= j < out@.len() ==> #[trigger] out@[j]@ == dash(),
            decreases 7 - k,
        {
            out.push(dash_string());
            k = k + 1;
        }
        assert(str_views(out@) =~= cost_cells(*row));
        return out;
    }
    out.push(slash_pair(cell_u64_exec(v.tokens_total), cell_u64_exec(t.tokens_total)));
    out.push(token_delta_exec(v.tokens_total, t.tokens_total));
    out.push(pair_u32_exec(v.tool_call_count, t.tool_call_count));
    out.push(pair_u32_exec(v.discover_command_count, t.discover_command_count));
    out.push(pair_u32_exec(v.file_read_count, t.file_read_count));
    out.push(pair_u32_exec(v.edit_command_count, t.edit_command_count));
    out.push(pair_u32_exec(v.verify_command_count, t.verify_command_count));
    assert(str_views(out@) =~= cost_cells(*row));
    out
}


// ---------------------------------------------------------------------------
// Tables
// ---------------------------------------------------------------------------

/// `n` spaces.
pub open spec fn spaces(n: nat) -> Seq<char> {
    Seq::new(n, |i: int| ' ')
}

/// `cell` padded with spaces to `width` characters.
pub open spec fn padded(cell: Seq<char>, width: nat) -> Seq<char> {
    cell + spaces(
        if width > cell.len() {
            (width - cell.len()) as nat
        } else {
            0
        },
    )
}

/// One table line: the padded cells joined by ` | `.
pub open spec fn render_cells(cells: Seq<Seq<char>>, widths: Seq<nat>) -> Seq<char> {
    join(
        Seq::new(
            cells.len(),
            |i: int|
                padded(
                    cells[i],
                    if i < widths.len() {
                        widths[i]
                    } else {
                        0
                    },
                ),
        ),
        " | "@,
    )
}

/// The longest cell of column `i` over `rows`.
pub open spec fn max_cell_len(rows: Seq<Seq<Seq<char>>>, i: int) -> nat
    decreases rows.len(),
{
    if rows.len() == 0 {
        0
    } else {
        let m = max_cell_len(rows.drop_last(), i);
        let l = if 0 <= i < rows.last().len() {
            rows.last()[i].len()
        } else {
            0
        };
        if l > m {
            l
        } else {
            m
        }
    }
}

/// Column widths: the header's UTF-8 byte length or the longest cell, in
/// characters, whichever is larger.
pub open spec fn col_widths(headers: Seq<Seq<char>>, rows: Seq<Seq<Seq<char>>>) -> Seq<nat> {
    Seq::new(
        headers.len(),
        |i: int|
            if utf8_len(headers[i]) >= max_cell_len(rows, i) {
                utf8_len(headers[i])
            } else {
                max_cell_len(rows, i)
            },
    )
}

/// The separator line's cells: a run of `-` per column.
pub open spec fn rule_cells(widths: Seq<nat>) -> Seq<Seq<char>> {
    widths.map_values(|w: nat| Seq::new(w, |i: int| '-'))
}

/// The group name of a category.
pub open spec fn category_label(c: Option<TaskCategory>) -> Seq<char> {
    match c {
        Some(x) => x.label(),
        None => "uncategorized"@,
    }
}

/// The cells of the rows in category `c`, in order.
pub open spec fn group_of(
    rows: Seq<AgentEvalComparison>,
    cells: Seq<Seq<Seq<char>>>,
    c: Option<TaskCategory>,
) -> Seq<Seq<Seq<char>>>
    decreases rows.len(),
{
    if rows.len() == 0 || cells.len() == 0 {
        Seq::empty()
    } else {
        group_of(rows.drop_last(), cells.drop_last(), c) + if rows.last().category == c {
            seq![cells.last()]
        } else {
            Seq::empty()
        }
    }
}

/// How many rows of category `c` have a verdict at position `slot` of
/// the summary order (better, worse, tie, excluded).
pub open spec fn tally(rows: Seq<AgentEvalComparison>, c: Option<TaskCategory>, slot: int) -> nat
    decreases rows.len(),
{
    if rows.len() == 0 {
        0
    } else {
        tally(rows.drop_last(), c, slot) + if rows.last().category == c && result_slot(
            rows.last().result,
        ) == slot {
            1nat
        } else {
            0nat
        }
    }
}

/// The position of a verdict in the summary order: better, worse, tie,
/// excluded.
pub open spec fn result_slot(r: AgentEvalResult) -> int {
    match r {
        AgentEvalResult::RiBetter { .. } => 0,
        AgentEvalResult::RiWorse { .. } => 1,
        AgentEvalResult::Tie => 2,
        AgentEvalResult::Excluded { .. } => 3,
    }
}

/// `N ri_better / N ri_worse / N tie / N excluded` over category `c`.
pub open spec fn summary_text(rows: Seq<AgentEvalComparison>, c: Option<TaskCategory>) -> Seq<char> {
    dec(tally(rows, c, 0)) + " ri_better / "@ + dec(tally(rows, c, 1)) + " ri_worse / "@ + dec(
        tally(rows, c, 2),
    ) + " tie / "@ + dec(tally(rows, c, 3)) + " excluded"@
}

/// The lines of one category group; nothing when the group is empty.
pub open spec fn group_block(
    headers: Seq<Seq<char>>,
    widths: Seq<nat>,
    rows: Seq<AgentEvalComparison>,
    cells: Seq<Seq<Seq<char>>>,
    c: Option<TaskCategory>,
    summary: bool,
) -> Seq<Seq<char>> {
    let g = group_of(rows, cells, c);
    if g.len() == 0 {
        Seq::empty()
    } else {
        let label = category_label(c);
        seq![
            Seq::<char>::empty(),
            "== "@ + label + " =="@,
            render_cells(headers, widths),
            render_cells(rule_cells(widths), widths),
        ] + g.map_values(|cs: Seq<Seq<char>>| render_cells(cs, widths)) + if summary {
            seq!["Group: "@ + label + " \u{2014} "@ + summary_text(rows, c)]
        } else {
            Seq::empty()
        }
    }
}

/// Groups in report order: categories by name, then the uncategorized.
pub open spec fn category_order() -> Seq<Option<TaskCategory>> {
    seq![
        Some(TaskCategory::BridgeWiring),
        Some(TaskCategory::CrossModuleOwnership),
        Some(TaskCategory::FileRouting),
        Some(TaskCategory::LocalConvention),
        Some(TaskCategory::TestTargeting),
        None,
    ]
}

/// The group blocks for the categories of `order`.
pub open spec fn blocks(
    headers: Seq<Seq<char>>,
    widths: Seq<nat>,
    rows: Seq<AgentEvalComparison>,
    cells: Seq<Seq<Seq<char>>>,
    order: Seq<Option<TaskCategory>>,
    summary: bool,
) -> Seq<Seq<char>>
    decreases order.len(),
{
    if order.len() == 0 {
        Seq::empty()
    } else {
        blocks(headers, widths, rows, cells, order.drop_last(), summary) + group_block(
            headers,
            widths,
            rows,
            cells,
            order.last(),
            summary,
        )
    }
}

/// The lines of a grouped table.
pub open spec fn table_lines(
    headers: Seq<Seq<char>>,
    rows: Seq<AgentEvalComparison>,
    cells: Seq<Seq<Seq<char>>>,
    summary: bool,
) -> Seq<Seq<char>> {
    blocks(headers, col_widths(headers, cells), rows, cells, category_order(), summary)
}

/// The character views of a table of strings.
pub open spec fn cell_views(v: Seq<Vec<String>>) -> Seq<Seq<Seq<char>>> {
    v.map_values(|r: Vec<String>| str_views(r@))
}

fn spaces_exec(n: usize) -> (s: String)
    ensures
        s@ == spaces(n as nat),
{
    let mut s = String::new();
    let mut i: usize = 0;
    while i < n
        invariant
            i <= n,
            s@ == spaces(i as nat),
        decreases n - i,
    {
        crate::text::push_char(&mut s, ' ');
        i = i + 1;
        assert(s@ =~= spaces(i as nat));
    }
    s
}

fn dashes_exec(n: usize) -> (s: String)
    ensures
        s@ == Seq::new(n as nat, |i: int| '-'),
{
    let mut s = String::new();
    let mut i: usize = 0;
    while i < n
        invariant
            i <= n,
            s@ == Seq::new(i as nat, |j: int| '-'),
        decreases n - i,
    {
        crate::text::push_char(&mut s, '-');
        i = i + 1;
        assert(s@ =~= Seq::new(i as nat, |j: int| '-'));
    }
    s
}

fn render_cells_exec(cells: &Vec<String>, widths: &Vec<usize>) -> (s: String)
    ensures
        s@ == render_cells(str_views(cells@), widths@.map_values(|w: usize| w as nat)),
{
    let ghost wv = widths@.map_values(|w: usize| w as nat);
    let ghost cv = str_views(cells@);
    let mut parts: Vec<String> = Vec::new();
    let mut i: usize = 0;
    while i < cells.len()
        invariant
            i <= cells@.len(),
            wv == widths@.map_values(|w: usize| w as nat),
            cv == str_views(cells@),
            parts@.len() == i,
            forall|j: int|
                0 <= j < i ==> #[trigger] parts@[j]@ == padded(
                    cv[j],
                    if j < wv.len() {
                        wv[j]
                    } else {
                        0
                    },
                ),
        decreases cells@.len() - i,
    {
        let w: usize = if i < widths.len() {
            widths[i]
        } else {
            0
        };
        let len: usize = chars_of(cells[i].as_str()).len();
        let pad: usize = if w > len {
            w - len
        } else {
            0
        };
        let mut p = cells[i].clone();
        let sp = spaces_exec(pad);
        push_str(&mut p, sp.as_str());
        parts.push(p);
        i = i + 1;
    }
    let s = join_strings(&parts, " | ");
    assert(str_views(parts@) =~= Seq::new(
        cv.len(),
        |j: int|
            padded(
                cv[j],
                if j < wv.len() {
                    wv[j]
                } else {
                    0
                },
            ),
    ));
    s
}


/// The larger of two numbers.
pub open spec fn nat_max(a: nat, b: nat) -> nat {
    if a >= b {
        a
    } else {
        b
    }
}

fn column_widths(headers: &Vec<String>, cells: &Vec<Vec<String>>) -> (w: Vec<usize>)
    requires
        forall|i: int| 0 <= i < headers@.len() ==> (#[trigger] headers@[i])@.len() <= 64,
    ensures
        w@.map_values(|x: usize| x as nat) == col_widths(str_views(headers@), cell_views(cells@)),
{
    let ghost hv = str_views(headers@);
    let ghost cv = cell_views(cells@);
    let n: usize = headers.len();
    let mut w: Vec<usize> = Vec::new();
    let mut i: usize = 0;
    while i < n
        invariant
            n == headers@.len(),
            hv == str_views(headers@),
            i <= n,
            w@.len() == i,
            forall|i: int| 0 <= i < headers@.len() ==> (#[trigger] headers@[i])@.len() <= 64,
            forall|j: int| 0 <= j < i ==> #[trigger] w@[j] == utf8_len(hv[j]),
        decreases n - i,
    {
        let hc = chars_of(headers[i].as_str());
        proof {
            crate::text::lemma_utf8_len_bound(hc@);
        }
        let len: usize = match utf8_len_checked(hc.as_slice()) {
            Some(l) => l,
            None => 0,
        };
        w.push(len);
        i = i + 1;
    }
    let mut r: usize = 0;
    assert forall|j: int| 0 <= j < n implies #[trigger] w@[j] == nat_max(
        utf8_len(hv[j]),
        max_cell_len(cv.take(r as int), j),
    ) by {
        assert(cv.take(0).len() == 0);
    }
    while r < cells.len()
        invariant
            n == headers@.len(),
            hv == str_views(headers@),
            cv == cell_views(cells@),
            r <= cells@.len(),
            w@.len() == n,
            forall|j: int|
                0 <= j < n ==> #[trigger] w@[j] == nat_max(
                    utf8_len(hv[j]),
                    max_cell_len(cv.take(r as int), j),
                ),
        decreases cells@.len() - r,
    {
        assert(cv.take(r + 1).drop_last() =~= cv.take(r as int));
        assert(cv.take(r + 1).last() == cv[r as int]);
        let mut k: usize = 0;
        while k < n
            invariant
                n == headers@.len(),
                hv == str_views(headers@),
                cv == cell_views(cells@),
                r < cells@.len(),
                cv.take(r + 1).drop_last() == cv.take(r as int),
                cv.take(r + 1).last() == cv[r as int],
                k <= n,
                w@.len() == n,
                forall|j: int|
                    0 <= j < k ==> #[trigger] w@[j] == nat_max(
                        utf8_len(hv[j]),
                        max_cell_len(cv.take(r + 1), j),
                    ),
                forall|j: int|
                    k <= j < n ==> #[trigger] w@[j] == nat_max(
                        utf8_len(hv[j]),
                        max_cell_len(cv.take(r as int), j),
                    ),
            decreases n - k,
        {
            let ghost wk = w@[k as int];
            if k < cells[r].len() {
                let l: usize = chars_of(cells[r][k].as_str()).len();
                assert(cv[r as int][k as int] == cells@[r as int]@[k as int]@);
                if l > w[k] {
                    w.set(k, l);
                }
            }
            assert(w@[k as int] == nat_max(utf8_len(hv[k as int]), max_cell_len(cv.take(r + 1), k as int)));
            k = k + 1;
        }
        r = r + 1;
    }
    assert(cv.take(cells@.len() as int) =~= cv);
    assert(w@.map_values(|x: usize| x as nat) =~= col_widths(hv, cv));
    w
}

fn same_category(a: Option<TaskCategory>, b: Option<TaskCategory>) -> (r: bool)
    ensures
        r == (a == b),
{
    match (a, b) {
        (None, None) => true,
        (Some(x), Some(y)) => match (x, y) {
            (TaskCategory::FileRouting, TaskCategory::FileRouting) => true,
            (TaskCategory::BridgeWiring, TaskCategory::BridgeWiring) => true,
            (TaskCategory::TestTargeting, TaskCategory::TestTargeting) => true,
            (TaskCategory::LocalConvention, TaskCategory::LocalConvention) => true,
            (TaskCategory::CrossModuleOwnership, TaskCategory::CrossModuleOwnership) => true,
            _ => false,
        },
        _ => false,
    }
}

fn category_label_exec(c: Option<TaskCategory>) -> (s: &'static str)
    ensures
        s@ == category_label(c),
{
    match c {
        Some(x) => x.slug(),
        None => "uncategorized",
    }
}

fn result_kind_exec(r: &AgentEvalResult) -> (k: u8)
    ensures
        k == result_slot(*r),
{
    match r {
        AgentEvalResult::RiBetter { .. } => 0,
        AgentEvalResult::RiWorse { .. } => 1,
        AgentEvalResult::Tie => 2,
        AgentEvalResult::Excluded { .. } => 3,
    }
}

proof fn lemma_tally_bounded(rows: Seq<AgentEvalComparison>, c: Option<TaskCategory>, slot: int)
    ensures
        tally(rows, c, slot) <= rows.len(),
    decreases rows.len(),
{
    if rows.len() > 0 {
        lemma_tally_bounded(rows.drop_last(), c, slot);
    }
}

fn push_group_block(
    headers: &Vec<String>,
    widths: &Vec<usize>,
    rows: &Vec<AgentEvalComparison>,
    cells: &Vec<Vec<String>>,
    c: Option<TaskCategory>,
    summary: bool,
    out: &mut Vec<String>,
)
    requires
        rows@.len() == cells@.len(),
    ensures
        str_views(final(out)@) == str_views(old(out)@) + group_block(
            str_views(headers@),
            widths@.map_values(|w: usize| w as nat),
            rows@,
            cell_views(cells@),
            c,
            summary,
        ),
{
    let ghost wv = widths@.map_values(|w: usize| w as nat);
    let ghost cv = cell_views(cells@);
    let ghost rv = rows@;
    let ghost f = |cs: Seq<Seq<char>>| render_cells(cs, wv);
    let mut glines: Vec<String> = Vec::new();
    let mut better: usize = 0;
    let mut worse: usize = 0;
    let mut tie: usize = 0;
    let mut excluded: usize = 0;
    let mut i: usize = 0;
    assert(group_of(rv.take(0), cv.take(0), c) =~= Seq::<Seq<Seq<char>>>::empty());
    assert(str_views(glines@) =~= group_of(rv.take(0), cv.take(0), c).map_values(f));
    while i < rows.len()
        invariant
            rows@.len() == cells@.len(),
            wv == widths@.map_values(|w: usize| w as nat),
            cv == cell_views(cells@),
            rv == rows@,
            f == (|cs: Seq<Seq<char>>| render_cells(cs, wv)),
            i <= rows@.len(),
            str_views(glines@) == group_of(rv.take(i as int), cv.take(i as int), c).map_values(f),
            better == tally(rv.take(i as int), c, 0),
            worse == tally(rv.take(i as int), c, 1),
            tie == tally(rv.take(i as int), c, 2),
            excluded == tally(rv.take(i as int), c, 3),
        decreases rows@.len() - i,
    {
        assert(rv.take(i + 1).drop_last() =~= rv.take(i as int));
        assert(cv.take(i + 1).drop_last() =~= cv.take(i as int));
        proof {
            lemma_tally_bounded(rv.take(i as int), c, 0);
            lemma_tally_bounded(rv.take(i as int), c, 1);
            lemma_tally_bounded(rv.take(i as int), c, 2);
            lemma_tally_bounded(rv.take(i as int), c, 3);
        }
        let ghost before = str_views(glines@);
        let ghost g0 = group_of(rv.take(i as int), cv.take(i as int), c);
        if same_category(rows[i].category, c) {
            let line = render_cells_exec(&cells[i], widths);
            glines.push(line);
            assert(g0.push(cv[i as int]).map_values(f) =~= g0.map_values(f).push(f(cv[i as int])));
            assert(group_of(rv.take(i + 1), cv.take(i + 1), c) =~= g0.push(cv[i as int]));
            assert(str_views(glines@) =~= before.push(line@));
            let k = result_kind_exec(&rows[i].result);
            if k == 0 {
                better = better + 1;
            } else if k == 1 {
                worse = worse + 1;
            } else if k == 2 {
                tie = tie + 1;
            } else {
                excluded = excluded + 1;
            }
        } else {
            assert(group_of(rv.take(i + 1), cv.take(i + 1), c) =~= g0);
        }
        i = i + 1;
    }
    assert(rv.take(rows@.len() as int) =~= rv);
    assert(cv.take(rows@.len() as int) =~= cv);
    if glines.len() == 0 {
        assert(str_views(out@) =~= str_views(out@) + Seq::<Seq<char>>::empty());
        return;
    }
    let ghost start = str_views(out@);
    let label = category_label_exec(c);
    out.push(String::new());
    let mut title = "== ".to_owned();
    push_str(&mut title, label);
    push_str(&mut title, " ==");
    out.push(title);
    out.push(render_cells_exec(headers, widths));
    let mut rules: Vec<String> = Vec::new();
    let mut k: usize = 0;
    while k < widths.len()
        invariant
            k <= widths@.len(),
            wv == widths@.map_values(|w: usize| w as nat),
            str_views(rules@) == rule_cells(wv).take(k as int),
        decreases widths@.len() - k,
    {
        let d = dashes_exec(widths[k]);
        let ghost before = str_views(rules@);
        assert(d@ == rule_cells(wv)[k as int]);
        assert(rule_cells(wv).take(k + 1) =~= before.push(d@));
        rules.push(d);
        assert(str_views(rules@) =~= rule_cells(wv).take(k + 1));
        k = k + 1;
    }
    assert(rule_cells(wv).take(widths@.len() as int) =~= rule_cells(wv));
    let rule_line = render_cells_exec(&rules, widths);
    out.push(rule_line);
    let ghost mid = str_views(out@);
    assert(mid =~= start + seq![
        Seq::<char>::empty(),
        "== "@ + label@ + " =="@,
        render_cells(str_views(headers@), wv),
        render_cells(rule_cells(wv), wv),
    ]);
    let mut j: usize = 0;
    while j < glines.len()
        invariant
            j <= glines@.len(),
            str_views(out@) == mid + str_views(glines@).take(j as int),
        decreases glines@.len() - j,
    {
        let ghost before = str_views(out@);
        let line = glines[j].clone();
        out.push(line);
        assert(str_views(out@) =~= before.push(line@));
        assert(str_views(glines@).take(j + 1) =~= str_views(glines@).take(j as int).push(line@));
        assert(str_views(out@) =~= mid + str_views(glines@).take(j + 1));
        j = j + 1;
    }
    assert(str_views(glines@).take(glines@.len() as int) =~= str_views(glines@));
    let ghost after_rows = str_views(out@);
    assert(after_rows == mid + group_of(rv, cv, c).map_values(f));
    if summary {
        let mut line = "Group: ".to_owned();
        push_str(&mut line, label);
        push_str(&mut line, " \u{2014} ");
        push_dec(&mut line, better as u64);
        push_str(&mut line, " ri_better / ");
        push_dec(&mut line, worse as u64);
        push_str(&mut line, " ri_worse / ");
        push_dec(&mut line, tie as u64);
        push_str(&mut line, " tie / ");
        push_dec(&mut line, excluded as u64);
        push_str(&mut line, " excluded");
        assert(line@ == "Group: "@ + label@ + " \u{2014} "@ + summary_text(rv, c));
        out.push(line);
        assert(str_views(out@) =~= after_rows.push(line@));
    } else {
        assert(str_views(out@) =~= after_rows + Seq::<Seq<char>>::empty());
    }
    assert(str_views(out@) =~= start + group_block(
        str_views(headers@),
        wv,
        rv,
        cv,
        c,
        summary,
    ));
}


// ---------------------------------------------------------------------------
// The report
// ---------------------------------------------------------------------------

/// The headers of the `Main` table.
pub open spec fn main_headers() -> Seq<Seq<char>> {
    seq![
        "Task"@,
        "Valid?"@,
        "RI visible?"@,
        "Edit targets V/RI"@,
        "Orient. touched V/RI"@,
        "Extra files V/RI"@,
        "Turns V/RI"@,
        "Time V/RI"@,
        "Result"@,
    ]
}

/// The headers of the `Cost` table.
pub open spec fn cost_headers() -> Seq<Seq<char>> {
    seq![
        "Task"@,
        "Tokens V/RI"@,
        "Token \u{394}"@,
        "Tool calls V/RI"@,
        "Discover V/RI"@,
        "Read V/RI"@,
        "Edit V/RI"@,
        "Verify V/RI"@,
    ]
}

fn main_headers_exec() -> (out: Vec<String>)
    ensures
        str_views(out@) == main_headers(),
        forall|i: int| 0 <= i < out@.len() ==> (#[trigger] out@[i])@.len() <= 64,
{
    proof {
        reveal_strlit("Task");
        reveal_strlit("Valid?");
        reveal_strlit("RI visible?");
        reveal_strlit("Edit targets V/RI");
        reveal_strlit("Orient. touched V/RI");
        reveal_strlit("Extra files V/RI");
        reveal_strlit("Turns V/RI");
        reveal_strlit("Time V/RI");
        reveal_strlit("Result");
    }
    let out = vec![
        "Task".to_owned(),
        "Valid?".to_owned(),
        "RI visible?".to_owned(),
        "Edit targets V/RI".to_owned(),
        "Orient. touched V/RI".to_owned(),
        "Extra files V/RI".to_owned(),
        "Turns V/RI".to_owned(),
        "Time V/RI".to_owned(),
        "Result".to_owned(),
    ];
    assert(str_views(out@) =~= main_headers());
    out
}

fn cost_headers_exec() -> (out: Vec<String>)
    ensures
        str_views(out@) == cost_headers(),
        forall|i: int| 0 <= i < out@.len() ==> (#[trigger] out@[i])@.len() <= 64,
{
    proof {
        reveal_strlit("Task");
        reveal_strlit("Tokens V/RI");
        reveal_strlit("Token \u{394}");
        reveal_strlit("Tool calls V/RI");
        reveal_strlit("Discover V/RI");
        reveal_strlit("Read V/RI");
        reveal_strlit("Edit V/RI");
        reveal_strlit("Verify V/RI");
    }
    let out = vec![
        "Task".to_owned(),
        "Tokens V/RI".to_owned(),
        "Token \u{394}".to_owned(),
        "Tool calls V/RI".to_owned(),
        "Discover V/RI".to_owned(),
        "Read V/RI".to_owned(),
        "Edit V/RI".to_owned(),
        "Verify V/RI".to_owned(),
    ];
    assert(str_views(out@) =~= cost_headers());
    out
}

/// `reason=count` for each entry of the reason table.
pub open spec fn count_items(v: Seq<(String, usize)>) -> Seq<Seq<char>> {
    v.map_values(|e: (String, usize)| e.0@ + "="@ + dec(e.1 as nat))
}

/// The lines of the rendered report.
pub open spec fn report_lines(report: AgentEvalReport) -> Seq<Seq<char>> {
    let rows = report.comparisons@;
    let counts = report.summary.invalid_reason_counts@;
    seq![
        "Valid comparisons: "@ + dec(report.summary.valid_pairs as nat) + "/"@ + dec(
            report.summary.total_pairs as nat,
        ),
    ] + (if counts.len() == 0 {
        Seq::empty()
    } else {
        seq!["Invalid reasons: "@ + join(count_items(counts), ", "@)]
    }) + seq![Seq::<char>::empty(), "==== Main ===="@] + table_lines(
        main_headers(),
        rows,
        rows.map_values(|r: AgentEvalComparison| main_cells(r)),
        true,
    ) + seq![Seq::<char>::empty(), "==== Cost ===="@] + table_lines(
        cost_headers(),
        rows,
        rows.map_values(|r: AgentEvalComparison| cost_cells(r)),
        false,
    )
}

fn push_table(
    headers: &Vec<String>,
    rows: &Vec<AgentEvalComparison>,
    cells: &Vec<Vec<String>>,
    summary: bool,
    out: &mut Vec<String>,
)
    requires
        rows@.len() == cells@.len(),
        forall|i: int| 0 <= i < headers@.len() ==> (#[trigger] headers@[i])@.len() <= 64,
    ensures
        str_views(final(out)@) == str_views(old(out)@) + table_lines(
            str_views(headers@),
            rows@,
            cell_views(cells@),
            summary,
        ),
{
    let widths = column_widths(headers, cells);
    let ghost wv = widths@.map_values(|w: usize| w as nat);
    let ghost start = str_views(out@);
    let order = vec![
        Some(TaskCategory::BridgeWiring),
        Some(TaskCategory::CrossModuleOwnership),
        Some(TaskCategory::FileRouting),
        Some(TaskCategory::LocalConvention),
        Some(TaskCategory::TestTargeting),
        None,
    ];
    assert(order@ =~= category_order());
    let mut k: usize = 0;
    assert(order@.take(0) =~= Seq::<Option<TaskCategory>>::empty());
    assert(str_views(out@) =~= start + blocks(
        str_views(headers@),
        wv,
        rows@,
        cell_views(cells@),
        order@.take(0),
        summary,
    ));
    while k < order.len()
        invariant
            k <= order@.len(),
            rows@.len() == cells@.len(),
            wv == widths@.map_values(|w: usize| w as nat),
            str_views(out@) == start + blocks(
                str_views(headers@),
                wv,
                rows@,
                cell_views(cells@),
                order@.take(k as int),
                summary,
            ),
        decreases order@.len() - k,
    {
        assert(order@.take(k + 1).drop_last() =~= order@.take(k as int));
        push_group_block(headers, &widths, rows, cells, order[k], summary, out);
        k = k + 1;
    }
    assert(order@.take(order@.len() as int) =~= order@);
}

/// Renders the report as a `Main` table and a `Cost` table, each grouped by
/// task category, under the count of valid pairs and the exclusion reasons.
pub fn render_agent_eval_human(report: &AgentEvalReport) -> (s: String)
    ensures
        s@ == join(report_lines(*report), "\n"@),
{
    let rows = &report.comparisons;
    let mut lines: Vec<String> = Vec::new();
    let mut first = "Valid comparisons: ".to_owned();
    push_dec(&mut first, report.summary.valid_pairs as u64);
    push_str(&mut first, "/");
    push_dec(&mut first, report.summary.total_pairs as u64);
    lines.push(first);
    let counts = &report.summary.invalid_reason_counts;
    if counts.len() > 0 {
        let mut items: Vec<String> = Vec::new();
        let mut i: usize = 0;
        while i < counts.len()
            invariant
                i <= counts@.len(),
                str_views(items@) == count_items(counts@).take(i as int),
            decreases counts@.len() - i,
        {
            let mut item = counts[i].0.clone();
            push_str(&mut item, "=");
            push_dec(&mut item, counts[i].1 as u64);
            let ghost before = str_views(items@);
            assert(item@ == count_items(counts@)[i as int]);
            items.push(item);
            assert(str_views(items@) =~= before.push(item@));
            assert(count_items(counts@).take(i + 1) =~= count_items(counts@).take(i as int).push(item@));
            i = i + 1;
        }
        assert(count_items(counts@).take(counts@.len() as int) =~= count_items(counts@));
        let joined = join_strings(&items, ", ");
        let mut line = "Invalid reasons: ".to_owned();
        push_str(&mut line, joined.as_str());
        lines.push(line);
    }
    let ghost head = str_views(lines@);
    let ghost counts_v = report.summary.invalid_reason_counts@;
    assert(head =~= seq![
        "Valid comparisons: "@ + dec(report.summary.valid_pairs as nat) + "/"@ + dec(
            report.summary.total_pairs as nat,
        ),
    ] + (if counts_v.len() == 0 {
        Seq::empty()
    } else {
        seq!["Invalid reasons: "@ + join(count_items(counts_v), ", "@)]
    }));
    lines.push(String::new());
    lines.push("==== Main ====".to_owned());
    let ghost head2 = str_views(lines@);
    assert(head2 =~= head + seq![Seq::<char>::empty(), "==== Main ===="@]);
    let mut main_rows: Vec<Vec<String>> = Vec::new();
    let mut cost_rows: Vec<Vec<String>> = Vec::new();
    let mut i: usize = 0;
    while i < rows.len()
        invariant
            i <= rows@.len(),
            main_rows@.len() == i,
            cost_rows@.len() == i,
            forall|j: int| 0 <= j < i ==> str_views((#[trigger] main_rows@[j])@) == main_cells(rows@[j]),
            forall|j: int| 0 <= j < i ==> str_views((#[trigger] cost_rows@[j])@) == cost_cells(rows@[j]),
        decreases rows@.len() - i,
    {
        main_rows.push(format_main_row(&rows[i]));
        cost_rows.push(format_cost_row(&rows[i]));
        i = i + 1;
    }
    assert(cell_views(main_rows@) =~= rows@.map_values(|r: AgentEvalComparison| main_cells(r)));
    assert(cell_views(cost_rows@) =~= rows@.map_values(|r: AgentEvalComparison| cost_cells(r)));
    let main_h = main_headers_exec();
    push_table(&main_h, rows, &main_rows, true, &mut lines);
    let ghost t1 = table_lines(main_headers(), rows@, rows@.map_values(|r: AgentEvalComparison| main_cells(r)), true);
    assert(str_views(lines@) == head2 + t1);
    lines.push(String::new());
    lines.push("==== Cost ====".to_owned());
    let ghost head3 = str_views(lines@);
    assert(head3 =~= head2 + t1 + seq![Seq::<char>::empty(), "==== Cost ===="@]);
    let cost_h = cost_headers_exec();
    push_table(&cost_h, rows, &cost_rows, false, &mut lines);
    let ghost t2 = table_lines(cost_headers(), rows@, rows@.map_values(|r: AgentEvalComparison| cost_cells(r)), false);
    assert(str_views(lines@) == head3 + t2);
    assert(str_views(lines@) =~= report_lines(*report));
    join_strings(&lines, "\n")
}

} // verus!
