//! Reading the JSONL event streams of an agent run: model turns, token
//! usage, tool activity, intentionally edited files, and whether the
//! directive reached the model.
//!
//! Each stream is a text of one JSON document per line.  Lines are trimmed
//! and blank ones skipped; each remaining line is parsed by serde_json
//! (`parse_json`).  The counting functions take the parsed events and have
//! exact contracts over their models; the `*_from_exec_jsonl` functions add
//! the decoding and parsing around them.
use vstd::prelude::*;

use crate::json::{json_get, opt_model, parse_json, parsed_json, str_field, JsonModel, JsonValue};
use crate::harness::agent_eval::{
    classify_shell_phase, normalize_agent_eval_path, spec_normalize_path, spec_shell_phase,
};
use crate::harness::renderer::HARNESS_MARKER;
use crate::sorted::{sorted_of, sorted_set_of};
use crate::text::{
    chars_of, contains, decode_utf8, str_contains, lines, lines_exec, str_eq, str_views, string_from, trim, trim_exec, views,
};

verus! {

/// Why an event stream could not be read.
#[derive(Debug, Clone, Copy, PartialEq, Eq, Structural)]
pub enum EventStreamError {
    /// The bytes are not UTF-8.
    InvalidUtf8,
    /// A non-blank line is not a JSON document.
    InvalidJson,
}

/// The models of a sequence of values.
pub open spec fn models(v: Seq<JsonValue>) -> Seq<JsonModel> {
    v.map_values(|x: JsonValue| x@)
}

/// The given lines, trimmed, without the blank ones.
pub open spec fn nonblank_trimmed(ls: Seq<Seq<char>>) -> Seq<Seq<char>>
    decreases ls.len(),
{
    if ls.len() == 0 {
        Seq::empty()
    } else {
        let rest = nonblank_trimmed(ls.drop_last());
        let t = trim(ls.last());
        if t.len() > 0 {
            rest.push(t)
        } else {
            rest
        }
    }
}

/// The event lines of a JSONL text.
pub open spec fn event_lines(text: Seq<char>) -> Seq<Seq<char>> {
    nonblank_trimmed(lines(text))
}

/// Every line parsed, or `None` when one of them does not parse.
pub open spec fn parsed_all(ls: Seq<Seq<char>>) -> Option<Seq<JsonModel>>
    decreases ls.len(),
{
    if ls.len() == 0 {
        Some(Seq::empty())
    } else {
        match (parsed_all(ls.drop_last()), parsed_json(ls.last())) {
            (Some(es), Some(e)) => Some(es.push(e)),
            _ => None,
        }
    }
}

/// The lines that parse, parsed; the others are left out.
pub open spec fn parsed_ok(ls: Seq<Seq<char>>) -> Seq<JsonModel>
    decreases ls.len(),
{
    if ls.len() == 0 {
        Seq::empty()
    } else {
        let es = parsed_ok(ls.drop_last());
        match parsed_json(ls.last()) {
            Some(e) => es.push(e),
            None => es,
        }
    }
}

/// The events of a `codex exec --json` stream, when every line parses.
pub open spec fn exec_events(bytes: Seq<u8>) -> Result<Seq<JsonModel>, EventStreamError> {
    if !vstd::utf8::valid_utf8(bytes) {
        Err(EventStreamError::InvalidUtf8)
    } else {
        match parsed_all(event_lines(vstd::utf8::decode_utf8(bytes))) {
            Some(es) => Ok(es),
            None => Err(EventStreamError::InvalidJson),
        }
    }
}

/// The event lines of `text`.
fn event_lines_exec(text: &str) -> (out: Vec<Vec<char>>)
    ensures
        views(out@) == event_lines(text@),
{
    let cs = chars_of(text);
    let ls = lines_exec(cs.as_slice());
    let mut out: Vec<Vec<char>> = Vec::new();
    let mut i: usize = 0;
    while i < ls.len()
        invariant
            i <= ls@.len(),
            views(ls@) == lines(text@),
            views(out@) == nonblank_trimmed(views(ls@).take(i as int)),
        decreases ls@.len() - i,
    {
        let t = trim_exec(ls[i].as_slice());
        let ghost before = views(out@);
        assert(views(ls@).take(i + 1).drop_last() =~= views(ls@).take(i as int));
        assert(views(ls@).take(i + 1).last() == ls@[i as int]@);
        if t.len() > 0 {
            out.push(t);
            assert(views(out@) =~= before.push(t@));
        }
        i = i + 1;
    }
    assert(views(ls@).take(ls@.len() as int) =~= views(ls@));
    out
}

/// Parses one line.
fn parse_line(line: &Vec<char>) -> (r: Option<JsonValue>)
    ensures
        opt_model(r) == parsed_json(line@),
{
    let s = string_from(line.as_slice());
    parse_json(s.as_str())
}

/// Parses every line; `None` as soon as one does not parse.
fn parse_all_lines(ls: &Vec<Vec<char>>) -> (r: Option<Vec<JsonValue>>)
    ensures
        match r {
            Some(es) => parsed_all(views(ls@)) == Some(models(es@)),
            None => parsed_all(views(ls@)) is None,
        },
{
    let mut out: Vec<JsonValue> = Vec::new();
    let mut i: usize = 0;
    while i < ls.len()
        invariant
            i <= ls@.len(),
            parsed_all(views(ls@).take(i as int)) == Some(models(out@)),
        decreases ls@.len() - i,
    {
        let ghost prefix = views(ls@).take(i + 1);
        assert(prefix.drop_last() =~= views(ls@).take(i as int));
        assert(prefix.last() == ls@[i as int]@);
        match parse_line(&ls[i]) {
            Some(e) => {
                let ghost before = models(out@);
                out.push(e);
                assert(models(out@) =~= before.push(e@));
            },
            None => {
                proof {
                    lemma_parsed_all_prefix(views(ls@), i + 1);
                }
                return None;
            },
        }
        i = i + 1;
    }
    assert(views(ls@).take(ls@.len() as int) =~= views(ls@));
    Some(out)
}

/// A line that does not parse makes every longer run of lines fail too.
proof fn lemma_parsed_all_prefix(ls: Seq<Seq<char>>, k: int)
    requires
        0 <= k <= ls.len(),
        parsed_all(ls.take(k)) is None,
    ensures
        parsed_all(ls) is None,
    decreases ls.len() - k,
{
    if k < ls.len() {
        assert(ls.take(k + 1).drop_last() =~= ls.take(k));
        lemma_parsed_all_prefix(ls, k + 1);
    } else {
        assert(ls.take(k) =~= ls);
    }
}

/// Parses the lines that parse and leaves the others out.
fn parse_ok_lines(ls: &Vec<Vec<char>>) -> (r: Vec<JsonValue>)
    ensures
        models(r@) == parsed_ok(views(ls@)),
{
    let mut out: Vec<JsonValue> = Vec::new();
    let mut i: usize = 0;
    while i < ls.len()
        invariant
            i <= ls@.len(),
            parsed_ok(views(ls@).take(i as int)) == models(out@),
        decreases ls@.len() - i,
    {
        let ghost prefix = views(ls@).take(i + 1);
        assert(prefix.drop_last() =~= views(ls@).take(i as int));
        assert(prefix.last() == ls@[i as int]@);
        match parse_line(&ls[i]) {
            Some(e) => {
                let ghost before = models(out@);
                out.push(e);
                assert(models(out@) =~= before.push(e@));
            },
            None => {},
        }
        i = i + 1;
    }
    assert(views(ls@).take(ls@.len() as int) =~= views(ls@));
    out
}

/// Decodes and parses a `codex exec --json` stream.
fn read_exec_events(bytes: &[u8]) -> (r: Result<Vec<JsonValue>, EventStreamError>)
    ensures
        match r {
            Ok(es) => exec_events(bytes@) == Ok::<Seq<JsonModel>, EventStreamError>(models(es@)),
            Err(e) => exec_events(bytes@) == Err::<Seq<JsonModel>, EventStreamError>(e),
        },
{
    match decode_utf8(bytes) {
        None => Err(EventStreamError::InvalidUtf8),
        Some(text) => {
            let ls = event_lines_exec(text);
            match parse_all_lines(&ls) {
                Some(es) => Ok(es),
                None => Err(EventStreamError::InvalidJson),
            }
        },
    }
}

/// `n`, or `u32::MAX` when it does not fit (a saturating count).
pub open spec fn capped_u32(n: nat) -> u32 {
    if n > u32::MAX {
        u32::MAX
    } else {
        n as u32
    }
}

/// `n`, or `u64::MAX` when it does not fit (a saturating sum).
pub open spec fn capped_u64(n: nat) -> u64 {
    if n > u64::MAX {
        u64::MAX
    } else {
        n as u64
    }
}

// ---------------------------------------------------------------------------
// Turns
// ---------------------------------------------------------------------------

/// A `turn.completed` or `turn.failed` event.
pub open spec fn is_turn_end(e: JsonModel) -> bool {
    str_field(e, "type"@) == Some("turn.completed"@) || str_field(e, "type"@) == Some(
        "turn.failed"@,
    )
}

/// The number of turn-ending events.
pub open spec fn turn_ends(es: Seq<JsonModel>) -> nat
    decreases es.len(),
{
    if es.len() == 0 {
        0
    } else {
        turn_ends(es.drop_last()) + if is_turn_end(es.last()) {
            1nat
        } else {
            0nat
        }
    }
}

/// The number of model turns among parsed events (saturating).
pub fn count_turns(events: &Vec<JsonValue>) -> (r: u32)
    ensures
        r == capped_u32(turn_ends(models(events@))),
{
    let mut count: u32 = 0;
    let mut i: usize = 0;
    while i < events.len()
        invariant
            i <= events@.len(),
            count == capped_u32(turn_ends(models(events@).take(i as int))),
        decreases events@.len() - i,
    {
        let ghost prefix = models(events@).take(i + 1);
        assert(prefix.drop_last() =~= models(events@).take(i as int));
        assert(prefix.last() == events@[i as int]@);
        let ended = match events[i].str_field("type") {
            Some(kind) => str_eq(kind, "turn.completed") || str_eq(kind, "turn.failed"),
            None => false,
        };
        if ended && count < u32::MAX {
            count = count + 1;
        }
        i = i + 1;
    }
    assert(models(events@).take(events@.len() as int) =~= models(events@));
    count
}

/// Counts model turns (`turn.completed` and `turn.failed` events) in a
/// `codex exec --json` stream.
pub fn count_turns_from_exec_jsonl(bytes: &[u8]) -> (r: Result<u32, EventStreamError>)
    ensures
        match exec_events(bytes@) {
            Ok(es) => r == Ok::<u32, EventStreamError>(capped_u32(turn_ends(es))),
            Err(e) => r == Err::<u32, EventStreamError>(e),
        },
{
    let events = read_exec_events(bytes)?;
    Ok(count_turns(&events))
}

// ---------------------------------------------------------------------------
// Token usage
// ---------------------------------------------------------------------------

/// Token totals summed over the `turn.completed` events of a run.
#[derive(Debug, Clone, Copy, PartialEq, Eq, Structural)]
pub struct TokenUsageTotals {
    pub input_tokens: u64,
    pub output_tokens: u64,
    pub total_tokens: u64,
}

/// A `turn.completed` event.
pub open spec fn is_completed_turn(e: JsonModel) -> bool {
    str_field(e, "type"@) == Some("turn.completed"@)
}

/// The count `usage.<key>` of an event: its integer value when it is one
/// and positive, zero otherwise.
pub open spec fn usage_tokens(e: JsonModel, key: Seq<char>) -> nat {
    match json_get(e, "usage"@) {
        Some(u) => match json_get(u, key) {
            Some(n) => match crate::json::json_i64(n) {
                Some(x) => if x > 0 {
                    x as nat
                } else {
                    0
                },
                None => 0,
            },
            None => 0,
        },
        None => 0,
    }
}

/// The sum of `usage.<key>` over the `turn.completed` events.
pub open spec fn usage_sum(es: Seq<JsonModel>, key: Seq<char>) -> nat
    decreases es.len(),
{
    if es.len() == 0 {
        0
    } else {
        usage_sum(es.drop_last(), key) + if is_completed_turn(es.last()) {
            usage_tokens(es.last(), key)
        } else {
            0
        }
    }
}

/// Whether some event is `turn.completed`.
pub open spec fn any_completed_turn(es: Seq<JsonModel>) -> bool {
    exists|k: int| 0 <= k < es.len() && is_completed_turn(#[trigger] es[k])
}

/// The token totals of parsed events: `None` without a `turn.completed`
/// event, else the saturating sums of input and output tokens and their
/// saturating total.
pub open spec fn token_totals(es: Seq<JsonModel>) -> Option<TokenUsageTotals> {
    if !any_completed_turn(es) {
        None
    } else {
        let input = capped_u64(usage_sum(es, "input_tokens"@));
        let output = capped_u64(usage_sum(es, "output_tokens"@));
        Some(
            TokenUsageTotals {
                input_tokens: input,
                output_tokens: output,
                total_tokens: capped_u64((input + output) as nat),
            },
        )
    }
}

/// The positive integer value of `usage.<key>` in an event, else zero.
fn usage_tokens_exec(e: &JsonValue, key: &str) -> (r: u64)
    ensures
        r == usage_tokens(e@, key@),
{
    match e.get("usage") {
        Some(u) => match u.get(key) {
            Some(n) => match n.as_i64() {
                Some(x) => if x > 0 {
                    x as u64
                } else {
                    0
                },
                None => 0,
            },
            None => 0,
        },
        None => 0,
    }
}

/// Sums token usage over parsed events.
pub fn token_usage(events: &Vec<JsonValue>) -> (r: Option<TokenUsageTotals>)
    ensures
        r == token_totals(models(events@)),
{
    let mut seen_completed = false;
    let mut input: u64 = 0;
    let mut output: u64 = 0;
    let mut i: usize = 0;
    while i < events.len()
        invariant
            i <= events@.len(),
            seen_completed == any_completed_turn(models(events@).take(i as int)),
            input == capped_u64(usage_sum(models(events@).take(i as int), "input_tokens"@)),
            output == capped_u64(usage_sum(models(events@).take(i as int), "output_tokens"@)),
        decreases events@.len() - i,
    {
        let ghost prefix = models(events@).take(i + 1);
        assert(prefix.drop_last() =~= models(events@).take(i as int));
        assert(prefix.last() == events@[i as int]@);
        let completed = match events[i].str_field("type") {
            Some(kind) => str_eq(kind, "turn.completed"),
            None => false,
        };
        if completed {
            seen_completed = true;
            let a = usage_tokens_exec(&events[i], "input_tokens");
            let b = usage_tokens_exec(&events[i], "output_tokens");
            input = input.saturating_add(a);
            output = output.saturating_add(b);
            assert(is_completed_turn(prefix[i as int]));
        } else {
            assert forall|k: int| 0 <= k < prefix.len() && is_completed_turn(#[trigger] prefix[k])
                implies 0 <= k < i && is_completed_turn(models(events@).take(i as int)[k]) by {
                assert(prefix[k] == models(events@).take(i as int)[k] || k == i);
            }
        }
        i = i + 1;
    }
    assert(models(events@).take(events@.len() as int) =~= models(events@));
    if !seen_completed {
        return None;
    }
    Some(
        TokenUsageTotals {
            input_tokens: input,
            output_tokens: output,
            total_tokens: input.saturating_add(output),
        },
    )
}

/// Sums `usage.input_tokens` and `usage.output_tokens` over the
/// `turn.completed` events of a `codex exec --json` stream: `None` when
/// there is no such event (a run that never completed a turn), which is not
/// the same as a completed turn that used no tokens.
pub fn token_usage_from_exec_jsonl(bytes: &[u8]) -> (r: Result<
    Option<TokenUsageTotals>,
    EventStreamError,
>)
    ensures
        match exec_events(bytes@) {
            Ok(es) => r == Ok::<Option<TokenUsageTotals>, EventStreamError>(token_totals(es)),
            Err(e) => r == Err::<Option<TokenUsageTotals>, EventStreamError>(e),
        },
{
    let events = read_exec_events(bytes)?;
    Ok(token_usage(&events))
}

// ---------------------------------------------------------------------------
// Whether the directive reached the model
// ---------------------------------------------------------------------------

/// A content part that carries the marker: a string that contains it, or
/// else a part whose `text` member is a string that contains it.
pub open spec fn part_has_marker(p: JsonModel) -> bool {
    match crate::json::json_str(p) {
        Some(s) => contains(s, HARNESS_MARKER@),
        None => match str_field(p, "text"@) {
            Some(t) => contains(t, HARNESS_MARKER@),
            None => false,
        },
    }
}

/// Message content that carries the marker: a string that contains it, or
/// an array with a part that carries it.
pub open spec fn content_has_marker(c: Option<JsonModel>) -> bool {
    match c {
        Some(JsonModel::Str(s)) => contains(s, HARNESS_MARKER@),
        Some(JsonModel::Array(parts)) => exists|k: int|
            0 <= k < parts.len() && part_has_marker(#[trigger] parts[k]),
        _ => false,
    }
}

/// A prompt-side role: `user` or `developer`.
pub open spec fn is_prompt_role(role: Option<Seq<char>>) -> bool {
    role == Some("user"@) || role == Some("developer"@)
}

/// A `response_item` event whose payload is a `message` in a prompt-side
/// role with the marker in its content.
pub open spec fn carries_directive(e: JsonModel) -> bool {
    str_field(e, "type"@) == Some("response_item"@) && match json_get(e, "payload"@) {
        Some(p) => str_field(p, "type"@) == Some("message"@) && is_prompt_role(
            str_field(p, "role"@),
        ) && content_has_marker(json_get(p, "content"@)),
        None => false,
    }
}

/// Whether a part carries the marker.
fn part_has_marker_exec(p: &JsonValue) -> (r: bool)
    ensures
        r == part_has_marker(p@),
{
    match p.as_str() {
        Some(s) => str_contains(s, HARNESS_MARKER),
        None => match p.str_field("text") {
            Some(t) => str_contains(t, HARNESS_MARKER),
            None => false,
        },
    }
}

/// Whether message content carries the marker.
fn content_has_marker_exec(c: Option<&JsonValue>) -> (r: bool)
    ensures
        r == content_has_marker(crate::json::opt_ref_model(c)),
{
    match c {
        Some(v) => match v.as_str() {
            Some(s) => str_contains(s, HARNESS_MARKER),
            None => match v.as_array() {
                Some(parts) => {
                    let ghost ms = crate::json::json_array(v@)->0;
                    let mut k: usize = 0;
                    while k < parts.len()
                        invariant
                            k <= parts@.len(),
                            ms.len() == parts@.len(),
                            crate::json::json_array(v@) == Some(ms),
                            crate::json::opt_ref_model(c) == Some(v@),
                            forall|j: int| 0 <= j < ms.len() ==> #[trigger] ms[j] == parts@[j]@,
                            forall|j: int| 0 <= j < k ==> !part_has_marker(#[trigger] ms[j]),
                        decreases parts@.len() - k,
                    {
                        if part_has_marker_exec(&parts[k]) {
                            assert(part_has_marker(ms[k as int]));
                            return true;
                        }
                        k = k + 1;
                    }
                    false
                },
                None => false,
            },
        },
        None => false,
    }
}

/// Whether an event carries the directive.
fn carries_directive_exec(e: &JsonValue) -> (r: bool)
    ensures
        r == carries_directive(e@),
{
    let is_item = match e.str_field("type") {
        Some(kind) => str_eq(kind, "response_item"),
        None => false,
    };
    if !is_item {
        return false;
    }
    let payload = match e.get("payload") {
        Some(p) => p,
        None => return false,
    };
    let is_message = match payload.str_field("type") {
        Some(kind) => str_eq(kind, "message"),
        None => false,
    };
    if !is_message {
        return false;
    }
    let prompt_role = match payload.str_field("role") {
        Some(role) => str_eq(role, "user") || str_eq(role, "developer"),
        None => false,
    };
    if !prompt_role {
        return false;
    }
    content_has_marker_exec(payload.get("content"))
}

/// Whether some parsed event carries the directive.
pub fn any_carries_directive(events: &Vec<JsonValue>) -> (r: bool)
    ensures
        r == exists|k: int|
            0 <= k < events@.len() && carries_directive(#[trigger] models(events@)[k]),
{
    let mut i: usize = 0;
    while i < events.len()
        invariant
            i <= events@.len(),
            forall|j: int| 0 <= j < i ==> !carries_directive(#[trigger] models(events@)[j]),
        decreases events@.len() - i,
    {
        if carries_directive_exec(&events[i]) {
            assert(carries_directive(models(events@)[i as int]));
            return true;
        }
        i = i + 1;
    }
    false
}

/// Whether the harness directive reached the model's prompt in a session
/// rollout: some line that parses is a `response_item` whose payload is a
/// `message` from the `user` or `developer` role with the marker
/// in its content (a string, or an array of string parts or parts with a
/// `text` member).  Tool output that merely echoes the marker does not
/// count, and lines that do not parse are skipped.
pub fn rollout_carries_harness_directive(rollout_jsonl: &str) -> (r: bool)
    ensures
        r == exists|k: int|
            0 <= k < parsed_ok(event_lines(rollout_jsonl@)).len() && carries_directive(
                #[trigger] parsed_ok(event_lines(rollout_jsonl@))[k],
            ),
{
    let ls = event_lines_exec(rollout_jsonl);
    let events = parse_ok_lines(&ls);
    any_carries_directive(&events)
}

// ---------------------------------------------------------------------------
// Files the model meant to change
// ---------------------------------------------------------------------------

/// The normalized, non-empty `path` members of file-change entries, in
/// order.
pub open spec fn change_paths(changes: Seq<JsonModel>) -> Seq<Seq<char>>
    decreases changes.len(),
{
    if changes.len() == 0 {
        Seq::empty()
    } else {
        let rest = change_paths(changes.drop_last());
        match str_field(changes.last(), "path"@) {
            Some(raw) => {
                let n = spec_normalize_path(raw);
                if n.len() > 0 {
                    rest.push(n)
                } else {
                    rest
                }
            },
            None => rest,
        }
    }
}

/// The `item.changes` array of an `item.completed` event whose item is a
/// `file_change`; empty for any other event.
pub open spec fn file_changes(e: JsonModel) -> Seq<JsonModel> {
    if str_field(e, "type"@) != Some("item.completed"@) {
        Seq::empty()
    } else {
        match json_get(e, "item"@) {
            Some(item) => if str_field(item, "type"@) == Some("file_change"@) {
                match json_get(item, "changes"@) {
                    Some(c) => match crate::json::json_array(c) {
                        Some(cs) => cs,
                        None => Seq::empty(),
                    },
                    None => Seq::empty(),
                }
            } else {
                Seq::empty()
            },
            None => Seq::empty(),
        }
    }
}

/// The changed paths of all events, in order, repeats kept.
pub open spec fn intent_path_seq(es: Seq<JsonModel>) -> Seq<Seq<char>>
    decreases es.len(),
{
    if es.len() == 0 {
        Seq::empty()
    } else {
        intent_path_seq(es.drop_last()) + change_paths(file_changes(es.last()))
    }
}

/// Appends the changed paths of one event.
fn push_change_paths(e: &JsonValue, out: &mut Vec<String>)
    ensures
        str_views(final(out)@) == str_views(old(out)@) + change_paths(file_changes(e@)),
{
    let completed = match e.str_field("type") {
        Some(kind) => str_eq(kind, "item.completed"),
        None => false,
    };
    if !completed {
        assert(str_views(out@) + Seq::<Seq<char>>::empty() =~= str_views(out@));
        return;
    }
    let item = match e.get("item") {
        Some(item) => item,
        None => {
            assert(str_views(out@) + Seq::<Seq<char>>::empty() =~= str_views(out@));
            return;
        },
    };
    let is_change = match item.str_field("type") {
        Some(kind) => str_eq(kind, "file_change"),
        None => false,
    };
    if !is_change {
        assert(str_views(out@) + Seq::<Seq<char>>::empty() =~= str_views(out@));
        return;
    }
    let changes = match item.get("changes") {
        Some(c) => match c.as_array() {
            Some(cs) => cs,
            None => {
                assert(str_views(out@) + Seq::<Seq<char>>::empty() =~= str_views(out@));
                return;
            },
        },
        None => {
            assert(str_views(out@) + Seq::<Seq<char>>::empty() =~= str_views(out@));
            return;
        },
    };
    let ghost ms = file_changes(e@);
    let ghost start = str_views(out@);
    let mut k: usize = 0;
    assert(ms.take(0) =~= Seq::<JsonModel>::empty());
    assert(start + change_paths(ms.take(0)) =~= start);
    while k < changes.len()
        invariant
            k <= changes@.len(),
            ms.len() == changes@.len(),
            forall|j: int| 0 <= j < ms.len() ==> #[trigger] ms[j] == changes@[j]@,
            str_views(out@) == start + change_paths(ms.take(k as int)),
        decreases changes@.len() - k,
    {
        let ghost prefix = ms.take(k + 1);
        assert(prefix.drop_last() =~= ms.take(k as int));
        assert(prefix.last() == changes@[k as int]@);
        let ghost before = str_views(out@);
        match changes[k].str_field("path") {
            Some(raw) => {
                let normalized = normalize_agent_eval_path(raw);
                if !normalized.as_str().is_empty() {
                    out.push(normalized);
                    assert(str_views(out@) =~= before.push(normalized@));
                }
            },
            None => {},
        }
        k = k + 1;
    }
    assert(ms.take(ms.len() as int) =~= ms);
}

/// The files that parsed events show the model changing on purpose: the
/// `path` of every entry of `item.changes` in `item.completed` events whose
/// item is a `file_change`, normalized to repo-relative form, empty ones
/// dropped, each once, sorted.
pub fn intent_changed_files(events: &Vec<JsonValue>) -> (r: Vec<String>)
    ensures
        sorted_set_of(str_views(r@), intent_path_seq(models(events@)).to_set()),
{
    let mut all: Vec<String> = Vec::new();
    let mut i: usize = 0;
    while i < events.len()
        invariant
            i <= events@.len(),
            str_views(all@) == intent_path_seq(models(events@).take(i as int)),
        decreases events@.len() - i,
    {
        let ghost prefix = models(events@).take(i + 1);
        assert(prefix.drop_last() =~= models(events@).take(i as int));
        assert(prefix.last() == events@[i as int]@);
        push_change_paths(&events[i], &mut all);
        i = i + 1;
    }
    assert(models(events@).take(events@.len() as int) =~= models(events@));
    sorted_of(&all)
}

/// The files a `codex exec --json` stream shows the model changing on
/// purpose (see [`intent_changed_files`]).  Lines that are not JSON are
/// skipped; only bytes that are not UTF-8 are an error.
pub fn intent_changed_files_from_exec_jsonl(bytes: &[u8]) -> (r: Result<
    Vec<String>,
    EventStreamError,
>)
    ensures
        match r {
            Ok(paths) => vstd::utf8::valid_utf8(bytes@) && sorted_set_of(
                str_views(paths@),
                intent_path_seq(
                    parsed_ok(event_lines(vstd::utf8::decode_utf8(bytes@))),
                ).to_set(),
            ),
            Err(e) => !vstd::utf8::valid_utf8(bytes@) && e == EventStreamError::InvalidUtf8,
        },
{
    match decode_utf8(bytes) {
        None => Err(EventStreamError::InvalidUtf8),
        Some(text) => {
            let ls = event_lines_exec(text);
            let events = parse_ok_lines(&ls);
            Ok(intent_changed_files(&events))
        },
    }
}

// ---------------------------------------------------------------------------
// Tool activity
// ---------------------------------------------------------------------------

/// Per-run activity counts from a `codex exec --json` stream: coarse,
/// post-hoc visibility into whether the model wandered the repository.
#[derive(Debug, Clone, Copy, PartialEq, Eq, Structural)]
pub struct AgentActivityCounts {
    /// Every `item.completed` event, whatever its item.
    pub tool_calls: u32,
    /// `item.completed` events whose item is a `command_execution`.
    pub shell_commands: u32,
    /// Shell commands classified as repository navigation.
    pub discover_commands: u32,
    /// Shell commands classified as file reading.
    pub file_reads: u32,
    /// Shell commands classified as edits, and `file_change` items.
    pub edit_commands: u32,
    /// Shell commands classified as post-edit checks.
    pub verify_commands: u32,
}

impl Default for AgentActivityCounts {
    fn default() -> (r: Self)
        ensures
            r == (AgentActivityCounts {
                tool_calls: 0,
                shell_commands: 0,
                discover_commands: 0,
                file_reads: 0,
                edit_commands: 0,
                verify_commands: 0,
            }),
    {
        AgentActivityCounts {
            tool_calls: 0,
            shell_commands: 0,
            discover_commands: 0,
            file_reads: 0,
            edit_commands: 0,
            verify_commands: 0,
        }
    }
}

/// The kinds of activity that [`AgentActivityCounts`] counts.
pub enum Activity {
    ToolCall,
    Shell,
    Discover,
    Read,
    Edit,
    Verify,
}

/// The item of an `item.completed` event, if it has one.
pub open spec fn completed_item(e: JsonModel) -> Option<JsonModel> {
    if str_field(e, "type"@) == Some("item.completed"@) {
        json_get(e, "item"@)
    } else {
        None
    }
}

/// The shell phase of a `command_execution` item (its `command`, or the
/// empty command when it has none).
pub open spec fn item_phase(item: JsonModel) -> Seq<char> {
    spec_shell_phase(
        match str_field(item, "command"@) {
            Some(c) => c,
            None => Seq::empty(),
        },
    )
}

/// Whether event `e` counts once toward activity `a`.
pub open spec fn counts_toward(e: JsonModel, a: Activity) -> bool {
    let is_call = str_field(e, "type"@) == Some("item.completed"@);
    match a {
        Activity::ToolCall => is_call,
        _ => match completed_item(e) {
            None => false,
            Some(item) => {
                let t = str_field(item, "type"@);
                if t == Some("file_change"@) {
                    a is Edit
                } else if t != Some("command_execution"@) {
                    false
                } else {
                    match a {
                        Activity::Shell => true,
                        Activity::Discover => item_phase(item) == "discover"@,
                        Activity::Read => item_phase(item) == "read"@,
                        Activity::Edit => item_phase(item) == "edit"@,
                        Activity::Verify => item_phase(item) == "verify"@,
                        Activity::ToolCall => true,
                    }
                }
            },
        },
    }
}

/// How many events count toward activity `a`.
pub open spec fn tally(es: Seq<JsonModel>, a: Activity) -> nat
    decreases es.len(),
{
    if es.len() == 0 {
        0
    } else {
        tally(es.drop_last(), a) + if counts_toward(es.last(), a) {
            1nat
        } else {
            0nat
        }
    }
}

/// The saturating counts of each activity over the events.
pub open spec fn activity_counts(es: Seq<JsonModel>) -> AgentActivityCounts {
    AgentActivityCounts {
        tool_calls: capped_u32(tally(es, Activity::ToolCall)),
        shell_commands: capped_u32(tally(es, Activity::Shell)),
        discover_commands: capped_u32(tally(es, Activity::Discover)),
        file_reads: capped_u32(tally(es, Activity::Read)),
        edit_commands: capped_u32(tally(es, Activity::Edit)),
        verify_commands: capped_u32(tally(es, Activity::Verify)),
    }
}

/// `n + 1`, or `n` at `u32::MAX`.
fn bump(n: u32) -> (r: u32)
    ensures
        r == if n < u32::MAX {
            (n + 1) as u32
        } else {
            n
        },
{
    if n < u32::MAX {
        n + 1
    } else {
        n
    }
}

/// Adds one event's activity to the counts.
fn count_event(e: &JsonValue, counts: &mut AgentActivityCounts)
    ensures
        final(counts).tool_calls == if counts_toward(e@, Activity::ToolCall) {
            if old(counts).tool_calls < u32::MAX {
                (old(counts).tool_calls + 1) as u32
            } else {
                old(counts).tool_calls
            }
        } else {
            old(counts).tool_calls
        },
        final(counts).shell_commands == if counts_toward(e@, Activity::Shell) {
            if old(counts).shell_commands < u32::MAX {
                (old(counts).shell_commands + 1) as u32
            } else {
                old(counts).shell_commands
            }
        } else {
            old(counts).shell_commands
        },
        final(counts).discover_commands == if counts_toward(e@, Activity::Discover) {
            if old(counts).discover_commands < u32::MAX {
                (old(counts).discover_commands + 1) as u32
            } else {
                old(counts).discover_commands
            }
        } else {
            old(counts).discover_commands
        },
        final(counts).file_reads == if counts_toward(e@, Activity::Read) {
            if old(counts).file_reads < u32::MAX {
                (old(counts).file_reads + 1) as u32
            } else {
                old(counts).file_reads
            }
        } else {
            old(counts).file_reads
        },
        final(counts).edit_commands == if counts_toward(e@, Activity::Edit) {
            if old(counts).edit_commands < u32::MAX {
                (old(counts).edit_commands + 1) as u32
            } else {
                old(counts).edit_commands
            }
        } else {
            old(counts).edit_commands
        },
        final(counts).verify_commands == if counts_toward(e@, Activity::Verify) {
            if old(counts).verify_commands < u32::MAX {
                (old(counts).verify_commands + 1) as u32
            } else {
                old(counts).verify_commands
            }
        } else {
            old(counts).verify_commands
        },
{
    let is_call = match e.str_field("type") {
        Some(kind) => str_eq(kind, "item.completed"),
        None => false,
    };
    if !is_call {
        return;
    }
    counts.tool_calls = bump(counts.tool_calls);
    let item = match e.get("item") {
        Some(item) => item,
        None => return,
    };
    let (is_change, is_command) = match item.str_field("type") {
        Some(kind) => (str_eq(kind, "file_change"), str_eq(kind, "command_execution")),
        None => (false, false),
    };
    if is_change {
        counts.edit_commands = bump(counts.edit_commands);
        return;
    }
    if !is_command {
        return;
    }
    counts.shell_commands = bump(counts.shell_commands);
    let raw = match item.str_field("command") {
        Some(c) => c,
        None => {
            proof {
                reveal_strlit("");
            }
            assert(""@ =~= Seq::<char>::empty());
            ""
        },
    };
    assert(raw@ == match str_field(item@, "command"@) {
        Some(c) => c,
        None => Seq::<char>::empty(),
    });
    proof {
        reveal_strlit("file_change");
        reveal_strlit("command_execution");
        reveal_strlit("discover");
        reveal_strlit("read");
        reveal_strlit("edit");
        reveal_strlit("verify");
    }
    let phase = classify_shell_phase(raw);
    assert(completed_item(e@) == Some(item@));
    assert(str_field(item@, "type"@) == Some("command_execution"@));
    assert(phase@ == item_phase(item@));
    assert(counts_toward(e@, Activity::Discover) == (phase@ == "discover"@));
    assert(counts_toward(e@, Activity::Read) == (phase@ == "read"@));
    assert(counts_toward(e@, Activity::Edit) == (phase@ == "edit"@));
    assert(counts_toward(e@, Activity::Verify) == (phase@ == "verify"@));
    if str_eq(phase, "discover") {
        counts.discover_commands = bump(counts.discover_commands);
    }
    if str_eq(phase, "read") {
        counts.file_reads = bump(counts.file_reads);
    }
    if str_eq(phase, "edit") {
        counts.edit_commands = bump(counts.edit_commands);
    }
    if str_eq(phase, "verify") {
        counts.verify_commands = bump(counts.verify_commands);
    }
}

/// Counts tool calls, shell commands and each shell phase over parsed
/// events (every count saturating).
pub fn count_activity(events: &Vec<JsonValue>) -> (r: AgentActivityCounts)
    ensures
        r == activity_counts(models(events@)),
{
    let mut counts = AgentActivityCounts::default();
    let mut i: usize = 0;
    while i < events.len()
        invariant
            i <= events@.len(),
            counts == activity_counts(models(events@).take(i as int)),
        decreases events@.len() - i,
    {
        let ghost prefix = models(events@).take(i + 1);
        assert(prefix.drop_last() =~= models(events@).take(i as int));
        assert(prefix.last() == events@[i as int]@);
        count_event(&events[i], &mut counts);
        i = i + 1;
    }
    assert(models(events@).take(events@.len() as int) =~= models(events@));
    counts
}

/// Parses a `codex exec --json` stream and counts its tool, shell and
/// per-phase activity (see [`count_activity`]).
pub fn count_activity_from_exec_jsonl(bytes: &[u8]) -> (r: Result<
    AgentActivityCounts,
    EventStreamError,
>)
    ensures
        match exec_events(bytes@) {
            Ok(es) => r == Ok::<AgentActivityCounts, EventStreamError>(activity_counts(es)),
            Err(e) => r == Err::<AgentActivityCounts, EventStreamError>(e),
        },
{
    let events = read_exec_events(bytes)?;
    Ok(count_activity(&events))
}

/// The activity counts nest: each event counts toward at most one shell
/// phase, a shell phase other than an edit is only counted for a shell
/// command, and every counted activity is a tool call.
pub proof fn lemma_activity_counts_nest(es: Seq<JsonModel>)
    ensures
        tally(es, Activity::Discover) + tally(es, Activity::Read) + tally(es, Activity::Verify)
            <= tally(es, Activity::Shell),
        tally(es, Activity::Shell) <= tally(es, Activity::ToolCall),
        tally(es, Activity::Discover) + tally(es, Activity::Read) + tally(es, Activity::Edit)
            + tally(es, Activity::Verify) <= tally(es, Activity::ToolCall),
    decreases es.len(),
{
    if es.len() > 0 {
        lemma_activity_counts_nest(es.drop_last());
        let e = es.last();
        reveal_strlit("discover");
        reveal_strlit("read");
        reveal_strlit("edit");
        reveal_strlit("verify");
        reveal_strlit("file_change");
        reveal_strlit("command_execution");
        reveal_strlit("item.completed");
        let ph = match completed_item(e) {
            Some(item) => item_phase(item),
            None => Seq::empty(),
        };
        assert(counts_toward(e, Activity::Shell) ==> counts_toward(e, Activity::ToolCall));
        assert(counts_toward(e, Activity::Discover) ==> ph == "discover"@ && counts_toward(
            e,
            Activity::Shell,
        ));
        assert(counts_toward(e, Activity::Read) ==> ph == "read"@ && counts_toward(
            e,
            Activity::Shell,
        ));
        assert(counts_toward(e, Activity::Verify) ==> ph == "verify"@ && counts_toward(
            e,
            Activity::Shell,
        ));
        assert(counts_toward(e, Activity::Edit) ==> counts_toward(e, Activity::ToolCall));
        if let Some(item) = completed_item(e) {
            if str_field(item, "type"@) == Some("file_change"@) {
                assert(!counts_toward(e, Activity::Discover) && !counts_toward(e, Activity::Read)
                    && !counts_toward(e, Activity::Verify));
            } else if counts_toward(e, Activity::Edit) {
                assert(ph == "edit"@);
                assert("edit"@[0] != "read"@[0] && "edit"@[0] != "verify"@[0]);
                assert("edit"@.len() != "discover"@.len());
            }
        }
    }
}

} // verus!
