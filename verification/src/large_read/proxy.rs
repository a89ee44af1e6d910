//! The proxy's decisions: whether to substitute a read, and the compact
//! response that replaces it.
use std::collections::HashSet;

use vstd::prelude::*;

use super::classifier::{
    classify_command, spec_classify_command, ClassifiedRead, ClassifyOutcome, OutcomeModel,
    PassThroughReason,
};
use super::renderer::{numbering_fits, render_large_read_response, shown_lines, spec_render};
use super::slice::{
    build_slices, slice_models, spec_build_slices, texts_match, well_placed, Slice, SliceModel,
    SliceOptions,
};
use crate::text::{
    chars_of, join, lemma_lines_no_newline, lemma_split_join_len, lines, lines_exec, split,
    str_views, CharClass,
};

verus! {

/// Minimum file size (lines) before a `cat`/`sed` read is worth intercepting.
pub const MIN_FILE_LINES: u32 = 120;

/// What the strings held by `set` are.
pub uninterp spec fn string_set_contents(set: HashSet<String>) -> Set<Seq<char>>;

/// Calls `HashSet::contains`: whether a string equal to `key` is in the set.
#[verifier::external_body]
pub(crate) fn set_contains(set: &HashSet<String>, key: &String) -> (r: bool)
    ensures
        r == string_set_contents(*set).contains(key@),
{
    set.contains(key)
}

/// Calls `HashSet::insert`: afterwards the set holds `key` besides what it
/// held before.
#[verifier::external_body]
pub(crate) fn set_insert(set: &mut HashSet<String>, key: String)
    ensures
        string_set_contents(*final(set)) == string_set_contents(*old(set)).insert(key@),
{
    set.insert(key);
}

/// What the interceptor should do with one model-issued command.
#[derive(Debug, Clone, PartialEq, Eq)]
pub enum ReadDecision {
    /// Not an interceptable large read — run the command unchanged.
    PassThrough(PassThroughReason),
    /// Eligible large read already substituted — let the raw command run.
    Bypass { normalized: String },
    /// Eligible large read, first occurrence: build the compact response.
    Substitutable(ClassifiedRead),
}

/// Mathematical model of a decision.
pub enum DecisionModel {
    PassThrough(PassThroughReason),
    Bypass(Seq<char>),
    Substitutable(OutcomeModel),
}

impl ReadDecision {
    /// The model of the decision.
    pub open spec fn model(&self) -> DecisionModel {
        match self {
            ReadDecision::PassThrough(r) => DecisionModel::PassThrough(*r),
            ReadDecision::Bypass { normalized } => DecisionModel::Bypass(normalized@),
            ReadDecision::Substitutable(read) => DecisionModel::Substitutable(read.model()),
        }
    }
}

/// The decision for a command given the normalized keys already substituted.
pub open spec fn spec_decide_read(raw: Seq<char>, substituted: Set<Seq<char>>) -> DecisionModel {
    match spec_classify_command(raw) {
        OutcomeModel::PassThrough(r) => DecisionModel::PassThrough(r),
        OutcomeModel::Eligible { tool, path, range, normalized } => if substituted.contains(
            normalized,
        ) {
            DecisionModel::Bypass(normalized)
        } else {
            DecisionModel::Substitutable(
                OutcomeModel::Eligible { tool, path, range, normalized },
            )
        },
    }
}

/// Decides what to do with one command, reading (never changing) the
/// per-session registry of substituted keys.
pub fn decide_read(raw_cmd: &str, already_substituted: &HashSet<String>) -> (out: ReadDecision)
    ensures
        out.model() == spec_decide_read(raw_cmd@, string_set_contents(*already_substituted)),
{
    match classify_command(raw_cmd) {
        ClassifyOutcome::PassThrough(reason) => ReadDecision::PassThrough(reason),
        ClassifyOutcome::Eligible(read) => {
            if set_contains(already_substituted, &read.normalized) {
                ReadDecision::Bypass { normalized: read.normalized }
            } else {
                ReadDecision::Substitutable(read)
            }
        },
    }
}

/// Why an eligible read was not substituted.
#[derive(Debug, Clone, PartialEq, Eq)]
pub enum BuildPassThroughReason {
    FileSmallEnough { lines: u32 },
    NoSlices,
}

/// Outcome of building a compact response for an eligible large read.
#[derive(Debug, Clone, PartialEq, Eq)]
pub enum LargeReadOutcome {
    Substitute { rendered: String, slices: Vec<Slice>, total_lines: u32, raw_bytes: usize },
    /// Eligible by command shape, but the raw read is cheap — run it unchanged.
    PassThrough(BuildPassThroughReason),
}

/// Mathematical model of a build outcome.
pub enum BuildModel {
    Substitute { rendered: Seq<char>, slices: Seq<SliceModel>, total_lines: u32, raw_bytes: nat },
    PassThrough(BuildPassThroughReason),
}

impl LargeReadOutcome {
    /// The model of the outcome.
    pub open spec fn model(&self) -> BuildModel {
        match self {
            LargeReadOutcome::Substitute { rendered, slices, total_lines, raw_bytes } => {
                BuildModel::Substitute {
                    rendered: rendered@,
                    slices: slice_models(slices@),
                    total_lines: *total_lines,
                    raw_bytes: *raw_bytes as nat,
                }
            },
            LargeReadOutcome::PassThrough(r) => BuildModel::PassThrough(*r),
        }
    }
}

/// The compact response for an eligible read of a file with `content`.
pub open spec fn spec_build_response(
    read: OutcomeModel,
    content: Seq<char>,
    raw_bytes: nat,
    hints: Seq<Seq<char>>,
    opts: SliceOptions,
) -> BuildModel {
    let total = lines(content).len();
    if total < MIN_FILE_LINES {
        BuildModel::PassThrough(BuildPassThroughReason::FileSmallEnough { lines: total as u32 })
    } else {
        let slices = spec_build_slices(content, hints, opts);
        if slices.len() == 0 {
            BuildModel::PassThrough(BuildPassThroughReason::NoSlices)
        } else {
            match read {
                OutcomeModel::Eligible { path, range, .. } => BuildModel::Substitute {
                    rendered: spec_render(path, range, slices, total as u32),
                    slices,
                    total_lines: total as u32,
                    raw_bytes,
                },
                OutcomeModel::PassThrough(_) => BuildModel::PassThrough(
                    BuildPassThroughReason::NoSlices,
                ),
            }
        }
    }
}

proof fn lemma_shown_le_last_end(s: Seq<SliceModel>, total: int, max_lines: int)
    requires
        well_placed(s, total, max_lines),
        total >= 0,
    ensures
        s.len() > 0 ==> shown_lines(s) <= s.last().end,
        shown_lines(s) <= total,
    decreases s.len(),
{
    if s.len() > 0 {
        let t = s.drop_last();
        assert(well_placed(t, total, max_lines)) by {
            assert forall|i: int, j: int| 0 <= i < j < t.len() implies #[trigger] t[i].end
                < #[trigger] t[j].start by {
                assert(t[i] == s[i] && t[j] == s[j]);
            }
            assert forall|i: int| 0 <= i < t.len() implies 1 <= #[trigger] t[i].start
                <= t[i].end <= total && t[i].end - t[i].start + 1 <= max_lines by {
                assert(t[i] == s[i]);
            }
        }
        lemma_shown_le_last_end(t, total, max_lines);
        assert(1 <= s[s.len() - 1].start);
        assert(s.last() == s[s.len() - 1]);
        assert(s[s.len() - 1].end <= total);
        if t.len() > 0 {
            assert(t.last() == s[s.len() - 2]);
            assert(s[s.len() - 2].end < s[s.len() - 1].start);
        }
    }
}

/// Builds the compact-slice response for an eligible large read, given the
/// file's content. The caller does the file I/O and passes the content of
/// the classified path.
pub fn build_large_read_response(
    classified: &ClassifiedRead,
    content: &str,
    hints: &[String],
    opts: &SliceOptions,
) -> (out: LargeReadOutcome)
    requires
        lines(content@).len() + opts.max_lines_per_slice <= u32::MAX,
    ensures
        out.model() == spec_build_response(
            classified.model(),
            content@,
            content.len() as nat,
            str_views(hints@),
            *opts,
        ),
{
    let cc = chars_of(content);
    let ls = lines_exec(cc.as_slice());
    let total_lines: u32 = ls.len() as u32;
    if total_lines < MIN_FILE_LINES {
        return LargeReadOutcome::PassThrough(
            BuildPassThroughReason::FileSmallEnough { lines: total_lines },
        );
    }
    let slices = build_slices(content, hints, opts);
    if slices.len() == 0 {
        return LargeReadOutcome::PassThrough(BuildPassThroughReason::NoSlices);
    }
    proof {
        let sm = slice_models(slices@);
        let lv = lines(content@);
        lemma_shown_le_last_end(sm, lv.len() as int, opts.max_lines_per_slice as int);
        lemma_lines_no_newline(content@, 0);
        assert forall|i: int| 0 <= i < sm.len() implies #[trigger] sm[i].start + split(
            sm[i].text,
            CharClass::Is('\n'),
        ).len() <= u32::MAX by {
            let v = lv.subrange(sm[i].start - 1, sm[i].end as int);
            assert forall|a: int, b: int| 0 <= a < v.len() && 0 <= b < v[a].len() implies #[trigger] v[a][b]
                != '\n' by {
                assert(v[a] == lv[sm[i].start - 1 + a]);
            }
            assert("\n"@ =~= seq!['\n']) by {
                reveal_strlit("\n");
            }
            lemma_split_join_len(v, '\n');
        }
    }
    let rendered = render_large_read_response(classified, slices.as_slice(), total_lines);
    LargeReadOutcome::Substitute { rendered, slices, total_lines, raw_bytes: content.len() }
}

} // verus!
