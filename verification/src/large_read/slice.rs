//! Build compact slices from a large file: up to `max_slices` windows of at
//! most `max_lines_per_slice` lines each, under `max_total_bytes` in total —
//! favoring the header, public definitions and a test module, or windows
//! around hinted symbols when the caller supplies them.
use vstd::prelude::*;

use crate::text::{
    chars_of, chars_of_all, contains, contains_exec, eq_chars, extend_chars, join, join_range,
    lines, lines_exec, starts_with, starts_with_exec, str_views, string_from, trim, trim_end,
    trim_end_class_exec, trim_exec, trim_start, trim_start_class_exec, utf8_len,
    utf8_len_checked, views, CharClass,
};

verus! {

/// One contiguous window of the file. Line numbers are 1-based inclusive.
#[derive(Debug, Clone, PartialEq, Eq)]
pub struct Slice {
    pub start: u32,
    pub end: u32,
    pub reason: String,
    /// The file lines `[start, end]`, joined with `\n`.
    pub text: String,
}

/// Mathematical model of a slice.
pub struct SliceModel {
    pub start: u32,
    pub end: u32,
    pub reason: Seq<char>,
    pub text: Seq<char>,
}

impl Slice {
    /// The model of the slice.
    pub open spec fn model(&self) -> SliceModel {
        SliceModel { start: self.start, end: self.end, reason: self.reason@, text: self.text@ }
    }

    /// Number of lines `end - start + 1`, saturating.
    pub open spec fn spec_line_count(&self) -> int {
        model_line_count(self.model())
    }

    /// Number of lines covered (`end - start + 1`, saturating).
    pub fn line_count(&self) -> (n: u32)
        ensures
            n == self.spec_line_count(),
    {
        self.end.saturating_sub(self.start).saturating_add(1)
    }
}

/// `a.saturating_sub(b)`.
pub open spec fn sat_sub(a: int, b: int) -> int {
    if a >= b {
        a - b
    } else {
        0
    }
}

/// `a.saturating_add(b)` for `u32`.
pub open spec fn sat_add_u32(a: int, b: int) -> int {
    if a + b > u32::MAX {
        u32::MAX as int
    } else {
        a + b
    }
}

/// Line count of a slice model (`end - start + 1`, saturating).
pub open spec fn model_line_count(s: SliceModel) -> int {
    sat_add_u32(sat_sub(s.end as int, s.start as int), 1)
}

/// Limits on the slices built for one file.
#[derive(Debug, Clone, Copy)]
pub struct SliceOptions {
    pub max_slices: usize,
    pub max_lines_per_slice: u32,
    pub max_total_bytes: usize,
}

impl Default for SliceOptions {
    fn default() -> (o: Self)
        ensures
            o.max_slices == 3,
            o.max_lines_per_slice == 30,
            o.max_total_bytes == 6144,
    {
        SliceOptions { max_slices: 3, max_lines_per_slice: 30, max_total_bytes: 6144 }
    }
}

/// The greedy state held by a slice vector and a byte count.
pub open spec fn state_of(v: Seq<Slice>, used: usize) -> SliceState {
    SliceState { slices: slice_models(v), used: used as nat }
}

/// Models of a sequence of slices.
pub open spec fn slice_models(v: Seq<Slice>) -> Seq<SliceModel> {
    v.map_values(|s: Slice| s.model())
}

// ---------------------------------------------------------------------------
// Specification
// ---------------------------------------------------------------------------

/// Bytes of lines `start..=end` (1-based), each counted with its newline.
pub open spec fn window_bytes(lines: Seq<Seq<char>>, start: int, end: int) -> nat
    decreases end + 1 - start,
{
    if end < start || start < 1 || end > lines.len() {
        0
    } else {
        window_bytes(lines, start, end - 1) + utf8_len(lines[end - 1]) + 1
    }
}

/// The slice model for lines `start..=end`.
pub open spec fn window_model(
    lines: Seq<Seq<char>>,
    start: u32,
    end: u32,
    reason: Seq<char>,
) -> SliceModel {
    SliceModel {
        start,
        end,
        reason,
        text: join(lines.subrange(start - 1, end as int), "\n"@),
    }
}

/// Whether `[start, end]` intersects one of the accepted slices.
pub open spec fn overlaps_any(slices: Seq<SliceModel>, start: int, end: int) -> bool {
    exists|i: int| 0 <= i < slices.len() && start <= slices[i].end && slices[i].start <= end
}

/// Index of the first accepted slice that starts after `start`, from `i`.
pub open spec fn first_after(slices: Seq<SliceModel>, start: int, i: int) -> int
    decreases slices.len() - i,
{
    if i < 0 || i >= slices.len() {
        slices.len() as int
    } else if slices[i].start > start {
        i
    } else {
        first_after(slices, start, i + 1)
    }
}

/// Accepted slices (kept sorted by start) and the bytes they use.
pub struct SliceState {
    pub slices: Seq<SliceModel>,
    pub used: nat,
}

/// Adds `[start, end]` unless it would exceed `max_slices`, overlap an
/// accepted slice, or exceed the byte budget. Accepted slices stay sorted.
pub open spec fn spec_try_push(
    st: SliceState,
    lines: Seq<Seq<char>>,
    start: u32,
    end: u32,
    reason: Seq<char>,
    opts: SliceOptions,
) -> SliceState {
    if st.slices.len() >= opts.max_slices || start > end {
        st
    } else if overlaps_any(st.slices, start as int, end as int) {
        st
    } else if st.used + window_bytes(lines, start as int, end as int) > opts.max_total_bytes {
        st
    } else {
        SliceState {
            slices: st.slices.insert(
                first_after(st.slices, start as int, 0),
                window_model(lines, start, end, reason),
            ),
            used: st.used + window_bytes(lines, start as int, end as int),
        }
    }
}

/// The prefixes that mark a line as a definition.
pub open spec fn def_prefixes() -> Seq<Seq<char>> {
    seq![
        "pub fn "@,
        "pub struct "@,
        "pub enum "@,
        "pub trait "@,
        "pub const "@,
        "pub type "@,
        "pub mod "@,
        "pub async fn "@,
        "fn "@,
    ]
}

/// If `line` declares a public item (or a free `fn`), a short reason naming it.
pub open spec fn spec_pub_def_reason(line: Seq<char>) -> Option<Seq<char>> {
    let t = trim_start(line);
    if exists|i: int| 0 <= i < def_prefixes().len() && starts_with(t, #[trigger] def_prefixes()[i]) {
        Some("definition: "@ + trim_end(t).take(if trim_end(t).len() < 60 {
            trim_end(t).len() as int
        } else {
            60
        }))
    } else {
        None
    }
}

/// Definition anchors among the first `n` lines, in line order.
pub open spec fn def_anchors(lines: Seq<Seq<char>>, n: int) -> Seq<(int, Seq<char>)>
    decreases n,
{
    if n <= 0 || n > lines.len() {
        Seq::empty()
    } else {
        match spec_pub_def_reason(lines[n - 1]) {
            Some(r) => def_anchors(lines, n - 1).push((n, r)),
            None => def_anchors(lines, n - 1),
        }
    }
}

/// Whether a line opens the test module.
pub open spec fn is_test_module_line(line: Seq<char>) -> bool {
    contains(line, "mod tests"@) || trim(line) == "#[cfg(test)]"@
}

/// Index of the first line at or after `i` satisfying `is_test_module_line`, or -1.
pub open spec fn first_test_line(lines: Seq<Seq<char>>, i: int) -> int
    decreases lines.len() - i,
{
    if i < 0 || i >= lines.len() {
        -1
    } else if is_test_module_line(lines[i]) {
        i
    } else {
        first_test_line(lines, i + 1)
    }
}

/// Index of the first line at or after `i` that contains `hint`, or -1.
pub open spec fn first_line_containing(lines: Seq<Seq<char>>, hint: Seq<char>, i: int) -> int
    decreases lines.len() - i,
{
    if i < 0 || i >= lines.len() {
        -1
    } else if contains(lines[i], hint) {
        i
    } else {
        first_line_containing(lines, hint, i + 1)
    }
}

/// Hint anchors for the first `n` hints, in hint order.
pub open spec fn hint_anchors(lines: Seq<Seq<char>>, hints: Seq<Seq<char>>, n: int) -> Seq<
    (int, Seq<char>),
>
    decreases n,
{
    if n <= 0 || n > hints.len() {
        Seq::empty()
    } else {
        let k = first_line_containing(lines, hints[n - 1], 0);
        if k >= 0 {
            hint_anchors(lines, hints, n - 1).push((k + 1, "match: "@ + hints[n - 1]))
        } else {
            hint_anchors(lines, hints, n - 1)
        }
    }
}

/// The anchors of a file: hint matches when hints are given, else public
/// definitions followed by the test module.
pub open spec fn spec_anchors(lines: Seq<Seq<char>>, hints: Seq<Seq<char>>) -> Seq<(int, Seq<char>)> {
    if hints.len() == 0 {
        let t = first_test_line(lines, 0);
        if t >= 0 {
            def_anchors(lines, lines.len() as int).push((t + 1, "test module"@))
        } else {
            def_anchors(lines, lines.len() as int)
        }
    } else {
        hint_anchors(lines, hints, hints.len() as int)
    }
}

/// The window of an anchor: two lines of context before it, clipped to the file.
pub open spec fn anchor_start(anchor: int) -> int {
    if anchor - 2 < 1 {
        1
    } else {
        anchor - 2
    }
}

/// Last line of the window starting at `start`.
pub open spec fn anchor_end(start: int, max_lines: int, total: int) -> int {
    if start + max_lines - 1 < total {
        start + max_lines - 1
    } else {
        total
    }
}

/// Applies the first `k` anchors to the state.
pub open spec fn fold_anchors(
    st: SliceState,
    lines: Seq<Seq<char>>,
    anchors: Seq<(int, Seq<char>)>,
    k: int,
    opts: SliceOptions,
) -> SliceState
    decreases k,
{
    if k <= 0 || k > anchors.len() {
        st
    } else {
        let prev = fold_anchors(st, lines, anchors, k - 1, opts);
        let start = anchor_start(anchors[k - 1].0);
        let end = anchor_end(start, opts.max_lines_per_slice as int, lines.len() as int);
        spec_try_push(prev, lines, start as u32, end as u32, anchors[k - 1].1, opts)
    }
}

/// The header slice state: lines `1..=min(total, max_lines_per_slice)`.
pub open spec fn header_state(lines: Seq<Seq<char>>, opts: SliceOptions) -> SliceState {
    let header_end = if lines.len() < opts.max_lines_per_slice {
        lines.len() as int
    } else {
        opts.max_lines_per_slice as int
    };
    spec_try_push(
        SliceState { slices: Seq::empty(), used: 0 },
        lines,
        1,
        header_end as u32,
        "file header / imports"@,
        opts,
    )
}

/// The slices of `content`, sorted by start line.
pub open spec fn spec_build_slices(
    content: Seq<char>,
    hints: Seq<Seq<char>>,
    opts: SliceOptions,
) -> Seq<SliceModel> {
    let ls = lines(content);
    if ls.len() == 0 {
        Seq::empty()
    } else {
        let anchors = spec_anchors(ls, hints);
        fold_anchors(header_state(ls, opts), ls, anchors, anchors.len() as int, opts).slices
    }
}

/// Accepted slices are within the file, at most `max_lines` long, sorted
/// and pairwise disjoint.
pub open spec fn well_placed(s: Seq<SliceModel>, total: int, max_lines: int) -> bool {
    &&& forall|i: int|
        0 <= i < s.len() ==> 1 <= #[trigger] s[i].start <= s[i].end <= total && s[i].end
            - s[i].start + 1 <= max_lines
    &&& forall|i: int, j: int| 0 <= i < j < s.len() ==> #[trigger] s[i].end < #[trigger] s[j].start
}

/// Sum of the window bytes of the slices.
pub open spec fn slices_bytes(lines: Seq<Seq<char>>, s: Seq<SliceModel>) -> nat
    decreases s.len(),
{
    if s.len() == 0 {
        0
    } else {
        slices_bytes(lines, s.drop_last()) + window_bytes(
            lines,
            s.last().start as int,
            s.last().end as int,
        )
    }
}

/// Each slice's text is its lines joined with `\n`.
pub open spec fn texts_match(s: Seq<SliceModel>, lines: Seq<Seq<char>>) -> bool {
    forall|i: int|
        0 <= i < s.len() ==> #[trigger] s[i].text == join(
            lines.subrange(s[i].start - 1, s[i].end as int),
            "\n"@,
        )
}

/// The invariant of the greedy state.
pub open spec fn state_ok(st: SliceState, lines: Seq<Seq<char>>, opts: SliceOptions) -> bool {
    &&& well_placed(st.slices, lines.len() as int, opts.max_lines_per_slice as int)
    &&& texts_match(st.slices, lines)
    &&& st.slices.len() <= opts.max_slices
    &&& st.used == slices_bytes(lines, st.slices)
    &&& st.used <= opts.max_total_bytes
}

// ---------------------------------------------------------------------------
// Lemmas
// ---------------------------------------------------------------------------

proof fn lemma_first_after(s: Seq<SliceModel>, start: int, i: int)
    requires
        0 <= i <= s.len(),
    ensures
        i <= first_after(s, start, i) <= s.len(),
        forall|j: int| i <= j < first_after(s, start, i) ==> s[j].start <= start,
        first_after(s, start, i) < s.len() ==> s[first_after(s, start, i)].start > start,
    decreases s.len() - i,
{
    if i < s.len() && s[i].start <= start {
        lemma_first_after(s, start, i + 1);
    }
}

proof fn lemma_slices_bytes_insert(lines: Seq<Seq<char>>, s: Seq<SliceModel>, p: int, x: SliceModel)
    requires
        0 <= p <= s.len(),
    ensures
        slices_bytes(lines, s.insert(p, x)) == slices_bytes(lines, s) + window_bytes(
            lines,
            x.start as int,
            x.end as int,
        ),
    decreases s.len(),
{
    if p == s.len() {
        assert(s.insert(p, x).drop_last() =~= s);
    } else {
        lemma_slices_bytes_insert(lines, s.drop_last(), p, x);
        assert(s.insert(p, x).drop_last() =~= s.drop_last().insert(p, x));
        assert(s.insert(p, x).last() == s.last());
    }
}

proof fn lemma_try_push_ok(
    st: SliceState,
    lines: Seq<Seq<char>>,
    start: u32,
    end: u32,
    reason: Seq<char>,
    opts: SliceOptions,
)
    requires
        state_ok(st, lines, opts),
        start <= end ==> 1 <= start && end <= lines.len() && end - start + 1
            <= opts.max_lines_per_slice,
    ensures
        state_ok(spec_try_push(st, lines, start, end, reason, opts), lines, opts),
{
    let s = st.slices;
    if s.len() >= opts.max_slices || start > end {
    } else if overlaps_any(s, start as int, end as int) {
    } else if st.used + window_bytes(lines, start as int, end as int) > opts.max_total_bytes {
    } else {
        let p = first_after(s, start as int, 0);
        lemma_first_after(s, start as int, 0);
        let x = window_model(lines, start, end, reason);
        let t = s.insert(p, x);
        lemma_slices_bytes_insert(lines, s, p, x);
        assert forall|i: int, j: int| 0 <= i < j < t.len() implies #[trigger] t[i].end
            < #[trigger] t[j].start by {
            if j < p {
                assert(t[i] == s[i] && t[j] == s[j]);
            } else if i > p {
                assert(t[i] == s[i - 1] && t[j] == s[j - 1]);
            } else if i == p {
                assert(t[j] == s[j - 1]);
                assert(s[p].start > start);
                assert(!(start <= s[p].end && s[p].start <= end));
                if j - 1 > p {
                    assert(s[p].end < s[j - 1].start);
                }
            } else {
                assert(i < p && j >= p);
                assert(t[i] == s[i]);
                assert(s[p - 1].start <= start);
                assert(!(start <= s[p - 1].end && s[p - 1].start <= end));
                if i < p - 1 {
                    assert(s[i].end < s[p - 1].start);
                }
                if j > p {
                    assert(t[j] == s[j - 1]);
                    if j - 1 > p - 1 {
                        assert(s[p - 1].end < s[j - 1].start);
                    }
                }
            }
        }
        assert forall|i: int| 0 <= i < t.len() implies 1 <= #[trigger] t[i].start <= t[i].end
            <= lines.len() && t[i].end - t[i].start + 1 <= opts.max_lines_per_slice by {
            if i < p {
                assert(t[i] == s[i]);
            } else if i > p {
                assert(t[i] == s[i - 1]);
            }
        }
        assert forall|i: int| 0 <= i < t.len() implies #[trigger] t[i].text == join(
            lines.subrange(t[i].start - 1, t[i].end as int),
            "\n"@,
        ) by {
            if i < p {
                assert(t[i] == s[i]);
            } else if i > p {
                assert(t[i] == s[i - 1]);
            }
        }
    }
}

proof fn lemma_fold_anchors_ok(
    st: SliceState,
    lines: Seq<Seq<char>>,
    anchors: Seq<(int, Seq<char>)>,
    k: int,
    opts: SliceOptions,
)
    requires
        state_ok(st, lines, opts),
        0 <= k <= anchors.len(),
        lines.len() + opts.max_lines_per_slice <= u32::MAX,
        forall|i: int| 0 <= i < anchors.len() ==> 1 <= #[trigger] anchors[i].0 <= lines.len(),
    ensures
        state_ok(fold_anchors(st, lines, anchors, k, opts), lines, opts),
    decreases k,
{
    if k > 0 {
        lemma_fold_anchors_ok(st, lines, anchors, k - 1, opts);
        let start = anchor_start(anchors[k - 1].0);
        let end = anchor_end(start, opts.max_lines_per_slice as int, lines.len() as int);
        lemma_try_push_ok(
            fold_anchors(st, lines, anchors, k - 1, opts),
            lines,
            start as u32,
            end as u32,
            anchors[k - 1].1,
            opts,
        );
    }
}

proof fn lemma_def_anchors_in_range(lines: Seq<Seq<char>>, n: int)
    requires
        0 <= n <= lines.len(),
    ensures
        forall|i: int|
            0 <= i < def_anchors(lines, n).len() ==> 1 <= #[trigger] def_anchors(lines, n)[i].0
                <= n,
    decreases n,
{
    if n > 0 {
        lemma_def_anchors_in_range(lines, n - 1);
        let prev = def_anchors(lines, n - 1);
        match spec_pub_def_reason(lines[n - 1]) {
            Some(r) => {
                assert forall|i: int| 0 <= i < prev.push((n, r)).len() implies 1 <= #[trigger] prev.push(
                    (n, r),
                )[i].0 <= n by {
                    if i < prev.len() {
                        assert(prev.push((n, r))[i] == prev[i]);
                    }
                }
            },
            None => {},
        }
    }
}

proof fn lemma_first_test_line(lines: Seq<Seq<char>>, i: int)
    requires
        0 <= i <= lines.len(),
    ensures
        first_test_line(lines, i) == -1 || i <= first_test_line(lines, i) < lines.len(),
    decreases lines.len() - i,
{
    if i < lines.len() && !is_test_module_line(lines[i]) {
        lemma_first_test_line(lines, i + 1);
    }
}

proof fn lemma_first_line_containing(lines: Seq<Seq<char>>, hint: Seq<char>, i: int)
    requires
        0 <= i <= lines.len(),
    ensures
        first_line_containing(lines, hint, i) == -1 || i <= first_line_containing(lines, hint, i)
            < lines.len(),
    decreases lines.len() - i,
{
    if i < lines.len() && !contains(lines[i], hint) {
        lemma_first_line_containing(lines, hint, i + 1);
    }
}

proof fn lemma_hint_anchors_in_range(lines: Seq<Seq<char>>, hints: Seq<Seq<char>>, n: int)
    requires
        0 <= n <= hints.len(),
    ensures
        forall|i: int|
            0 <= i < hint_anchors(lines, hints, n).len() ==> 1 <= #[trigger] hint_anchors(
                lines,
                hints,
                n,
            )[i].0 <= lines.len(),
    decreases n,
{
    if n > 0 {
        lemma_hint_anchors_in_range(lines, hints, n - 1);
        lemma_first_line_containing(lines, hints[n - 1], 0);
        let prev = hint_anchors(lines, hints, n - 1);
        let k = first_line_containing(lines, hints[n - 1], 0);
        if k >= 0 {
            let x = (k + 1, "match: "@ + hints[n - 1]);
            assert forall|i: int| 0 <= i < prev.push(x).len() implies 1 <= #[trigger] prev.push(
                x,
            )[i].0 <= lines.len() by {
                if i < prev.len() {
                    assert(prev.push(x)[i] == prev[i]);
                }
            }
        }
    }
}

proof fn lemma_anchors_in_range(lines: Seq<Seq<char>>, hints: Seq<Seq<char>>)
    ensures
        forall|i: int|
            0 <= i < spec_anchors(lines, hints).len() ==> 1 <= #[trigger] spec_anchors(
                lines,
                hints,
            )[i].0 <= lines.len(),
{
    if hints.len() == 0 {
        lemma_def_anchors_in_range(lines, lines.len() as int);
        lemma_first_test_line(lines, 0);
    } else {
        lemma_hint_anchors_in_range(lines, hints, hints.len() as int);
    }
}

// ---------------------------------------------------------------------------
// Implementation
// ---------------------------------------------------------------------------

/// Picks the slices of `content`: the file header first, then windows around
/// hinted symbols (when `hints` is non-empty) or around public definitions
/// and the test module; each window is kept only if it fits the limits and
/// does not overlap a kept one. The result is sorted by start line.
pub fn build_slices(content: &str, hints: &[String], opts: &SliceOptions) -> (out: Vec<Slice>)
    requires
        lines(content@).len() + opts.max_lines_per_slice <= u32::MAX,
    ensures
        slice_models(out@) == spec_build_slices(content@, str_views(hints@), *opts),
        out@.len() <= opts.max_slices,
        well_placed(slice_models(out@), lines(content@).len() as int, opts.max_lines_per_slice as int),
        texts_match(slice_models(out@), lines(content@)),
        slices_bytes(lines(content@), slice_models(out@)) <= opts.max_total_bytes,
{
    let content_chars = chars_of(content);
    let ls = lines_exec(content_chars.as_slice());
    let ghost lv = views(ls@);
    let ghost hv = str_views(hints@);
    if ls.len() == 0 {
        let v: Vec<Slice> = Vec::new();
        assert(slice_models(v@) =~= Seq::<SliceModel>::empty());
        return v;
    }
    let total: u32 = ls.len() as u32;
    let mut slices: Vec<Slice> = Vec::new();
    let mut used: usize = 0;
    let header_end = if total < opts.max_lines_per_slice {
        total
    } else {
        opts.max_lines_per_slice
    };
    let ghost st0 = SliceState { slices: Seq::empty(), used: 0 };
    assert(slice_models(slices@) =~= st0.slices);
    try_push(&mut slices, &mut used, &ls, 1, header_end, "file header / imports".to_owned(), opts);
    proof {
        lemma_try_push_ok(st0, lv, 1, header_end, "file header / imports"@, *opts);
    }
    let anchors = compute_anchors(&ls, hints);
    proof {
        lemma_anchors_in_range(lv, hv);
        assert forall|i: int| 0 <= i < anchors@.len() implies 1 <= #[trigger] anchors@[i].0 <= total by {
            assert(anchor_models(anchors@)[i].0 == anchors@[i].0 as int);
        }
    }
    let ghost hs = header_state(lv, *opts);
    let mut k: usize = 0;
    while k < anchors.len()
        invariant
            k <= anchors@.len(),
            lv == views(ls@),
            lv.len() == total,
            total + opts.max_lines_per_slice <= u32::MAX,
            anchor_models(anchors@) == spec_anchors(lv, hv),
            forall|i: int| 0 <= i < anchors@.len() ==> 1 <= #[trigger] anchors@[i].0 <= total,
            state_ok(hs, lv, *opts),
            state_of(slices@, used) == fold_anchors(
                hs,
                lv,
                anchor_models(anchors@),
                k as int,
                *opts,
            ),
        decreases anchors@.len() - k,
    {
        let anchor = anchors[k].0;
        assert(anchor_models(anchors@)[k as int].0 == anchor);
        let start: u32 = if anchor < 3 {
            1
        } else {
            anchor - 2
        };
        let end: u32 = if (start as u64) + (opts.max_lines_per_slice as u64) - 1 < (total as u64) {
            start + opts.max_lines_per_slice - 1
        } else {
            total
        };
        let reason = string_from(anchors[k].1.as_slice());
        proof {
            lemma_fold_anchors_ok(hs, lv, anchor_models(anchors@), k as int, *opts);
        }
        try_push(&mut slices, &mut used, &ls, start, end, reason, opts);
        k = k + 1;
    }
    proof {
        lemma_fold_anchors_ok(hs, lv, anchor_models(anchors@), anchors@.len() as int, *opts);
    }
    slices
}

/// Models of computed anchors.
pub open spec fn anchor_models(v: Seq<(u32, Vec<char>)>) -> Seq<(int, Seq<char>)> {
    v.map_values(|a: (u32, Vec<char>)| (a.0 as int, a.1@))
}

fn compute_anchors(ls: &Vec<Vec<char>>, hints: &[String]) -> (out: Vec<(u32, Vec<char>)>)
    requires
        ls@.len() <= u32::MAX,
    ensures
        anchor_models(out@) == spec_anchors(views(ls@), str_views(hints@)),
{
    let ghost lv = views(ls@);
    let mut out: Vec<(u32, Vec<char>)> = Vec::new();
    if hints.len() == 0 {
        let mut i: usize = 0;
        while i < ls.len()
            invariant
                i <= ls@.len(),
                ls@.len() <= u32::MAX,
                lv == views(ls@),
                anchor_models(out@) == def_anchors(lv, i as int),
            decreases ls@.len() - i,
        {
            let ghost before = anchor_models(out@);
            match pub_def_reason(ls[i].as_slice()) {
                Some(r) => {
                    out.push(((i + 1) as u32, r));
                    assert(anchor_models(out@) =~= before.push(((i + 1) as int, r@)));
                },
                None => {},
            }
            i = i + 1;
        }
        let mut t: usize = 0;
        while t < ls.len() && !test_module_line(ls[t].as_slice())
            invariant
                t <= ls@.len(),
                ls@.len() <= u32::MAX,
                hints@.len() == 0,
                anchor_models(out@) == def_anchors(lv, ls@.len() as int),
                lv == views(ls@),
                first_test_line(lv, 0) == first_test_line(lv, t as int),
            decreases ls@.len() - t,
        {
            t = t + 1;
        }
        if t < ls.len() {
            let ghost before = anchor_models(out@);
            let label = chars_of("test module");
            out.push(((t + 1) as u32, label));
            assert(anchor_models(out@) =~= before.push(((t + 1) as int, "test module"@)));
        }
    } else {
        let ghost hv = str_views(hints@);
        let mut h: usize = 0;
        while h < hints.len()
            invariant
                h <= hints@.len(),
                ls@.len() <= u32::MAX,
                lv == views(ls@),
                hv == str_views(hints@),
                anchor_models(out@) == hint_anchors(lv, hv, h as int),
            decreases hints@.len() - h,
        {
            let hint = chars_of(hints[h].as_str());
            let mut i: usize = 0;
            while i < ls.len() && !contains_exec(ls[i].as_slice(), hint.as_slice())
                invariant
                    i <= ls@.len(),
                    h < hints@.len(),
                    ls@.len() <= u32::MAX,
                    hv == str_views(hints@),
                    anchor_models(out@) == hint_anchors(lv, hv, h as int),
                    lv == views(ls@),
                    first_line_containing(lv, hint@, 0) == first_line_containing(lv, hint@, i as int),
                decreases ls@.len() - i,
            {
                i = i + 1;
            }
            assert(hint@ == hv[h as int]);
            if i < ls.len() {
                let ghost before = anchor_models(out@);
                let mut reason = chars_of("match: ");
                extend_chars(&mut reason, hint.as_slice());
                out.push(((i + 1) as u32, reason));
                assert(anchor_models(out@) =~= before.push(((i + 1) as int, "match: "@ + hv[h as int])));
            }
            h = h + 1;
        }
    }
    out
}

fn test_module_line(line: &[char]) -> (r: bool)
    ensures
        r == is_test_module_line(line@),
{
    let pat = chars_of("mod tests");
    let cfg = chars_of("#[cfg(test)]");
    let t = trim_exec(line);
    contains_exec(line, pat.as_slice()) || eq_chars(t.as_slice(), cfg.as_slice())
}

/// If `line` declares a public item (or a free `fn`), a short reason naming it.
fn pub_def_reason(line: &[char]) -> (r: Option<Vec<char>>)
    ensures
        match r {
            Some(v) => spec_pub_def_reason(line@) == Some(v@),
            None => spec_pub_def_reason(line@) == None::<Seq<char>>,
        },
{
    let t = trim_start_class_exec(line, CharClass::Whitespace);
    let starts = vec![
        "pub fn ",
        "pub struct ",
        "pub enum ",
        "pub trait ",
        "pub const ",
        "pub type ",
        "pub mod ",
        "pub async fn ",
        "fn ",
    ];
    assert(starts@.map_values(|s: &str| s@) =~= def_prefixes());
    let mut i: usize = 0;
    let mut found = false;
    while i < starts.len()
        invariant
            i <= starts@.len(),
            starts@.map_values(|s: &str| s@) == def_prefixes(),
            found == exists|j: int| 0 <= j < i && starts_with(t@, #[trigger] def_prefixes()[j]),
        decreases starts@.len() - i,
    {
        let p = chars_of(starts[i]);
        assert(p@ == def_prefixes()[i as int]);
        if starts_with_exec(t.as_slice(), p.as_slice()) {
            found = true;
        }
        i = i + 1;
    }
    if !found {
        return None;
    }
    let te = trim_end_class_exec(t.as_slice(), CharClass::Whitespace);
    let n = if te.len() < 60 {
        te.len()
    } else {
        60
    };
    let mut out = chars_of("definition: ");
    let mut k: usize = 0;
    let ghost base = out@;
    while k < n
        invariant
            k <= n <= te@.len(),
            out@ == base + te@.take(k as int),
        decreases n - k,
    {
        out.push(te[k]);
        k = k + 1;
        assert(out@ =~= base + te@.take(k as int));
    }
    Some(out)
}

/// Adds `[start, end]` as a slice unless it would exceed `max_slices`,
/// overlap an existing slice, or blow the byte budget. Slices stay sorted.
fn try_push(
    slices: &mut Vec<Slice>,
    used_bytes: &mut usize,
    lines: &Vec<Vec<char>>,
    start: u32,
    end: u32,
    reason: String,
    opts: &SliceOptions,
)
    requires
        start <= end ==> 1 <= start && end <= lines@.len(),
        *old(used_bytes) <= opts.max_total_bytes,
    ensures
        state_of(final(slices)@, *final(used_bytes)) == spec_try_push(
            state_of(old(slices)@, *old(used_bytes)),
            views(lines@),
            start,
            end,
            reason@,
            *opts,
        ),
{
    let ghost s = slice_models(slices@);
    let ghost lv = views(lines@);
    if slices.len() >= opts.max_slices || start > end {
        return;
    }
    let mut i: usize = 0;
    while i < slices.len()
        invariant
            i <= slices@.len(),
            s == slice_models(slices@),
            forall|j: int|
                0 <= j < i ==> !(start <= #[trigger] s[j].end && s[j].start <= end),
        decreases slices@.len() - i,
    {
        if start <= slices[i].end && slices[i].start <= end {
            assert(s[i as int].end == slices@[i as int].end);
            return;
        }
        i = i + 1;
    }
    let mut bytes: usize = 0;
    let mut l: usize = (start - 1) as usize;
    while l < end as usize
        invariant
            1 <= start <= l + 1 <= end + 1,
            end <= lines@.len(),
            lv == views(lines@),
            bytes == window_bytes(lv, start as int, l as int),
        decreases end - l,
    {
        let w = utf8_len_checked(lines[l].as_slice());
        let n = match w {
            None => {
                assert(window_bytes(lv, start as int, l + 1) > usize::MAX);
                proof {
                    lemma_window_bytes_mono(lv, start as int, l + 1, end as int);
                }
                return;
            },
            Some(n) => n,
        };
        if n >= usize::MAX - bytes {
            proof {
                lemma_window_bytes_mono(lv, start as int, l + 1, end as int);
            }
            return;
        }
        bytes = bytes + n + 1;
        l = l + 1;
    }
    if bytes > opts.max_total_bytes - *used_bytes {
        return;
    }
    *used_bytes = *used_bytes + bytes;
    let sep = vec!['\n'];
    assert(sep@ =~= "\n"@) by {
        reveal_strlit("\n");
    }
    let joined = join_range(lines, (start - 1) as usize, end as usize, sep.as_slice());
    assert(lv.subrange(start - 1, end as int) =~= views(lines@).subrange(start - 1, end as int));
    let text = string_from(joined.as_slice());
    let mut p: usize = 0;
    while p < slices.len() && slices[p].start <= start
        invariant
            p <= slices@.len(),
            s == slice_models(slices@),
            first_after(s, start as int, 0) == first_after(s, start as int, p as int),
        decreases slices@.len() - p,
    {
        p = p + 1;
    }
    let ghost new_model = window_model(lv, start, end, reason@);
    let slice = Slice { start, end, reason, text };
    assert(slice.model() == new_model);
    slices.insert(p, slice);
    assert(slice_models(slices@) =~= s.insert(p as int, new_model));
}

proof fn lemma_window_bytes_mono(lines: Seq<Seq<char>>, start: int, l: int, end: int)
    requires
        1 <= start <= l <= end <= lines.len(),
    ensures
        window_bytes(lines, start, l) <= window_bytes(lines, start, end),
    decreases end - l,
{
    if l < end {
        lemma_window_bytes_mono(lines, start, l + 1, end);
    }
}

/// A line is a definition anchor exactly when, after its leading blanks, it
/// starts with `pub fn `, `pub struct `, `pub enum `, `pub trait `,
/// `pub const `, `pub type `, `pub mod `, `pub async fn ` or `fn `; the
/// anchor's reason is `definition: ` followed by the first sixty characters
/// of the line without its surrounding blanks.
pub proof fn lemma_definition_anchor_kinds(line: Seq<char>)
    ensures
        ({
            let t = trim_start(line);
            let listed = starts_with(t, "pub fn "@) || starts_with(t, "pub struct "@) || starts_with(
                t,
                "pub enum "@,
            ) || starts_with(t, "pub trait "@) || starts_with(t, "pub const "@) || starts_with(
                t,
                "pub type "@,
            ) || starts_with(t, "pub mod "@) || starts_with(t, "pub async fn "@) || starts_with(
                t,
                "fn "@,
            );
            let shown = trim_end(t);
            &&& listed ==> spec_pub_def_reason(line) == Some(
                "definition: "@ + if shown.len() <= 60 {
                    shown
                } else {
                    shown.take(60)
                },
            )
            &&& !listed ==> spec_pub_def_reason(line) is None
        }),
{
    let t = trim_start(line);
    let d = def_prefixes();
    assert(d[0] == "pub fn "@ && d[1] == "pub struct "@ && d[2] == "pub enum "@ && d[3]
        == "pub trait "@ && d[4] == "pub const "@ && d[5] == "pub type "@ && d[6] == "pub mod "@
        && d[7] == "pub async fn "@ && d[8] == "fn "@);
    assert(d.len() == 9);
    if exists|i: int| 0 <= i < d.len() && starts_with(t, #[trigger] d[i]) {
        let i = choose|i: int| 0 <= i < d.len() && starts_with(t, #[trigger] d[i]);
        assert(starts_with(t, d[i]));
    }
    let shown = trim_end(t);
    if shown.len() <= 60 {
        assert(shown.take(shown.len() as int) =~= shown);
    }
}

} // verus!
