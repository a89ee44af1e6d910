//! The model-visible repo-intelligence prompt fragment: its fixed lines, how
//! text is shortened for it, and how its file lists are read back out of a
//! rendered fragment.
use vstd::prelude::*;

use crate::text::{
    chars_of, contains, find, find_exec, lemma_find_from, lines, lines_exec, skip_class,
    str_contains, str_views, string_from, sub_chars, trim, trim_end, trim_end_class_exec,
    trim_exec, trim_start, trim_start_class_exec, views, CharClass,
};

verus! {

/// Sentinel line that opens every repo-intelligence fragment.
pub const HARNESS_MARKER: &'static str = "Harness repo intelligence:";

/// Header of the "likely edit targets" block.
pub const EDIT_TARGETS_HEADER: &'static str = "Likely edit targets:";

/// Header of the "orientation only" block.
pub const ORIENTATION_HEADER: &'static str = "Orientation only:";

/// Footer that keeps the model from broadening the edit scope.
pub const SCOPE_CONSTRAINT: &'static str = "Do not broaden the edit scope just because a file appears in orientation context. Prefer the smallest patch that satisfies the task.";

/// Renders and parses repo-intelligence prompt fragments.
pub struct ContextPacketRenderer;

// ---------------------------------------------------------------------------
// Numbered entries
// ---------------------------------------------------------------------------

/// The path of a `N. <path> — <reason>` line: the line must open with ASCII
/// digits, a `.` and a space; the path is what precedes the first ` — `,
/// trimmed, and must not be empty.
pub open spec fn spec_parse_numbered_entry(line: Seq<char>) -> Option<Seq<char>> {
    let k = skip_class(line, CharClass::AsciiDigit, 0);
    if k == 0 || k >= line.len() || line[k] != '.' || k + 1 >= line.len() || line[k + 1] != ' ' {
        None
    } else {
        let rest = line.skip(k + 2);
        let idx = find(rest, " \u{2014} "@);
        let path = trim(
            if idx >= 0 {
                rest.take(idx)
            } else {
                rest
            },
        );
        if path.len() == 0 {
            None
        } else {
            Some(path)
        }
    }
}

fn parse_numbered_entry(line: &[char]) -> (r: Option<Vec<char>>)
    ensures
        match r {
            Some(p) => spec_parse_numbered_entry(line@) == Some(p@),
            None => spec_parse_numbered_entry(line@) is None,
        },
{
    let n: usize = line.len();
    let mut k: usize = 0;
    while k < n && '0' <= line[k] && line[k] <= '9'
        invariant
            n == line@.len(),
            k <= n,
            skip_class(line@, CharClass::AsciiDigit, 0) == skip_class(
                line@,
                CharClass::AsciiDigit,
                k as int,
            ),
        decreases n - k,
    {
        k = k + 1;
    }
    if k == 0 || k >= n || line[k] != '.' || k + 1 >= n || line[k + 1] != ' ' {
        return None;
    }
    let rest = sub_chars(line, k + 2, n);
    assert(rest@ =~= line@.skip(k + 2));
    let sep = chars_of(" \u{2014} ");
    let head = match find_exec(rest.as_slice(), sep.as_slice()) {
        Some(idx) => {
            proof {
                lemma_find_from(rest@, sep@, 0);
            }
            let h = sub_chars(rest.as_slice(), 0, idx);
            assert(h@ =~= rest@.take(idx as int));
            h
        },
        None => rest,
    };
    let path = trim_exec(head.as_slice());
    if path.len() == 0 {
        None
    } else {
        Some(path)
    }
}

// ---------------------------------------------------------------------------
// Reading the file lists back
// ---------------------------------------------------------------------------

/// Parser state: the open section (0 none, 1 edit targets, 2 orientation)
/// and the two lists gathered so far.
pub type ParseState = (int, Seq<Seq<char>>, Seq<Seq<char>>);

/// One line of the fragment applied to the parser state.
pub open spec fn parse_step(st: ParseState, raw: Seq<char>) -> ParseState {
    let line = trim_end(raw);
    if line == "Likely edit targets:"@ {
        (1, st.1, st.2)
    } else if line == "Orientation only:"@ {
        (2, st.1, st.2)
    } else if trim_start(line).len() == 0 {
        st
    } else {
        match spec_parse_numbered_entry(trim_start(line)) {
            Some(p) => if st.0 == 1 {
                (1, st.1.push(p), st.2)
            } else if st.0 == 2 {
                (2, st.1, st.2.push(p))
            } else {
                (0, st.1, st.2)
            },
            None => (0, st.1, st.2),
        }
    }
}

/// The parser state after the given lines.
pub open spec fn parse_lines(ls: Seq<Seq<char>>) -> ParseState
    decreases ls.len(),
{
    if ls.len() == 0 {
        (0, Seq::empty(), Seq::empty())
    } else {
        parse_step(parse_lines(ls.drop_last()), ls.last())
    }
}

/// The (edit targets, orientation) lists of a fragment; both empty when the
/// fragment does not carry the marker.
pub open spec fn spec_directive_file_lists(fragment: Seq<char>) -> (Seq<Seq<char>>, Seq<Seq<char>>) {
    if !contains(fragment, "Harness repo intelligence:"@) {
        (Seq::empty(), Seq::empty())
    } else {
        let st = parse_lines(lines(fragment));
        (st.1, st.2)
    }
}

impl ContextPacketRenderer {
    /// Most files listed across both sections of a fragment.
    pub const MAX_INSPECT_FILES: usize = 5;

    /// Reads the `Likely edit targets` and `Orientation only` file lists back
    /// out of a rendered fragment. A numbered line belongs to the section
    /// whose header was seen last; blank lines keep the section open and any
    /// other line closes it.
    pub fn parse_directive_file_lists(fragment: &str) -> (r: (Vec<String>, Vec<String>))
        ensures
            crate::text::str_views(r.0@) == spec_directive_file_lists(fragment@).0,
            crate::text::str_views(r.1@) == spec_directive_file_lists(fragment@).1,
    {
        let mut edit: Vec<String> = Vec::new();
        let mut orient: Vec<String> = Vec::new();
        if !str_contains(fragment, HARNESS_MARKER) {
            assert(crate::text::str_views(edit@) =~= Seq::<Seq<char>>::empty());
            assert(crate::text::str_views(orient@) =~= Seq::<Seq<char>>::empty());
            return (edit, orient);
        }
        let text = chars_of(fragment);
        let ls = lines_exec(text.as_slice());
        let ghost lv = views(ls@);
        let edit_h = chars_of(EDIT_TARGETS_HEADER);
        let orient_h = chars_of(ORIENTATION_HEADER);
        let mut section: u8 = 0;
        let mut i: usize = 0;
        assert(lv.take(0) =~= Seq::<Seq<char>>::empty());
        assert(crate::text::str_views(edit@) =~= Seq::<Seq<char>>::empty());
        assert(crate::text::str_views(orient@) =~= Seq::<Seq<char>>::empty());
        while i < ls.len()
            invariant
                i <= ls@.len(),
                lv == views(ls@),
                lv == lines(fragment@),
                edit_h@ == "Likely edit targets:"@,
                orient_h@ == "Orientation only:"@,
                section <= 2,
                parse_lines(lv.take(i as int)) == (
                    section as int,
                    crate::text::str_views(edit@),
                    crate::text::str_views(orient@),
                ),
            decreases ls@.len() - i,
        {
            assert(lv.take(i + 1).drop_last() =~= lv.take(i as int));
            assert(lv.take(i + 1).last() == ls@[i as int]@);
            let ghost st = parse_lines(lv.take(i as int));
            assert(parse_lines(lv.take(i + 1)) == parse_step(st, ls@[i as int]@));
            let line = trim_end_class_exec(ls[i].as_slice(), CharClass::Whitespace);
            if crate::text::eq_chars(line.as_slice(), edit_h.as_slice()) {
                section = 1;
            } else if crate::text::eq_chars(line.as_slice(), orient_h.as_slice()) {
                section = 2;
            } else {
                let trimmed = trim_start_class_exec(line.as_slice(), CharClass::Whitespace);
                if trimmed.len() > 0 {
                    match parse_numbered_entry(trimmed.as_slice()) {
                        Some(p) => {
                            if section == 1 {
                                let ghost before = crate::text::str_views(edit@);
                                let s = string_from(p.as_slice());
                                edit.push(s);
                                assert(crate::text::str_views(edit@) =~= before.push(p@));
                            } else if section == 2 {
                                let ghost before = crate::text::str_views(orient@);
                                let s = string_from(p.as_slice());
                                orient.push(s);
                                assert(crate::text::str_views(orient@) =~= before.push(p@));
                            }
                        },
                        None => {
                            section = 0;
                        },
                    }
                    } else {
                    }
            }
            i = i + 1;
        }
        assert(lv.take(ls@.len() as int) =~= lv);
        (edit, orient)
    }
}


// ---------------------------------------------------------------------------
// Rendering the fragment
// ---------------------------------------------------------------------------

/// A file of the packet as the fragment lists it.
#[derive(Debug, Clone, PartialEq)]
pub struct PromptFile {
    pub path: String,
    pub reason: String,
}

/// What the fragment shows of a packet: the task, its prompt-visible file
/// summaries already in prompt order (fuller render level first, then
/// higher relevance, then path), its warnings, and the paths of all its
/// included items in item order.
#[derive(Debug, Clone, PartialEq)]
pub struct PromptPacket {
    pub task: String,
    pub files: Vec<PromptFile>,
    pub warnings: Vec<String>,
    pub included_paths: Vec<String>,
}

/// `text` cut to `max_chars` characters, ending in `...` when cut and there
/// is room for it.
pub open spec fn spec_shorten(text: Seq<char>, max_chars: nat) -> Seq<char> {
    if text.len() <= max_chars {
        text
    } else if max_chars <= 3 {
        text.take(max_chars as int)
    } else {
        text.take(max_chars - 3) + "..."@
    }
}

/// Cuts `text` to at most `max_chars` characters for the prompt.
pub fn shorten_for_prompt(text: &str, max_chars: usize) -> (out: String)
    ensures
        out@ == spec_shorten(text@, max_chars as nat),
{
    let tc = chars_of(text);
    if tc.len() <= max_chars {
        return string_from(tc.as_slice());
    }
    if max_chars <= 3 {
        let cut = sub_chars(tc.as_slice(), 0, max_chars);
        assert(cut@ =~= text@.take(max_chars as int));
        return string_from(cut.as_slice());
    }
    let cut = sub_chars(tc.as_slice(), 0, max_chars - 3);
    assert(cut@ =~= text@.take(max_chars - 3));
    let mut out = string_from(cut.as_slice());
    crate::text::push_str(&mut out, "...");
    out
}

/// The first `/`-separated component of a path.
pub open spec fn first_segment(p: Seq<char>) -> Seq<char> {
    crate::text::split(p, CharClass::Is('/'))[0]
}

/// How many of `prefixes` equal `x`.
pub open spec fn prefix_count(prefixes: Seq<Seq<char>>, x: Seq<char>) -> nat
    decreases prefixes.len(),
{
    if prefixes.len() == 0 {
        0
    } else {
        prefix_count(prefixes.drop_last(), x) + if prefixes.last() == x {
            1nat
        } else {
            0nat
        }
    }
}

/// `x` is the top-level directory with the most included files, the
/// greatest name winning ties.
pub open spec fn is_best_area(prefixes: Seq<Seq<char>>, x: Seq<char>) -> bool {
    &&& prefixes.contains(x)
    &&& forall|y: Seq<char>| #[trigger] prefixes.contains(y) ==> prefix_count(prefixes, y) <= prefix_count(prefixes, x)
    &&& forall|y: Seq<char>|
        #[trigger] prefixes.contains(y) && crate::sorted::lex_lt(x, y) ==> prefix_count(prefixes, y)
            < prefix_count(prefixes, x)
}

/// The area inferred from the included paths: none without paths, else the
/// best top-level directory.
pub open spec fn spec_infer_area(included: Seq<Seq<char>>) -> Option<Seq<char>> {
    let prefixes = included.map_values(|p: Seq<char>| first_segment(p));
    if included.len() == 0 {
        None
    } else {
        Some(choose|x: Seq<char>| is_best_area(prefixes, x))
    }
}

/// At most one best area.
pub proof fn lemma_best_area_unique(prefixes: Seq<Seq<char>>, x: Seq<char>, z: Seq<char>)
    requires
        is_best_area(prefixes, x),
        is_best_area(prefixes, z),
    ensures
        x == z,
{
    crate::sorted::lemma_lex_total(x, z);
    if crate::sorted::lex_lt(x, z) {
        assert(prefixes.contains(z));
    } else if crate::sorted::lex_lt(z, x) {
        assert(prefixes.contains(x));
    }
}

proof fn lemma_prefix_count_take(prefixes: Seq<Seq<char>>, i: int, x: Seq<char>)
    requires
        0 <= i < prefixes.len(),
    ensures
        prefix_count(prefixes.take(i + 1), x) == prefix_count(prefixes.take(i), x) + if prefixes[i] == x {
            1nat
        } else {
            0nat
        },
{
    assert(prefixes.take(i + 1).drop_last() =~= prefixes.take(i));
}

proof fn lemma_prefix_count_positive(prefixes: Seq<Seq<char>>, x: Seq<char>)
    ensures
        prefixes.contains(x) <==> prefix_count(prefixes, x) > 0,
        prefix_count(prefixes, x) <= prefixes.len(),
    decreases prefixes.len(),
{
    if prefixes.len() > 0 {
        let init = prefixes.drop_last();
        lemma_prefix_count_positive(init, x);
        if init.contains(x) {
            let k = choose|k: int| 0 <= k < init.len() && init[k] == x;
            assert(prefixes[k] == x);
        }
        if prefixes.contains(x) && prefixes.last() != x {
            let k = choose|k: int| 0 <= k < prefixes.len() && prefixes[k] == x;
            assert(init[k] == x);
        }
        if prefixes.last() == x {
            assert(prefixes[prefixes.len() - 1] == x);
        }
    }
}

fn count_prefix(prefixes: &Vec<String>, x: &str) -> (n: usize)
    ensures
        n == prefix_count(str_views(prefixes@), x@),
{
    let ghost pv = str_views(prefixes@);
    let mut n: usize = 0;
    let mut i: usize = 0;
    assert(pv.take(0) =~= Seq::<Seq<char>>::empty());
    while i < prefixes.len()
        invariant
            i <= prefixes@.len(),
            pv == str_views(prefixes@),
            n == prefix_count(pv.take(i as int), x@),
        decreases prefixes@.len() - i,
    {
        proof {
            lemma_prefix_count_take(pv, i as int, x@);
            lemma_prefix_count_positive(pv.take(i as int), x@);
        }
        if crate::text::str_eq(prefixes[i].as_str(), x) {
            n = n + 1;
        }
        i = i + 1;
    }
    assert(pv.take(prefixes@.len() as int) =~= pv);
    n
}

/// The area most of the included paths live in.
pub fn infer_area_from_included(included: &Vec<String>) -> (r: Option<String>)
    ensures
        match r {
            Some(a) => spec_infer_area(str_views(included@)) == Some(a@),
            None => spec_infer_area(str_views(included@)) is None,
        },
{
    let ghost iv = str_views(included@);
    let ghost f = |p: Seq<char>| first_segment(p);
    if included.len() == 0 {
        return None;
    }
    let mut prefixes: Vec<String> = Vec::new();
    let mut i: usize = 0;
    while i < included.len()
        invariant
            i <= included@.len(),
            iv == str_views(included@),
            f == (|p: Seq<char>| first_segment(p)),
            str_views(prefixes@) == iv.take(i as int).map_values(f),
        decreases included@.len() - i,
    {
        let pc = chars_of(included[i].as_str());
        let pieces = crate::text::split_exec(pc.as_slice(), CharClass::Is('/'));
        proof {
            crate::text::lemma_split_from_len(pc@, CharClass::Is('/'), 0);
        }
        let first = string_from(pieces[0].as_slice());
        let ghost before = str_views(prefixes@);
        prefixes.push(first);
        assert(str_views(prefixes@) =~= before.push(f(iv[i as int])));
        assert(iv.take(i + 1).map_values(f) =~= iv.take(i as int).map_values(f).push(f(iv[i as int])));
        i = i + 1;
    }
    assert(iv.take(included@.len() as int) =~= iv);
    let ghost pv = str_views(prefixes@);
    let keys = crate::sorted::sorted_of(&prefixes);
    let ghost kv = str_views(keys@);
    proof {
        crate::sorted::lemma_sorted_set_len(kv, pv.to_set());
        assert(pv.to_set().contains(pv[0]));
    }
    let mut best: usize = 0;
    let mut best_count: usize = count_prefix(&prefixes, keys[0].as_str());
    let mut k: usize = 1;
    while k < keys.len()
        invariant
            1 <= k <= keys@.len(),
            best < k,
            pv == str_views(prefixes@),
            kv == str_views(keys@),
            crate::sorted::sorted_set_of(kv, pv.to_set()),
            best_count == prefix_count(pv, kv[best as int]),
            forall|j: int| 0 <= j < k ==> prefix_count(pv, #[trigger] kv[j]) <= best_count,
            forall|j: int| best < j < k ==> prefix_count(pv, #[trigger] kv[j]) < best_count,
        decreases keys@.len() - k,
    {
        let c = count_prefix(&prefixes, keys[k].as_str());
        if c >= best_count {
            best = k;
            best_count = c;
        }
        k = k + 1;
    }
    proof {
        let x = kv[best as int];
        assert(pv.to_set().contains(x));
        assert(pv.contains(x));
        assert forall|y: Seq<char>| #[trigger] pv.contains(y) implies prefix_count(pv, y) <= prefix_count(pv, x)
            && (crate::sorted::lex_lt(x, y) ==> prefix_count(pv, y) < prefix_count(pv, x)) by {
            assert(pv.to_set().contains(y));
            assert(kv.to_set().contains(y));
            let j = choose|j: int| 0 <= j < kv.len() && kv[j] == y;
            if crate::sorted::lex_lt(x, y) {
                if j <= best {
                    if j < best {
                        assert(crate::sorted::lex_lt(kv[j], kv[best as int]));
                        crate::sorted::lemma_lex_trans(x, y, x);
                        crate::sorted::lemma_lex_irreflexive(x);
                    } else {
                        crate::sorted::lemma_lex_irreflexive(x);
                    }
                }
            }
        }
        assert(is_best_area(pv, x));
        assert(pv == iv.map_values(f));
        let c = choose|z: Seq<char>| is_best_area(pv, z);
        lemma_best_area_unique(pv, x, c);
    }
    Some(keys[best].clone())
}


/// One numbered file line: `N. <path> — <reason>`, the reason shortened to
/// 96 characters.
pub open spec fn entry_line(n: nat, f: PromptFile) -> Seq<char> {
    crate::text::dec(n) + ". "@ + f.path@ + " \u{2014} "@ + spec_shorten(f.reason@, 96)
}

/// The numbered lines of a list of files, numbered from 1.
pub open spec fn numbered(files: Seq<PromptFile>) -> Seq<Seq<char>> {
    Seq::new(files.len(), |i: int| entry_line((i + 1) as nat, files[i]))
}

/// The rest of the first warning that starts with `Likely area: `.
pub open spec fn warned_area(warnings: Seq<Seq<char>>) -> Option<Seq<char>>
    decreases warnings.len(),
{
    if warnings.len() == 0 {
        None
    } else if crate::text::starts_with(warnings[0], "Likely area: "@) {
        Some(warnings[0].skip("Likely area: "@.len() as int))
    } else {
        warned_area(warnings.skip(1))
    }
}

/// The lines of the fragment for a packet, listing at most
/// `min(max_files, 5)` files, the first `max_edit_targets` of them as edit
/// targets and the rest as orientation.
pub open spec fn fragment_lines(p: PromptPacket, max_files: nat, max_edit_targets: nat) -> Seq<Seq<char>> {
    let head = seq![
        "Harness repo intelligence:"@,
        "Use this as task-routing guidance before editing."@,
        Seq::<char>::empty(),
        "Task: "@ + spec_shorten(p.task@, 240),
    ];
    let cap = if max_files < 5 {
        max_files
    } else {
        5
    };
    let files = if p.files@.len() <= cap {
        p.files@
    } else {
        p.files@.take(cap as int)
    };
    let k = if max_edit_targets < files.len() {
        max_edit_targets
    } else {
        files.len()
    };
    let body = if files.len() == 0 {
        Seq::empty()
    } else {
        seq![Seq::<char>::empty(), "Likely edit targets:"@] + numbered(files.take(k as int)) + (if k
            < files.len() {
            seq![Seq::<char>::empty(), "Orientation only:"@] + numbered(files.skip(k as int))
        } else {
            Seq::empty()
        }) + seq![Seq::<char>::empty(), SCOPE_CONSTRAINT@]
    };
    let area = match warned_area(str_views(p.warnings@)) {
        Some(a) => Some(a),
        None => spec_infer_area(str_views(p.included_paths@)),
    };
    let tail = match area {
        Some(a) => seq![Seq::<char>::empty(), "Likely area: "@ + a],
        None => Seq::empty(),
    };
    head + body + tail
}

fn push_numbered(files: &[PromptFile], out: &mut Vec<String>)
    ensures
        str_views(final(out)@) == str_views(old(out)@) + numbered(files@),
{
    let ghost start = str_views(out@);
    let mut i: usize = 0;
    while i < files.len()
        invariant
            i <= files@.len(),
            str_views(out@) == start + numbered(files@).take(i as int),
        decreases files@.len() - i,
    {
        let mut line = crate::text::fmt_u64((i + 1) as u64);
        crate::text::push_str(&mut line, ". ");
        crate::text::push_str(&mut line, files[i].path.as_str());
        crate::text::push_str(&mut line, " \u{2014} ");
        let reason = shorten_for_prompt(files[i].reason.as_str(), 96);
        crate::text::push_str(&mut line, reason.as_str());
        let ghost before = str_views(out@);
        assert(line@ == numbered(files@)[i as int]);
        out.push(line);
        assert(str_views(out@) =~= before.push(line@));
        assert(numbered(files@).take(i + 1) =~= numbered(files@).take(i as int).push(line@));
        i = i + 1;
    }
    assert(numbered(files@).take(files@.len() as int) =~= numbered(files@));
}

fn warned_area_exec(warnings: &Vec<String>) -> (r: Option<String>)
    ensures
        match r {
            Some(a) => warned_area(str_views(warnings@)) == Some(a@),
            None => warned_area(str_views(warnings@)) is None,
        },
{
    let ghost wv = str_views(warnings@);
    let prefix = chars_of("Likely area: ");
    let mut i: usize = 0;
    assert(wv.skip(0) =~= wv);
    while i < warnings.len()
        invariant
            i <= warnings@.len(),
            wv == str_views(warnings@),
            prefix@ == "Likely area: "@,
            warned_area(wv) == warned_area(wv.skip(i as int)),
        decreases warnings@.len() - i,
    {
        let wc = chars_of(warnings[i].as_str());
        assert(wv.skip(i as int)[0] == wc@);
        if crate::text::starts_with_exec(wc.as_slice(), prefix.as_slice()) {
            let rest = sub_chars(wc.as_slice(), prefix.len(), wc.len());
            assert(rest@ =~= wc@.skip("Likely area: "@.len() as int));
            return Some(string_from(rest.as_slice()));
        }
        assert(wv.skip(i as int).skip(1) =~= wv.skip(i + 1));
        i = i + 1;
    }
    None
}

impl ContextPacketRenderer {
    /// Renders the model-visible fragment: the marker and the task, at most
    /// `min(max_prompt_included_files, 5)` files split into edit targets and
    /// orientation, the scope constraint, and the likely area.
    #[verifier::spinoff_prover]
    #[verifier::rlimit(40)]
    pub fn render_prompt_fragment_with_caps(
        packet: &PromptPacket,
        max_prompt_included_files: usize,
        max_edit_targets: usize,
    ) -> (s: String)
        ensures
            s@ == crate::text::join(
                fragment_lines(*packet, max_prompt_included_files as nat, max_edit_targets as nat),
                "\n"@,
            ),
    {
        let mut lines: Vec<String> = Vec::new();
        lines.push(HARNESS_MARKER.to_owned());
        lines.push("Use this as task-routing guidance before editing.".to_owned());
        lines.push(String::new());
        let mut task_line = "Task: ".to_owned();
        let short = shorten_for_prompt(packet.task.as_str(), 240);
        crate::text::push_str(&mut task_line, short.as_str());
        lines.push(task_line);
        let ghost head = str_views(lines@);
        assert(head =~= seq![
            "Harness repo intelligence:"@,
            "Use this as task-routing guidance before editing."@,
            Seq::<char>::empty(),
            "Task: "@ + spec_shorten(packet.task@, 240),
        ]);
        let cap: usize = if max_prompt_included_files < 5 {
            max_prompt_included_files
        } else {
            5
        };
        let n: usize = if packet.files.len() <= cap {
            packet.files.len()
        } else {
            cap
        };
        let files = packet.files.as_slice();
        let ghost fv = if packet.files@.len() <= cap {
            packet.files@
        } else {
            packet.files@.take(cap as int)
        };
        assert(files@.take(n as int) =~= fv);
        let ghost kk: int = if max_edit_targets < fv.len() {
            max_edit_targets as int
        } else {
            fv.len() as int
        };
        let ghost body = if fv.len() == 0 {
            Seq::empty()
        } else {
            seq![Seq::<char>::empty(), "Likely edit targets:"@] + numbered(fv.take(kk)) + (if kk
                < fv.len() {
                seq![Seq::<char>::empty(), "Orientation only:"@] + numbered(fv.skip(kk))
            } else {
                Seq::empty()
            }) + seq![Seq::<char>::empty(), SCOPE_CONSTRAINT@]
        };
        if n > 0 {
            let k: usize = if max_edit_targets < n {
                max_edit_targets
            } else {
                n
            };
            lines.push(String::new());
            lines.push(EDIT_TARGETS_HEADER.to_owned());
            let edit = slice_files(files, 0, k);
            assert(edit@ =~= fv.take(k as int));
            push_numbered(edit.as_slice(), &mut lines);
            let ghost b1 = str_views(lines@);
            assert(b1 =~= head + seq![Seq::<char>::empty(), "Likely edit targets:"@] + numbered(fv.take(kk)));
            if k < n {
                lines.push(String::new());
                lines.push(ORIENTATION_HEADER.to_owned());
                let orient = slice_files(files, k, n);
                assert(orient@ =~= fv.skip(k as int));
                push_numbered(orient.as_slice(), &mut lines);
                assert(str_views(lines@) =~= b1 + (seq![Seq::<char>::empty(), "Orientation only:"@] + numbered(fv.skip(kk))));
            } else {
                assert(str_views(lines@) =~= b1 + Seq::<Seq<char>>::empty());
            }
            let ghost b2 = str_views(lines@);
            lines.push(String::new());
            lines.push(SCOPE_CONSTRAINT.to_owned());
            assert(str_views(lines@) =~= b2 + seq![Seq::<char>::empty(), SCOPE_CONSTRAINT@]);
        }
        let ghost mid = str_views(lines@);
        assert(mid =~= head + body);
        let area = match warned_area_exec(&packet.warnings) {
            Some(a) => Some(a),
            None => infer_area_from_included(&packet.included_paths),
        };
        match area {
            Some(a) => {
                lines.push(String::new());
                let mut l = "Likely area: ".to_owned();
                crate::text::push_str(&mut l, a.as_str());
                lines.push(l);
                assert(str_views(lines@) =~= mid + seq![Seq::<char>::empty(), "Likely area: "@ + a@]);
            },
            None => {
                assert(str_views(lines@) =~= mid + Seq::<Seq<char>>::empty());
            },
        }
        assert(str_views(lines@) =~= fragment_lines(
            *packet,
            max_prompt_included_files as nat,
            max_edit_targets as nat,
        ));
        crate::text::join_strings(&lines, "\n")
    }

    /// Renders the fragment with the default caps: at most eight files (so
    /// five), one edit target.
    pub fn render_prompt_fragment(packet: &PromptPacket) -> (s: String)
        ensures
            s@ == crate::text::join(fragment_lines(*packet, 8, 1), "\n"@),
    {
        Self::render_prompt_fragment_with_caps(packet, 8, 1)
    }
}

fn slice_files(files: &[PromptFile], from: usize, to: usize) -> (out: Vec<PromptFile>)
    requires
        from <= to <= files@.len(),
    ensures
        out@ == files@.subrange(from as int, to as int),
{
    let mut out: Vec<PromptFile> = Vec::new();
    let mut i: usize = from;
    while i < to
        invariant
            from <= i <= to,
            to <= files@.len(),
            out@ == files@.subrange(from as int, i as int),
        decreases to - i,
    {
        let f = PromptFile { path: files[i].path.clone(), reason: files[i].reason.clone() };
        assert(f == files@[i as int]);
        out.push(f);
        assert(out@ =~= files@.subrange(from as int, i + 1));
        i = i + 1;
    }
    out
}

} // verus!
