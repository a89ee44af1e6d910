//! Deterministic failure classification and repair guidance derived from
//! verification output.
use vstd::prelude::*;

use crate::sorted::{insert_sorted, sorted_set_of, strictly_sorted};
use crate::text::{
    chars_of, contains, contains_exec, ends_with, ends_with_exec, find, find_exec, has_char,
    lemma_find_from, lines, lines_exec, lower, lower_chars, split, split_exec, split_nonempty,
    split_nonempty_exec, str_views, string_from, sub_chars, trim, trim_end_class,
    trim_end_class_exec, trim_exec, views, CharClass,
};

verus! {

/// Deterministic failure classification for post-failure context.
#[derive(Debug, Clone, Copy, PartialEq, Eq)]
pub enum FailureType {
    CompileError,
    TestAssertionFailure,
    MissingImport,
    SnapshotFailure,
    LintFailure,
    Timeout,
    Unknown,
}

/// Non-model repair guidance derived from verification output.
#[derive(Debug, Clone, PartialEq)]
pub struct RepairHint {
    pub likely_failure_type: FailureType,
    pub likely_files: Vec<String>,
    pub suggested_focus: String,
}

// ---------------------------------------------------------------------------
// Specification
// ---------------------------------------------------------------------------

/// The failure class of lower-cased output and command.
pub open spec fn spec_classify_failure(output: Seq<char>, command: Seq<char>) -> FailureType {
    let l = lower(output);
    let c = lower(command);
    if contains(l, "timed out"@) || contains(c, "timeout"@) {
        FailureType::Timeout
    } else if contains(l, "insta"@) || contains(l, "snapshot"@) || contains(l, ".snap"@) || contains(
        l,
        "cargo insta"@,
    ) {
        FailureType::SnapshotFailure
    } else if contains(l, "clippy"@) || contains(l, "deny(warnings)"@) || (contains(l, "warning:"@)
        && contains(l, "denied"@)) {
        FailureType::LintFailure
    } else if contains(l, "unresolved import"@) || contains(l, "no module named"@) || contains(
        l,
        "use of unresolved"@,
    ) || contains(l, "error[e0432]"@) || contains(l, "error[e0433]"@) || contains(
        l,
        "failed to resolve"@,
    ) || contains(l, "cannot find crate"@) || contains(l, "cannot find module"@) {
        FailureType::MissingImport
    } else if contains(l, "assertion failed"@) || contains(l, "assertionerror"@) || contains(
        l,
        "assert_eq!"@,
    ) || contains(l, "panicked at"@) || contains(l, "test result: failed"@) || contains(
        l,
        "error: test failed"@,
    ) || contains(l, "test failed"@) || contains(l, "failed tests/"@) || (contains(l, "left:"@)
        && contains(l, "right:"@)) || (contains(l, "assert "@) && contains(l, "=="@)) {
        FailureType::TestAssertionFailure
    } else if contains(l, "could not compile"@) || contains(l, "compilation failed"@) || contains(
        l,
        "error[e0"@,
    ) || (contains(l, "error: "@) && !contains(l, "test result:"@)) {
        FailureType::CompileError
    } else {
        FailureType::Unknown
    }
}

/// How output and command decide the failure class, by markers in the
/// lower-cased texts, first match wins: a timeout (`timed out` in the output
/// or `timeout` in the command); a snapshot failure (`insta`, `snapshot`,
/// `.snap`); a lint failure (`clippy`, `deny(warnings)`, or `warning:` with
/// `denied`); a missing import (`unresolved import`, `no module named`,
/// `use of unresolved`, `error[e0432]`, `error[e0433]`, `failed to
/// resolve`, `cannot find crate`, `cannot find module`); a test assertion
/// failure (`assertion failed`, `assertionerror`, `assert_eq!`, `panicked
/// at`, `test result: failed`, `test failed`, `failed tests/`, `left:` with
/// `right:`, `assert ` with `==`); a compile error (`could not compile`,
/// `compilation failed`, `error[e0`, or `error: ` without `test result:`);
/// otherwise unknown.
pub proof fn lemma_failure_class_by_markers(output: Seq<char>, command: Seq<char>)
    ensures
        ({
            let l = lower(output);
            let timeout = contains(l, "timed out"@) || contains(lower(command), "timeout"@);
            let snapshot = contains(l, "insta"@) || contains(l, "snapshot"@) || contains(l, ".snap"@);
            let lint = contains(l, "clippy"@) || contains(l, "deny(warnings)"@) || (contains(
                l,
                "warning:"@,
            ) && contains(l, "denied"@));
            let import = contains(l, "unresolved import"@) || contains(l, "no module named"@)
                || contains(l, "use of unresolved"@) || contains(l, "error[e0432]"@) || contains(
                l,
                "error[e0433]"@,
            ) || contains(l, "failed to resolve"@) || contains(l, "cannot find crate"@)
                || contains(l, "cannot find module"@);
            let assertion = contains(l, "assertion failed"@) || contains(l, "assertionerror"@)
                || contains(l, "assert_eq!"@) || contains(l, "panicked at"@) || contains(
                l,
                "test result: failed"@,
            ) || contains(l, "test failed"@) || contains(l, "failed tests/"@) || (contains(
                l,
                "left:"@,
            ) && contains(l, "right:"@)) || (contains(l, "assert "@) && contains(l, "=="@));
            let compile = contains(l, "could not compile"@) || contains(l, "compilation failed"@)
                || contains(l, "error[e0"@) || (contains(l, "error: "@) && !contains(
                l,
                "test result:"@,
            ));
            let r = spec_classify_failure(output, command);
            &&& timeout ==> r == FailureType::Timeout
            &&& !timeout && snapshot ==> r == FailureType::SnapshotFailure
            &&& !timeout && !snapshot && lint ==> r == FailureType::LintFailure
            &&& !timeout && !snapshot && !lint && import ==> r == FailureType::MissingImport
            &&& !timeout && !snapshot && !lint && !import && assertion
                ==> r == FailureType::TestAssertionFailure
            &&& !timeout && !snapshot && !lint && !import && !assertion && compile
                ==> r == FailureType::CompileError
            &&& !timeout && !snapshot && !lint && !import && !assertion && !compile
                ==> r == FailureType::Unknown
        }),
{
    let l = lower(output);
    reveal_strlit("cargo insta");
    reveal_strlit("insta");
    reveal_strlit("error: test failed");
    reveal_strlit("test failed");
    assert("cargo insta"@.subrange(6, 11) =~= "insta"@);
    assert("error: test failed"@.subrange(7, 18) =~= "test failed"@);
    if contains(l, "cargo insta"@) {
        lemma_contains_within(l, "cargo insta"@, "insta"@, 6);
    }
    if contains(l, "error: test failed"@) {
        lemma_contains_within(l, "error: test failed"@, "test failed"@, 7);
    }
}

/// An occurrence of `big` holds an occurrence of its part `small` at `off`.
proof fn lemma_contains_within(s: Seq<char>, big: Seq<char>, small: Seq<char>, off: int)
    requires
        contains(s, big),
        0 <= off,
        off + small.len() <= big.len(),
        big.subrange(off, off + small.len()) == small,
    ensures
        contains(s, small),
{
    lemma_find_from(s, big, 0);
    let k = find(s, big);
    assert forall|q: int| 0 <= q < small.len() implies #[trigger] s[k + off + q] == small[q] by {
        assert(s.subrange(k, k + big.len())[off + q] == big[off + q]);
        assert(big.subrange(off, off + small.len())[q] == big[off + q]);
    }
    assert(s.subrange(k + off, k + off + small.len()) =~= small);
    assert(crate::text::matches_at(s, small, k + off));
    lemma_find_from(s, small, 0);
    if find(s, small) < 0 {
        assert(!crate::text::matches_at(s, small, k + off));
    }
}

/// Backslashes turned into slashes.
pub open spec fn spec_normalize_path(p: Seq<char>) -> Seq<char> {
    p.map_values(|c: char| if c == '\\' { '/' } else { c })
}

/// A token that names a Rust/TypeScript/Python source file by a path.
pub open spec fn spec_looks_like_source_path(t: Seq<char>) -> bool {
    (ends_with(t, ".rs"@) || ends_with(t, ".ts"@) || ends_with(t, ".tsx"@) || ends_with(t, ".py"@))
        && (t.contains('/') || t.contains('\\'))
}

/// The path in front of the first `:` of `rest`, trimmed, if it looks like a source path.
pub open spec fn path_before_colon(rest: Seq<char>) -> Option<Seq<char>> {
    let path = trim(split(rest, CharClass::Is(':'))[0]);
    if spec_looks_like_source_path(path) {
        Some(spec_normalize_path(path))
    } else {
        None
    }
}

/// The source path after `panicked at ` (matched case-insensitively).
pub open spec fn spec_path_after_panic(line: Seq<char>) -> Option<Seq<char>> {
    let k = find(lower(line), "panicked at "@);
    if k < 0 {
        None
    } else {
        path_before_colon(line.skip(k + 12))
    }
}

/// The source path after a `-->` location arrow.
pub open spec fn spec_path_after_arrow(line: Seq<char>) -> Option<Seq<char>> {
    let k = find(line, "-->"@);
    if k < 0 {
        None
    } else {
        path_before_colon(trim(line.skip(k + 3)))
    }
}

/// Paths named by the whitespace-separated tokens `toks[..n]`.
pub open spec fn token_paths(toks: Seq<Seq<char>>, n: int) -> Set<Seq<char>>
    decreases n,
{
    if n <= 0 || n > toks.len() {
        Set::empty()
    } else if spec_looks_like_source_path(toks[n - 1]) {
        token_paths(toks, n - 1).insert(
            spec_normalize_path(trim_end_class(toks[n - 1], CharClass::OneOf3(',', ')', ';'))),
        )
    } else {
        token_paths(toks, n - 1)
    }
}

/// Paths named by one output line: the arrow location, else the panic
/// location, else every source-looking token.
pub open spec fn line_paths(line: Seq<char>) -> Set<Seq<char>> {
    match spec_path_after_arrow(line) {
        Some(p) => set![p],
        None => match spec_path_after_panic(line) {
            Some(p) => set![p],
            None => {
                let toks = split_nonempty(line, CharClass::Whitespace);
                token_paths(toks, toks.len() as int)
            },
        },
    }
}

/// Paths named by the first `n` lines.
pub open spec fn lines_paths(ls: Seq<Seq<char>>, n: int) -> Set<Seq<char>>
    decreases n,
{
    if n <= 0 || n > ls.len() {
        Set::empty()
    } else {
        lines_paths(ls, n - 1).union(line_paths(ls[n - 1]))
    }
}

/// Paths named anywhere in the output.
pub open spec fn spec_output_paths(output: Seq<char>) -> Set<Seq<char>> {
    lines_paths(lines(output), lines(output).len() as int)
}

/// Normalized changed files.
pub open spec fn normalized_set(files: Seq<Seq<char>>) -> Set<Seq<char>> {
    files.map_values(|p: Seq<char>| spec_normalize_path(p)).to_set()
}

/// The suggestion for a failure class, pointing at the first likely file.
pub open spec fn spec_suggested_focus(ft: FailureType, files: Seq<Seq<char>>) -> Seq<char> {
    let hint = if files.len() > 0 {
        " Start with `"@ + files[0] + "`."@
    } else {
        Seq::empty()
    };
    match ft {
        FailureType::CompileError => "Fix the compile error before changing tests."@ + hint,
        FailureType::TestAssertionFailure => "Fix the failing assertion or test expectation."@
            + hint,
        FailureType::MissingImport => "Resolve the missing import or module path."@ + hint,
        FailureType::SnapshotFailure =>
            "Review the snapshot diff; update snapshots only if the UI change is intentional."@
            + hint,
        FailureType::LintFailure => "Address the lint/clippy finding in the reported location."@
            + hint,
        FailureType::Timeout =>
            "Investigate the slow or hanging test; avoid broad workspace test runs."@,
        FailureType::Unknown =>
            "Read the failure output and fix the underlying issue before expanding scope."@
            + hint,
    }
}

/// The focus points at the first likely file: for every class but a
/// timeout, the focus with likely files is the focus without them followed
/// by `` Start with `<first file>`.``; a timeout's focus names no file.
pub proof fn lemma_focus_names_first_file(ft: FailureType, files: Seq<Seq<char>>)
    ensures
        ft != FailureType::Timeout && files.len() > 0 ==> spec_suggested_focus(ft, files)
            == spec_suggested_focus(ft, Seq::empty()) + " Start with `"@ + files[0] + "`."@,
        ft == FailureType::Timeout ==> spec_suggested_focus(ft, files) == spec_suggested_focus(
            ft,
            Seq::empty(),
        ),
        files.len() == 0 ==> spec_suggested_focus(ft, files) == spec_suggested_focus(
            ft,
            Seq::empty(),
        ),
{
    let e = Seq::<char>::empty();
    assert("Fix the compile error before changing tests."@ + e =~= "Fix the compile error before changing tests."@);
    assert("Fix the failing assertion or test expectation."@ + e =~= "Fix the failing assertion or test expectation."@);
    assert("Resolve the missing import or module path."@ + e =~= "Resolve the missing import or module path."@);
    assert("Review the snapshot diff; update snapshots only if the UI change is intentional."@ + e
        =~= "Review the snapshot diff; update snapshots only if the UI change is intentional."@);
    assert("Address the lint/clippy finding in the reported location."@ + e =~= "Address the lint/clippy finding in the reported location."@);
    assert("Read the failure output and fix the underlying issue before expanding scope."@ + e
        =~= "Read the failure output and fix the underlying issue before expanding scope."@);
    if files.len() > 0 {
        let h = " Start with `"@ + files[0] + "`."@;
        assert(h =~= " Start with `"@ + files[0] + "`."@);
    }
}

// ---------------------------------------------------------------------------
// Implementation
// ---------------------------------------------------------------------------

/// `h` is the repair hint for the output, changed files and command: the
/// classified failure, the sorted likely files, and the focus for them.
pub open spec fn is_repair_hint_for(h: RepairHint, output: Seq<char>, changed: Seq<Seq<char>>, command: Seq<char>) -> bool {
    &&& h.likely_failure_type == spec_classify_failure(output, command)
    &&& sorted_set_of(str_views(h.likely_files@), normalized_set(changed).union(spec_output_paths(output)))
    &&& h.suggested_focus@ == spec_suggested_focus(h.likely_failure_type, str_views(h.likely_files@))
}

/// Classifies the failure, collects the likely files (changed files and
/// source paths named in the output, sorted and deduplicated) and suggests
/// where to focus.
pub fn infer_repair_hint(relevant_output: &str, changed_files: &[String], failed_command: &str) -> (out:
    RepairHint)
    ensures
        out.likely_failure_type == spec_classify_failure(relevant_output@, failed_command@),
        sorted_set_of(
            str_views(out.likely_files@),
            normalized_set(str_views(changed_files@)).union(spec_output_paths(relevant_output@)),
        ),
        out.suggested_focus@ == spec_suggested_focus(
            out.likely_failure_type,
            str_views(out.likely_files@),
        ),
{
    let failure_type = classify_failure(relevant_output, failed_command);
    let likely_files = collect_likely_files(relevant_output, changed_files);
    let suggested_focus = suggested_focus_for(failure_type, &likely_files);
    RepairHint { likely_failure_type: failure_type, likely_files, suggested_focus }
}

fn holds(l: &Vec<char>, p: &str) -> (r: bool)
    ensures
        r == contains(l@, p@),
{
    let pc = chars_of(p);
    contains_exec(l.as_slice(), pc.as_slice())
}

fn classify_failure(output: &str, failed_command: &str) -> (r: FailureType)
    ensures
        r == spec_classify_failure(output@, failed_command@),
{
    let oc = chars_of(output);
    let l = lower_chars(oc.as_slice());
    let cc = chars_of(failed_command);
    let c = lower_chars(cc.as_slice());
    if holds(&l, "timed out") || holds(&c, "timeout") {
        return FailureType::Timeout;
    }
    if holds(&l, "insta") || holds(&l, "snapshot") || holds(&l, ".snap") || holds(&l, "cargo insta") {
        return FailureType::SnapshotFailure;
    }
    if holds(&l, "clippy") || holds(&l, "deny(warnings)") || (holds(&l, "warning:") && holds(&l, "denied")) {
        return FailureType::LintFailure;
    }
    if holds(&l, "unresolved import") || holds(&l, "no module named") || holds(&l, "use of unresolved")
        || holds(&l, "error[e0432]") || holds(&l, "error[e0433]") || holds(&l, "failed to resolve") || holds(
        &l,
        "cannot find crate",
    ) || holds(&l, "cannot find module") {
        return FailureType::MissingImport;
    }
    if holds(&l, "assertion failed") || holds(&l, "assertionerror") || holds(&l, "assert_eq!") || holds(
        &l,
        "panicked at",
    ) || holds(&l, "test result: failed") || holds(&l, "error: test failed") || holds(&l, "test failed")
        || holds(&l, "failed tests/") || (holds(&l, "left:") && holds(&l, "right:")) || (holds(
        &l,
        "assert ",
    ) && holds(&l, "==")) {
        return FailureType::TestAssertionFailure;
    }
    if holds(&l, "could not compile") || holds(&l, "compilation failed") || holds(&l, "error[e0") || (holds(
        &l,
        "error: ",
    ) && !holds(&l, "test result:")) {
        return FailureType::CompileError;
    }
    FailureType::Unknown
}

fn collect_likely_files(output: &str, changed_files: &[String]) -> (out: Vec<String>)
    ensures
        sorted_set_of(
            str_views(out@),
            normalized_set(str_views(changed_files@)).union(spec_output_paths(output@)),
        ),
{
    let ghost cv = str_views(changed_files@);
    let ghost mapped = cv.map_values(|p: Seq<char>| spec_normalize_path(p));
    let mut paths: Vec<String> = Vec::new();
    let mut i: usize = 0;
    assert(str_views(paths@).to_set() =~= mapped.take(0).to_set());
    while i < changed_files.len()
        invariant
            i <= changed_files@.len(),
            cv == str_views(changed_files@),
            mapped == cv.map_values(|p: Seq<char>| spec_normalize_path(p)),
            sorted_set_of(str_views(paths@), mapped.take(i as int).to_set()),
        decreases changed_files@.len() - i,
    {
        let n = normalize_path(changed_files[i].as_str());
        insert_sorted(&mut paths, n);
        assert(mapped.take(i + 1) =~= mapped.take(i as int).push(mapped[i as int]));
        proof {
            mapped.take(i as int).lemma_push_to_set_commute(mapped[i as int]);
        }
        i = i + 1;
    }
    assert(mapped.take(changed_files@.len() as int) =~= mapped);
    let extracted = extract_paths_from_output(output);
    crate::sorted::insert_all_sorted(&mut paths, &extracted);
    paths
}

fn extract_paths_from_output(output: &str) -> (out: Vec<String>)
    ensures
        sorted_set_of(str_views(out@), spec_output_paths(output@)),
{
    let oc = chars_of(output);
    let ls = lines_exec(oc.as_slice());
    let ghost lv = views(ls@);
    let mut found: Vec<String> = Vec::new();
    let mut i: usize = 0;
    assert(str_views(found@).to_set() =~= lines_paths(lv, 0));
    while i < ls.len()
        invariant
            i <= ls@.len(),
            lv == views(ls@),
            lv == lines(output@),
            sorted_set_of(str_views(found@), lines_paths(lv, i as int)),
        decreases ls@.len() - i,
    {
        let line = &ls[i];
        let ghost before = str_views(found@).to_set();
        match path_after_arrow(line.as_slice()) {
            Some(p) => {
                insert_sorted(&mut found, p);
            },
            None => match path_after_panic(line.as_slice()) {
                Some(p) => {
                    insert_sorted(&mut found, p);
                },
                None => {
                    let toks = split_nonempty_exec(line.as_slice(), CharClass::Whitespace);
                    let ghost tv = views(toks@);
                    let mut k: usize = 0;
                    while k < toks.len()
                        invariant
                            k <= toks@.len(),
                            tv == views(toks@),
                            strictly_sorted(str_views(found@)),
                            str_views(found@).to_set() == before.union(token_paths(tv, k as int)),
                        decreases toks@.len() - k,
                    {
                        let tok = &toks[k];
                        if looks_like_source_path(tok.as_slice()) {
                            let trimmed = trim_end_class_exec(
                                tok.as_slice(),
                                CharClass::OneOf3(',', ')', ';'),
                            );
                            let s = string_from(trimmed.as_slice());
                            let n = normalize_path(s.as_str());
                            insert_sorted(&mut found, n);
                        }
                        k = k + 1;
                    }
                    assert(before.union(token_paths(tv, tv.len() as int)) =~= before.union(
                        line_paths(lv[i as int]),
                    ));
                },
            },
        }
        assert(str_views(found@).to_set() =~= lines_paths(lv, i + 1));
        i = i + 1;
    }
    found
}

/// The part of `rest` before its first `:`, trimmed, if it looks like a
/// source path (normalized).
fn path_before_colon_exec(rest: &[char]) -> (r: Option<String>)
    ensures
        match r {
            Some(s) => path_before_colon(rest@) == Some(s@),
            None => path_before_colon(rest@) == None::<Seq<char>>,
        },
{
    let pieces = split_exec(rest, CharClass::Is(':'));
    proof {
        crate::text::lemma_split_from_len(rest@, CharClass::Is(':'), 0);
    }
    assert(views(pieces@)[0] == pieces@[0]@);
    let path = trim_exec(pieces[0].as_slice());
    if looks_like_source_path(path.as_slice()) {
        let s = string_from(path.as_slice());
        Some(normalize_path(s.as_str()))
    } else {
        None
    }
}

fn path_after_panic(line: &[char]) -> (r: Option<String>)
    ensures
        match r {
            Some(s) => spec_path_after_panic(line@) == Some(s@),
            None => spec_path_after_panic(line@) == None::<Seq<char>>,
        },
{
    let l = lower_chars(line);
    let marker = chars_of("panicked at ");
    let k = match find_exec(l.as_slice(), marker.as_slice()) {
        None => return None,
        Some(k) => k,
    };
    proof {
        lemma_find_from(l@, marker@, 0);
    }
    assert(marker@.len() == 12) by {
        reveal_strlit("panicked at ");
    }
    let n: usize = line.len();
    assert(l@.len() == n);
    let rest = sub_chars(line, k + 12, n);
    assert(rest@ =~= line@.skip(k + 12));
    path_before_colon_exec(rest.as_slice())
}

fn path_after_arrow(line: &[char]) -> (r: Option<String>)
    ensures
        match r {
            Some(s) => spec_path_after_arrow(line@) == Some(s@),
            None => spec_path_after_arrow(line@) == None::<Seq<char>>,
        },
{
    let marker = chars_of("-->");
    let k = match find_exec(line, marker.as_slice()) {
        None => return None,
        Some(k) => k,
    };
    proof {
        lemma_find_from(line@, marker@, 0);
    }
    assert(marker@.len() == 3) by {
        reveal_strlit("-->");
    }
    let n: usize = line.len();
    let rest = sub_chars(line, k + 3, n);
    assert(rest@ =~= line@.skip(k + 3));
    let t = trim_exec(rest.as_slice());
    path_before_colon_exec(t.as_slice())
}

fn looks_like_source_path(token: &[char]) -> (r: bool)
    ensures
        r == spec_looks_like_source_path(token@),
{
    let rs = chars_of(".rs");
    let ts = chars_of(".ts");
    let tsx = chars_of(".tsx");
    let py = chars_of(".py");
    (ends_with_exec(token, rs.as_slice()) || ends_with_exec(token, ts.as_slice()) || ends_with_exec(
        token,
        tsx.as_slice(),
    ) || ends_with_exec(token, py.as_slice())) && (has_char(token, '/') || has_char(token, '\\'))
}

fn normalize_path(path: &str) -> (out: String)
    ensures
        out@ == spec_normalize_path(path@),
{
    let pc = chars_of(path);
    let mut v: Vec<char> = Vec::new();
    let mut i: usize = 0;
    while i < pc.len()
        invariant
            i <= pc@.len(),
            pc@ == path@,
            v@ == spec_normalize_path(pc@.take(i as int)),
        decreases pc@.len() - i,
    {
        let c = pc[i];
        v.push(
            if c == '\\' {
                '/'
            } else {
                c
            },
        );
        i = i + 1;
        assert(v@ =~= spec_normalize_path(pc@.take(i as int)));
    }
    assert(pc@.take(pc@.len() as int) =~= pc@);
    string_from(v.as_slice())
}

fn suggested_focus_for(failure_type: FailureType, likely_files: &Vec<String>) -> (out: String)
    ensures
        out@ == spec_suggested_focus(failure_type, str_views(likely_files@)),
{
    let mut hint = String::new();
    if likely_files.len() > 0 {
        crate::text::push_str(&mut hint, " Start with `");
        crate::text::push_str(&mut hint, likely_files[0].as_str());
        crate::text::push_str(&mut hint, "`.");
    }
    let base = match failure_type {
        FailureType::CompileError => "Fix the compile error before changing tests.",
        FailureType::TestAssertionFailure => "Fix the failing assertion or test expectation.",
        FailureType::MissingImport => "Resolve the missing import or module path.",
        FailureType::SnapshotFailure =>
            "Review the snapshot diff; update snapshots only if the UI change is intentional.",
        FailureType::LintFailure => "Address the lint/clippy finding in the reported location.",
        FailureType::Timeout =>
            "Investigate the slow or hanging test; avoid broad workspace test runs.",
        FailureType::Unknown =>
            "Read the failure output and fix the underlying issue before expanding scope.",
    };
    let mut out = base.to_owned();
    match failure_type {
        FailureType::Timeout => {},
        _ => {
            crate::text::push_str(&mut out, hint.as_str());
        },
    }
    out
}

} // verus!
