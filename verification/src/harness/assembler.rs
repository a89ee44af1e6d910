//! Context assembly rules that depend only on paths and task terms: which
//! file owns a task within its crate, manifest handling, and the order in
//! which candidate files are considered.
use vstd::prelude::*;

use crate::harness::task_terms::{spec_task_targets_crate, task_targets_crate, TaskTerms};
use crate::text::{chars_of, contains, ends_with, lower, starts_with, str_views};

verus! {

/// Assembles context packets.
pub struct ContextAssembler;

/// Files that own a responsibility within their crate: a path suffix, the
/// task words that name the responsibility, and the evidence label.
pub open spec fn within_crate_owners() -> Seq<(Seq<char>, Seq<Seq<char>>, Seq<char>)> {
    seq![
        ("verification/src/python_rules.rs"@, seq!["python"@, "pytest"@], "owner:python_rules"@),
        (
            "verification/src/command_exec.rs"@,
            seq![
                "command"@,
                "exec"@,
                "execution"@,
                "shell"@,
                "parse"@,
                "parser"@,
                "safe"@,
                "safety"@,
            ],
            "owner:command_exec"@,
        ),
        ("verification/src/planner.rs"@, seq!["plan"@, "planner"@], "owner:planner"@),
        (
            "verification/src/rules.rs"@,
            seq!["rule"@, "rules"@, "cargo"@, "package"@, "alias"@, "area"@],
            "owner:rules"@,
        ),
        (
            "context-harness/src/renderer.rs"@,
            seq![
                "renderer"@,
                "render"@,
                "directive"@,
                "marker"@,
                "sentinel"@,
                "fragment"@,
                "prompt"@,
            ],
            "owner:harness_renderer"@,
        ),
        (
            "context-harness/src/agent_eval.rs"@,
            seq![
                "scorer"@,
                "record"@,
                "warning"@,
                "warnings"@,
                "invalid"@,
                "duration"@,
                "validity"@,
                "classify"@,
            ],
            "owner:agent_eval"@,
        ),
        (
            "context-harness/src/assembler.rs"@,
            seq!["assembler"@, "packet"@, "orientation"@],
            "owner:assembler"@,
        ),
        (
            "context-harness/src/task_terms.rs"@,
            seq!["tokenize"@, "synonym"@, "synonyms"@, "backtick"@, "phrase"@, "phrases"@],
            "owner:task_terms"@,
        ),
        (
            "context-harness/src/selection.rs"@,
            seq!["caps"@, "cap"@, "budget"@, "inspect"@, "limit"@],
            "owner:selection"@,
        ),
    ]
}

/// Some trigger is one of the phrases.
pub open spec fn any_trigger(triggers: Seq<Seq<char>>, phrases: Seq<Seq<char>>) -> bool {
    exists|i: int| 0 <= i < triggers.len() && phrases.contains(#[trigger] triggers[i])
}

/// The evidence of the first owner row from `i` on whose suffix ends the
/// path and one of whose triggers the task names.
pub open spec fn owner_from(rows: Seq<(Seq<char>, Seq<Seq<char>>, Seq<char>)>, path: Seq<char>, phrases: Seq<Seq<char>>, i: int) -> Option<Seq<char>>
    decreases rows.len() - i,
{
    if i < 0 || i >= rows.len() {
        None
    } else if ends_with(path, rows[i].0) && any_trigger(rows[i].1, phrases) {
        Some(rows[i].2)
    } else {
        owner_from(rows, path, phrases, i + 1)
    }
}

/// The owner evidence for a path and task.
pub open spec fn spec_within_crate_owner(path: Seq<char>, phrases: Seq<Seq<char>>) -> Option<Seq<char>> {
    owner_from(within_crate_owners(), path, phrases, 0)
}

fn owner_row(i: usize) -> (r: (&'static str, Vec<&'static str>, &'static str))
    requires
        i < 9,
    ensures
        r.0@ == within_crate_owners()[i as int].0,
        r.1@.map_values(|s: &str| s@) == within_crate_owners()[i as int].1,
        r.2@ == within_crate_owners()[i as int].2,
{
    let r = if i == 0 {
        ("verification/src/python_rules.rs", vec!["python", "pytest"], "owner:python_rules")
    } else if i == 1 {
        (
            "verification/src/command_exec.rs",
            vec!["command", "exec", "execution", "shell", "parse", "parser", "safe", "safety"],
            "owner:command_exec",
        )
    } else if i == 2 {
        ("verification/src/planner.rs", vec!["plan", "planner"], "owner:planner")
    } else if i == 3 {
        (
            "verification/src/rules.rs",
            vec!["rule", "rules", "cargo", "package", "alias", "area"],
            "owner:rules",
        )
    } else if i == 4 {
        (
            "context-harness/src/renderer.rs",
            vec!["renderer", "render", "directive", "marker", "sentinel", "fragment", "prompt"],
            "owner:harness_renderer",
        )
    } else if i == 5 {
        (
            "context-harness/src/agent_eval.rs",
            vec![
                "scorer",
                "record",
                "warning",
                "warnings",
                "invalid",
                "duration",
                "validity",
                "classify",
            ],
            "owner:agent_eval",
        )
    } else if i == 6 {
        ("context-harness/src/assembler.rs", vec!["assembler", "packet", "orientation"], "owner:assembler")
    } else if i == 7 {
        (
            "context-harness/src/task_terms.rs",
            vec!["tokenize", "synonym", "synonyms", "backtick", "phrase", "phrases"],
            "owner:task_terms",
        )
    } else {
        (
            "context-harness/src/selection.rs",
            vec!["caps", "cap", "budget", "inspect", "limit"],
            "owner:selection",
        )
    };
    assert(r.1@.map_values(|s: &str| s@) =~= within_crate_owners()[i as int].1);
    r
}

fn any_trigger_exec(triggers: &Vec<&str>, phrases: &Vec<String>) -> (r: bool)
    ensures
        r == any_trigger(triggers@.map_values(|s: &str| s@), str_views(phrases@)),
{
    let ghost tv = triggers@.map_values(|s: &str| s@);
    let mut i: usize = 0;
    while i < triggers.len()
        invariant
            i <= triggers@.len(),
            tv == triggers@.map_values(|s: &str| s@),
            forall|j: int| 0 <= j < i ==> !str_views(phrases@).contains(#[trigger] tv[j]),
        decreases triggers@.len() - i,
    {
        if crate::text::any_eq(phrases, triggers[i]) {
            assert(str_views(phrases@).contains(tv[i as int]));
            return true;
        }
        i = i + 1;
    }
    false
}

/// The owner evidence of `path` when the task names one of its triggers;
/// only the task's own phrases count, not their synonyms.
pub fn within_crate_owner_match(path: &str, terms: &TaskTerms) -> (r: Option<&'static str>)
    ensures
        match r {
            Some(e) => spec_within_crate_owner(path@, str_views(terms.phrases@)) == Some(e@),
            None => spec_within_crate_owner(path@, str_views(terms.phrases@)) is None,
        },
{
    let ghost rows = within_crate_owners();
    let ghost ph = str_views(terms.phrases@);
    let mut i: usize = 0;
    while i < 9
        invariant
            i <= 9,
            rows == within_crate_owners(),
            ph == str_views(terms.phrases@),
            owner_from(rows, path@, ph, 0) == owner_from(rows, path@, ph, i as int),
        decreases 9 - i,
    {
        let (suffix, triggers, evidence) = owner_row(i);
        if crate::text::str_ends_with(path, suffix) && any_trigger_exec(&triggers, &terms.phrases) {
            return Some(evidence);
        }
        i = i + 1;
    }
    None
}

/// A build or package manifest.
pub open spec fn spec_is_manifest_path(path: Seq<char>) -> bool {
    ends_with(path, "BUILD.bazel"@) || ends_with(path, "Cargo.toml"@) || ends_with(path, "package.json"@)
}

/// Whether the path is a build or package manifest.
pub fn is_manifest_path(path: &str) -> (r: bool)
    ensures
        r == spec_is_manifest_path(path@),
{
    crate::text::str_ends_with(path, "BUILD.bazel") || crate::text::str_ends_with(path, "Cargo.toml")
        || crate::text::str_ends_with(path, "package.json")
}

/// The unquoted task text names manifests explicitly.
pub open spec fn spec_names_manifest(t: Seq<char>) -> bool {
    contains(t, "cargo.toml"@) || contains(t, "build.bazel"@) || contains(t, "package.json"@)
        || contains(t, "manifest"@) || contains(t, "dependency"@) || contains(t, "dependencies"@)
        || contains(t, "crate package"@) || contains(t, " bazel "@) || starts_with(t, "bazel "@)
        || ends_with(t, " bazel"@)
}

/// Whether the task, outside quotes, names manifest vocabulary.
pub fn task_explicitly_names_manifest(terms: &TaskTerms) -> (r: bool)
    ensures
        r == spec_names_manifest(terms.task_outside_quotes_lower@),
{
    let t = terms.task_outside_quotes_lower.as_str();
    crate::text::str_contains(t, "cargo.toml") || crate::text::str_contains(t, "build.bazel")
        || crate::text::str_contains(t, "package.json") || crate::text::str_contains(t, "manifest")
        || crate::text::str_contains(t, "dependency") || crate::text::str_contains(t, "dependencies")
        || crate::text::str_contains(t, "crate package") || crate::text::str_contains(t, " bazel ")
        || crate::text::str_starts_with(t, "bazel ") || crate::text::str_ends_with(t, " bazel")
}

/// Some expanded term is `bazel` or `cargo` or occurs in the lower-cased
/// path.
pub open spec fn spec_task_mentions_manifest(path: Seq<char>, expanded: Seq<Seq<char>>) -> bool {
    exists|i: int|
        0 <= i < expanded.len() && (#[trigger] expanded[i] == "bazel"@ || expanded[i] == "cargo"@
            || contains(lower(path), expanded[i]))
}

/// Whether the task's expanded terms mention manifests or the path.
pub fn task_mentions_manifest(path: &str, terms: &TaskTerms) -> (r: bool)
    ensures
        r == spec_task_mentions_manifest(path@, str_views(terms.expanded@)),
{
    let pc = chars_of(path);
    let pl = crate::text::lower_chars(pc.as_slice());
    let ghost ev = str_views(terms.expanded@);
    let mut i: usize = 0;
    while i < terms.expanded.len()
        invariant
            i <= terms.expanded@.len(),
            ev == str_views(terms.expanded@),
            pl@ == lower(path@),
            forall|j: int|
                0 <= j < i ==> !(#[trigger] ev[j] == "bazel"@ || ev[j] == "cargo"@ || contains(
                    lower(path@),
                    ev[j],
                )),
        decreases terms.expanded@.len() - i,
    {
        let t = terms.expanded[i].as_str();
        let tc = chars_of(t);
        if crate::text::str_eq(t, "bazel") || crate::text::str_eq(t, "cargo") || crate::text::contains_exec(
            pl.as_slice(),
            tc.as_slice(),
        ) {
            assert(ev[i as int] == t@);
            return true;
        }
        i = i + 1;
    }
    false
}

/// Which group a candidate falls in: 0 for the high-signal files (eval,
/// metrics, the CLI bridge), 1 for files of a reserved crate, 2 for the
/// rest and for candidates without a path.
pub open spec fn priority_group(path: Option<Seq<char>>, reserve_harness: bool, reserve_cli: bool) -> int {
    match path {
        None => 2,
        Some(p) => if ends_with(p, "eval.rs"@) || ends_with(p, "metrics.rs"@) || ends_with(
            p,
            "context_cmd.rs"@,
        ) {
            0
        } else if (reserve_harness && starts_with(p, "context-harness/"@)) || (reserve_cli
            && starts_with(p, "cli/"@)) {
            1
        } else {
            2
        },
    }
}

/// The positions of the candidates of group `g`, in order.
pub open spec fn group_positions(paths: Seq<Option<Seq<char>>>, rh: bool, rc: bool, g: int) -> Seq<usize>
    decreases paths.len(),
{
    if paths.len() == 0 {
        Seq::empty()
    } else {
        group_positions(paths.drop_last(), rh, rc, g) + if priority_group(paths.last(), rh, rc) == g {
            seq![(paths.len() - 1) as usize]
        } else {
            Seq::empty()
        }
    }
}

/// The view of optional paths.
pub open spec fn opt_paths(v: Seq<Option<String>>) -> Seq<Option<Seq<char>>> {
    v.map_values(|o: Option<String>| match o {
        Some(s) => Some(s@),
        None => None,
    })
}

impl ContextAssembler {
    /// The order in which candidates are considered: high-signal files
    /// first, then files of the crate the task targets (the harness crate,
    /// or the CLI for command-eval tasks), then the rest; the order within
    /// each group is kept. Returns the candidates' positions.
    pub fn prioritize_for_task(terms: &TaskTerms, paths: &Vec<Option<String>>) -> (order: Vec<usize>)
        ensures
            ({
                let rh = spec_task_targets_crate(str_views(terms.phrases@), "context-harness"@);
                let rc = str_views(terms.phrases@).contains("command"@) && str_views(terms.phrases@).contains(
                    "eval"@,
                );
                let pv = opt_paths(paths@);
                order@ == group_positions(pv, rh, rc, 0) + group_positions(pv, rh, rc, 1)
                    + group_positions(pv, rh, rc, 2)
            }),
    {
        let reserve_harness = task_targets_crate(terms.phrases.as_slice(), "context-harness");
        let reserve_cli = crate::text::any_eq(&terms.phrases, "command") && crate::text::any_eq(
            &terms.phrases,
            "eval",
        );
        let ghost pv = opt_paths(paths@);
        let mut high: Vec<usize> = Vec::new();
        let mut preferred: Vec<usize> = Vec::new();
        let mut rest: Vec<usize> = Vec::new();
        let mut i: usize = 0;
        assert(pv.take(0) =~= Seq::<Option<Seq<char>>>::empty());
        while i < paths.len()
            invariant
                i <= paths@.len(),
                pv == opt_paths(paths@),
                high@ == group_positions(pv.take(i as int), reserve_harness, reserve_cli, 0),
                preferred@ == group_positions(pv.take(i as int), reserve_harness, reserve_cli, 1),
                rest@ == group_positions(pv.take(i as int), reserve_harness, reserve_cli, 2),
            decreases paths@.len() - i,
        {
            assert(pv.take(i + 1).drop_last() =~= pv.take(i as int));
            let g: u8 = match &paths[i] {
                None => 2,
                Some(p) => {
                    let s = p.as_str();
                    if crate::text::str_ends_with(s, "eval.rs") || crate::text::str_ends_with(
                        s,
                        "metrics.rs",
                    ) || crate::text::str_ends_with(s, "context_cmd.rs") {
                        0
                    } else if (reserve_harness && crate::text::str_starts_with(s, "context-harness/"))
                        || (reserve_cli && crate::text::str_starts_with(s, "cli/")) {
                        1
                    } else {
                        2
                    }
                },
            };
            assert(g == priority_group(pv[i as int], reserve_harness, reserve_cli));
            assert(pv.take(i + 1).last() == pv[i as int]);
            if g == 0 {
                high.push(i);
            } else if g == 1 {
                preferred.push(i);
            } else {
                rest.push(i);
            }
            assert(high@ =~= group_positions(pv.take(i + 1), reserve_harness, reserve_cli, 0));
            assert(preferred@ =~= group_positions(pv.take(i + 1), reserve_harness, reserve_cli, 1));
            assert(rest@ =~= group_positions(pv.take(i + 1), reserve_harness, reserve_cli, 2));
            i = i + 1;
        }
        assert(pv.take(paths@.len() as int) =~= pv);
        let mut order = high;
        order.append(&mut preferred);
        order.append(&mut rest);
        order
    }
}

} // verus!
