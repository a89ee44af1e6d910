//! How broadly a task may pull files from outside its owning area, and the
//! path tests that go with each breadth.
use vstd::prelude::*;

use crate::harness::agent_eval::opt_view;
use crate::harness::task_terms::{spec_path_matches_term, path_matches_term, TaskTerms};
use crate::sorted::{insert_sorted, sorted_set_of, strictly_sorted};
use crate::text::{chars_of, contains, lower, lower_chars, starts_with, str_views};

verus! {

/// How broadly a task may pull files outside the primary owning area.
#[derive(Debug, Clone, Copy, PartialEq, Eq)]
pub enum TaskScope {
    /// Only the primary crate area.
    SingleArea,
    /// Primary area plus CLI/command entrypoints.
    AreaPlusBridge,
    /// Multiple feature areas (extension, app-server, core, ...).
    CrossArea,
    /// Primary area plus CLI bridges and `core/` prompt/session files.
    CoreIntegration,
}

/// Task ownership used for area-first file selection.
#[derive(Debug, Clone, PartialEq)]
pub struct ResolvedOwnership {
    pub primary_area: Option<String>,
    pub matched_command: Option<String>,
    /// Paths in scope, sorted and without repeats.
    pub scoped_paths: Vec<String>,
    pub task_scope: TaskScope,
    /// Bridge paths, sorted and without repeats.
    pub bridge_paths: Vec<String>,
    pub cross_area_roots: Vec<String>,
}

impl ResolvedOwnership {
    /// The path sets are sorted sets.
    pub open spec fn well_formed(self) -> bool {
        strictly_sorted(str_views(self.scoped_paths@)) && strictly_sorted(str_views(self.bridge_paths@))
    }
}

/// The CLI file that bridges commands into the harness.
pub open spec fn cli_bridge_path() -> Seq<char> {
    "cli/src/context_cmd.rs"@
}

/// Core files that prompt/session tasks may touch, each with the words that
/// make a task concern it.
pub open spec fn core_integration_paths() -> Seq<(Seq<char>, Seq<Seq<char>>)> {
    seq![
        ("core/src/prompt_debug.rs"@, seq!["diff"@, "prompt"@, "debug"@, "self"@]),
        (
            "core/src/session/mod.rs"@,
            seq!["session"@, "assembly"@, "prompt"@, "extension"@, "intelligence"@],
        ),
    ]
}

/// Whether the task mentions any of the words: in its lower-cased text, as
/// a phrase, or as a path word.
pub open spec fn spec_task_mentions_any(task: Seq<char>, phrases: Seq<Seq<char>>, required: Seq<Seq<char>>) -> bool {
    exists|i: int|
        0 <= i < required.len() && (contains(lower(task), #[trigger] required[i]) || phrases.contains(
            required[i],
        ) || spec_path_matches_term(task, required[i]))
}

fn task_mentions_any(task: &str, terms: &TaskTerms, required: &Vec<&str>) -> (r: bool)
    ensures
        r == spec_task_mentions_any(task@, str_views(terms.phrases@), required@.map_values(|s: &str| s@)),
{
    let ghost rv = required@.map_values(|s: &str| s@);
    let tc = chars_of(task);
    let tl = lower_chars(tc.as_slice());
    let mut i: usize = 0;
    while i < required.len()
        invariant
            i <= required@.len(),
            rv == required@.map_values(|s: &str| s@),
            tl@ == lower(task@),
            forall|j: int|
                0 <= j < i ==> !(contains(lower(task@), #[trigger] rv[j]) || str_views(
                    terms.phrases@,
                ).contains(rv[j]) || spec_path_matches_term(task@, rv[j])),
        decreases required@.len() - i,
    {
        let r = required[i];
        let rc = chars_of(r);
        if crate::text::contains_exec(tl.as_slice(), rc.as_slice()) || crate::text::any_eq(
            &terms.phrases,
            r,
        ) || path_matches_term(task, r) {
            assert(rv[i as int] == r@);
            return true;
        }
        i = i + 1;
    }
    false
}

/// The breadth a task asks for: cross-area for extension wiring, core
/// integration for prompt debugging, area plus bridge for a matched command
/// or a harness command/eval/diff task, else single area.
pub open spec fn spec_infer_task_scope(task: Seq<char>, phrases: Seq<Seq<char>>, matched_command: bool) -> TaskScope {
    let l = lower(task);
    if (phrases.contains("intelligence"@) || phrases.contains("extension"@)) && (contains(l, "session"@)
        || contains(l, "assembly"@) || contains(l, "wire"@)) {
        TaskScope::CrossArea
    } else if contains(l, "diff-prompt"@) || contains(l, "diff prompt"@) || (contains(l, "prompt"@)
        && contains(l, "self-contained"@)) || (phrases.contains("prompt"@) && contains(l, "debug"@)) {
        TaskScope::CoreIntegration
    } else if matched_command || (contains(l, "context"@) && (phrases.contains("command"@)
        || phrases.contains("eval"@) || phrases.contains("diff"@))) {
        TaskScope::AreaPlusBridge
    } else {
        TaskScope::SingleArea
    }
}

fn has_phrase(terms: &TaskTerms, p: &str) -> (r: bool)
    ensures
        r == str_views(terms.phrases@).contains(p@),
{
    crate::text::any_eq(&terms.phrases, p)
}

fn mentions(l: &[char], p: &str) -> (r: bool)
    ensures
        r == contains(l@, p@),
{
    let pc = chars_of(p);
    crate::text::contains_exec(l, pc.as_slice())
}

/// Infers how broadly the task may pull files outside its owning area.
pub fn infer_task_scope(task: &str, terms: &TaskTerms, ownership: &ResolvedOwnership) -> (s: TaskScope)
    ensures
        s == spec_infer_task_scope(task@, str_views(terms.phrases@), ownership.matched_command is Some),
{
    let tc = chars_of(task);
    let l = lower_chars(tc.as_slice());
    let ls = l.as_slice();
    if (has_phrase(terms, "intelligence") || has_phrase(terms, "extension")) && (mentions(ls, "session")
        || mentions(ls, "assembly") || mentions(ls, "wire")) {
        return TaskScope::CrossArea;
    }
    if mentions(ls, "diff-prompt") || mentions(ls, "diff prompt") || (mentions(ls, "prompt") && mentions(
        ls,
        "self-contained",
    )) || (has_phrase(terms, "prompt") && mentions(ls, "debug")) {
        return TaskScope::CoreIntegration;
    }
    if ownership.matched_command.is_some() || (mentions(ls, "context") && (has_phrase(terms, "command")
        || has_phrase(terms, "eval") || has_phrase(terms, "diff"))) {
        return TaskScope::AreaPlusBridge;
    }
    TaskScope::SingleArea
}

/// A bridge path: the CLI bridge file or anything under `cli/`.
pub open spec fn spec_is_bridge_path(path: Seq<char>) -> bool {
    path == cli_bridge_path() || starts_with(path, "cli/"@)
}

/// Whether the path is a CLI bridge path (the primary area does not change
/// the answer).
pub fn is_bridge_path(path: &str, primary_area: Option<&str>) -> (r: bool)
    ensures
        r == spec_is_bridge_path(path@),
{
    let pc = chars_of(path);
    let bridge = chars_of("cli/src/context_cmd.rs");
    if crate::text::eq_chars(pc.as_slice(), bridge.as_slice()) {
        return true;
    }
    let cli = chars_of("cli/");
    if crate::text::starts_with_exec(pc.as_slice(), cli.as_slice()) {
        return true;
    }
    match primary_area {
        Some(area) => {
            let ac = chars_of(area);
            if crate::text::starts_with_exec(pc.as_slice(), ac.as_slice()) {
                return false;
            }
        },
        None => {},
    }
    false
}

/// One of the core integration files, which the task mentions.
pub open spec fn spec_is_core_integration_path(path: Seq<char>, phrases: Seq<Seq<char>>, task: Seq<char>) -> bool {
    exists|i: int|
        0 <= i < core_integration_paths().len() && (#[trigger] core_integration_paths()[i]).0 == path
            && spec_task_mentions_any(task, phrases, core_integration_paths()[i].1)
}

fn core_integration_words(i: usize) -> (out: (&'static str, Vec<&'static str>))
    requires
        i < 2,
    ensures
        out.0@ == core_integration_paths()[i as int].0,
        out.1@.map_values(|s: &str| s@) == core_integration_paths()[i as int].1,
{
    if i == 0 {
        let v = vec!["diff", "prompt", "debug", "self"];
        assert(v@.map_values(|s: &str| s@) =~= core_integration_paths()[0].1);
        ("core/src/prompt_debug.rs", v)
    } else {
        let v = vec!["session", "assembly", "prompt", "extension", "intelligence"];
        assert(v@.map_values(|s: &str| s@) =~= core_integration_paths()[1].1);
        ("core/src/session/mod.rs", v)
    }
}

/// Whether the path is a core integration file that the task concerns.
pub fn is_core_integration_path(path: &str, terms: &TaskTerms, task: &str) -> (r: bool)
    ensures
        r == spec_is_core_integration_path(path@, str_views(terms.phrases@), task@),
{
    let mut i: usize = 0;
    while i < 2
        invariant
            i <= 2,
            forall|j: int|
                0 <= j < i ==> !((#[trigger] core_integration_paths()[j]).0 == path@
                    && spec_task_mentions_any(
                    task@,
                    str_views(terms.phrases@),
                    core_integration_paths()[j].1,
                )),
        decreases 2 - i,
    {
        let (candidate, required) = core_integration_words(i);
        if crate::text::str_eq(candidate, path) && task_mentions_any(task, terms, &required) {
            return true;
        }
        i = i + 1;
    }
    false
}

/// Whether selection must stay inside the primary area.
pub fn area_lock_strict(scope: TaskScope) -> (r: bool)
    ensures
        r == (scope == TaskScope::SingleArea),
{
    match scope {
        TaskScope::SingleArea => true,
        _ => false,
    }
}

/// Whether to fall back to repository-wide candidates: broad scopes when the
/// area yielded none, narrow scopes when it yielded fewer than two.
pub fn should_use_global_fallback(scope: TaskScope, area_candidate_count: usize) -> (r: bool)
    ensures
        r == match scope {
            TaskScope::CrossArea | TaskScope::CoreIntegration => area_candidate_count < 1,
            TaskScope::AreaPlusBridge | TaskScope::SingleArea => area_candidate_count < 2,
        },
{
    match scope {
        TaskScope::CrossArea | TaskScope::CoreIntegration => area_candidate_count < 1,
        TaskScope::AreaPlusBridge | TaskScope::SingleArea => area_candidate_count < 2,
    }
}

// ---------------------------------------------------------------------------
// Extending the scoped paths for a breadth
// ---------------------------------------------------------------------------

/// Root directories that cross-area tasks may reach, each with the words
/// that make a task concern it.
pub open spec fn cross_area_roots() -> Seq<(Seq<char>, Seq<Seq<char>>)> {
    seq![
        ("ext/repo-intelligence/"@, seq!["intelligence"@, "extension"@]),
        ("app-server/"@, seq!["server"@, "extension"@, "assembly"@]),
        ("core/"@, seq!["session"@, "assembly"@, "prompt"@]),
    ]
}

fn cross_area_words(i: usize) -> (out: (&'static str, Vec<&'static str>))
    requires
        i < 3,
    ensures
        out.0@ == cross_area_roots()[i as int].0,
        out.1@.map_values(|s: &str| s@) == cross_area_roots()[i as int].1,
{
    if i == 0 {
        let v = vec!["intelligence", "extension"];
        assert(v@.map_values(|s: &str| s@) =~= cross_area_roots()[0].1);
        ("ext/repo-intelligence/", v)
    } else if i == 1 {
        let v = vec!["server", "extension", "assembly"];
        assert(v@.map_values(|s: &str| s@) =~= cross_area_roots()[1].1);
        ("app-server/", v)
    } else {
        let v = vec!["session", "assembly", "prompt"];
        assert(v@.map_values(|s: &str| s@) =~= cross_area_roots()[2].1);
        ("core/", v)
    }
}

/// A command of the repository map: the file that implements it, the files
/// related to it, and the area that implements it.
#[derive(Debug, Clone)]
pub struct CommandEntry {
    pub command: String,
    pub entrypoint: String,
    pub related_files: Vec<String>,
    pub implementation_area: String,
}

/// An area of the repository map: the files it owns, the directories under
/// which its files live, the prefixes that lie outside it although they
/// look related, and the CLI files related to it.
#[derive(Debug, Clone)]
pub struct AreaEntry {
    pub id: String,
    pub owned_files: Vec<String>,
    pub root_paths: Vec<String>,
    pub negative_paths: Vec<String>,
    pub related_cli_paths: Vec<String>,
}

/// What ownership resolution reads of a repository map: its commands and
/// its areas.
#[derive(Debug, Clone)]
pub struct RepoMapView {
    pub commands: Vec<CommandEntry>,
    pub areas: Vec<AreaEntry>,
}

/// Index of the first command named `name` at or after `i`.
pub open spec fn find_command(cmds: Seq<CommandEntry>, name: Seq<char>, i: int) -> Option<int>
    decreases cmds.len() - i,
{
    if i < 0 || i >= cmds.len() {
        None
    } else if cmds[i].command@ == name {
        Some(i)
    } else {
        find_command(cmds, name, i + 1)
    }
}

/// Index of the first area with id `id` at or after `i`.
pub open spec fn find_area(areas: Seq<AreaEntry>, id: Seq<char>, i: int) -> Option<int>
    decreases areas.len() - i,
{
    if i < 0 || i >= areas.len() {
        None
    } else if areas[i].id@ == id {
        Some(i)
    } else {
        find_area(areas, id, i + 1)
    }
}

/// The map's entry for the matched command, if there is one.
pub open spec fn matched_entry(map: RepoMapView, matched: Option<Seq<char>>) -> Option<CommandEntry> {
    match matched {
        Some(m) => match find_command(map.commands@, m, 0) {
            Some(i) => Some(map.commands@[i]),
            None => None,
        },
        None => None,
    }
}

/// The paths a matched command brings into scope: its entrypoint and its
/// related files.
pub open spec fn command_scoped(e: Option<CommandEntry>) -> Set<Seq<char>> {
    match e {
        Some(c) => str_views(c.related_files@).to_set().insert(c.entrypoint@),
        None => Set::empty(),
    }
}

/// The bridge paths a matched command brings: its entrypoint and those of
/// its related files that are bridge paths.
pub open spec fn command_bridge(e: Option<CommandEntry>) -> Set<Seq<char>> {
    match e {
        Some(c) => str_views(c.related_files@).to_set().filter(
            |p: Seq<char>| spec_is_bridge_path(p),
        ).insert(c.entrypoint@),
        None => Set::empty(),
    }
}

/// The paths among the first `k` entries of a table whose words the task
/// mentions.
pub open spec fn mentioned_upto(
    table: Seq<(Seq<char>, Seq<Seq<char>>)>,
    task: Seq<char>,
    phrases: Seq<Seq<char>>,
    k: int,
) -> Set<Seq<char>> {
    Set::new(
        |p: Seq<char>|
            exists|i: int|
                0 <= i < k && i < table.len() && (#[trigger] table[i]).0 == p
                    && spec_task_mentions_any(task, phrases, table[i].1),
    )
}

/// The paths of a table whose words the task mentions.
pub open spec fn mentioned_paths(
    table: Seq<(Seq<char>, Seq<Seq<char>>)>,
    task: Seq<char>,
    phrases: Seq<Seq<char>>,
) -> Set<Seq<char>> {
    mentioned_upto(table, task, phrases, table.len() as int)
}

/// One more table entry adds its path exactly when the task mentions it.
proof fn lemma_mentioned_step(
    table: Seq<(Seq<char>, Seq<Seq<char>>)>,
    task: Seq<char>,
    phrases: Seq<Seq<char>>,
    k: int,
)
    requires
        0 <= k < table.len(),
    ensures
        mentioned_upto(table, task, phrases, k + 1) == if spec_task_mentions_any(
            task,
            phrases,
            table[k].1,
        ) {
            mentioned_upto(table, task, phrases, k).insert(table[k].0)
        } else {
            mentioned_upto(table, task, phrases, k)
        },
{
    let a = mentioned_upto(table, task, phrases, k + 1);
    let b = if spec_task_mentions_any(task, phrases, table[k].1) {
        mentioned_upto(table, task, phrases, k).insert(table[k].0)
    } else {
        mentioned_upto(table, task, phrases, k)
    };
    assert forall|p: Seq<char>| a.contains(p) <==> b.contains(p) by {
        if a.contains(p) {
            let i = choose|i: int|
                0 <= i < k + 1 && i < table.len() && (#[trigger] table[i]).0 == p
                    && spec_task_mentions_any(task, phrases, table[i].1);
            if i < k {
                assert(mentioned_upto(table, task, phrases, k).contains(p));
            }
        }
        if b.contains(p) {
            if mentioned_upto(table, task, phrases, k).contains(p) {
                let i = choose|i: int|
                    0 <= i < k && i < table.len() && (#[trigger] table[i]).0 == p
                        && spec_task_mentions_any(task, phrases, table[i].1);
                assert(0 <= i < k + 1 && table[i].0 == p);
            } else {
                assert(table[k].0 == p);
            }
        }
    }
    assert(a =~= b);
}

/// The CLI paths related to the primary area, if the map lists it.
pub open spec fn area_cli_paths(map: RepoMapView, primary: Option<Seq<char>>) -> Set<Seq<char>> {
    match primary {
        Some(id) => match find_area(map.areas@, id, 0) {
            Some(i) => str_views(map.areas@[i].related_cli_paths@).to_set(),
            None => Set::empty(),
        },
        None => Set::empty(),
    }
}

/// The paths a breadth adds to both the scoped and the bridge paths.
pub open spec fn scope_extra(
    scope: TaskScope,
    task: Seq<char>,
    phrases: Seq<Seq<char>>,
    area_cli: Set<Seq<char>>,
) -> Set<Seq<char>> {
    match scope {
        TaskScope::SingleArea => Set::empty(),
        TaskScope::AreaPlusBridge => set![cli_bridge_path()],
        TaskScope::CoreIntegration => mentioned_paths(core_integration_paths(), task, phrases).insert(
            cli_bridge_path(),
        ),
        TaskScope::CrossArea => mentioned_paths(core_integration_paths(), task, phrases).union(
            area_cli,
        ),
    }
}

/// The first `k` cross-area roots that the task mentions, in order.
pub open spec fn mentioned_roots(task: Seq<char>, phrases: Seq<Seq<char>>, k: int) -> Seq<
    Seq<char>,
>
    decreases k,
{
    if k <= 0 {
        Seq::empty()
    } else {
        let rest = mentioned_roots(task, phrases, k - 1);
        if spec_task_mentions_any(task, phrases, cross_area_roots()[k - 1].1) {
            rest.push(cross_area_roots()[k - 1].0)
        } else {
            rest
        }
    }
}

/// The cross-area roots a breadth adds.
pub open spec fn scope_roots(scope: TaskScope, task: Seq<char>, phrases: Seq<Seq<char>>) -> Seq<
    Seq<char>,
> {
    if scope == TaskScope::CrossArea {
        mentioned_roots(task, phrases, 3)
    } else {
        Seq::empty()
    }
}

/// Adds `p` to the scoped paths and, when `bridge`, to the bridge paths.
fn add_path(own: &mut ResolvedOwnership, p: &String, bridge: bool)
    requires
        old(own).well_formed(),
    ensures
        final(own).well_formed(),
        str_views(final(own).scoped_paths@).to_set() == str_views(old(own).scoped_paths@).to_set().insert(p@),
        str_views(final(own).bridge_paths@).to_set() == if bridge {
            str_views(old(own).bridge_paths@).to_set().insert(p@)
        } else {
            str_views(old(own).bridge_paths@).to_set()
        },
        final(own).primary_area == old(own).primary_area,
        final(own).matched_command == old(own).matched_command,
        final(own).task_scope == old(own).task_scope,
        final(own).cross_area_roots == old(own).cross_area_roots,
{
    insert_sorted(&mut own.scoped_paths, p.clone());
    if bridge {
        insert_sorted(&mut own.bridge_paths, p.clone());
    }
}

/// Adds every path of a table entry whose words the task mentions.
fn add_mentioned_core_paths(own: &mut ResolvedOwnership, task: &str, terms: &TaskTerms)
    requires
        old(own).well_formed(),
    ensures
        final(own).well_formed(),
        str_views(final(own).scoped_paths@).to_set() == str_views(old(own).scoped_paths@).to_set().union(
            mentioned_paths(core_integration_paths(), task@, str_views(terms.phrases@)),
        ),
        str_views(final(own).bridge_paths@).to_set() == str_views(old(own).bridge_paths@).to_set().union(
            mentioned_paths(core_integration_paths(), task@, str_views(terms.phrases@)),
        ),
        final(own).primary_area == old(own).primary_area,
        final(own).matched_command == old(own).matched_command,
        final(own).task_scope == old(own).task_scope,
        final(own).cross_area_roots == old(own).cross_area_roots,
{
    let ghost table = core_integration_paths();
    let ghost ph = str_views(terms.phrases@);
    let ghost s0 = str_views(own.scoped_paths@).to_set();
    let ghost b0 = str_views(own.bridge_paths@).to_set();
    let mut i: usize = 0;
    assert(mentioned_upto(table, task@, ph, 0) =~= Set::<Seq<char>>::empty());
    assert(s0.union(mentioned_upto(table, task@, ph, 0)) =~= s0);
    assert(b0.union(mentioned_upto(table, task@, ph, 0)) =~= b0);
    while i < 2
        invariant
            i <= 2,
            own.well_formed(),
            table == core_integration_paths(),
            ph == str_views(terms.phrases@),
            str_views(own.scoped_paths@).to_set() == s0.union(mentioned_upto(table, task@, ph, i as int)),
            str_views(own.bridge_paths@).to_set() == b0.union(mentioned_upto(table, task@, ph, i as int)),
            own.primary_area == old(own).primary_area,
            own.matched_command == old(own).matched_command,
            own.task_scope == old(own).task_scope,
            own.cross_area_roots == old(own).cross_area_roots,
        decreases 2 - i,
    {
        let (path, required) = core_integration_words(i);
        let hit = task_mentions_any(task, terms, &required);
        proof {
            lemma_mentioned_step(table, task@, ph, i as int);
        }
        if hit {
            let ps = path.to_owned();
            add_path(own, &ps, true);
        }
        i = i + 1;
    }

}

/// The index of the map's entry for the matched command.
fn find_command_exec(cmds: &Vec<CommandEntry>, matched: &Option<String>) -> (r: Option<usize>)
    ensures
        match matched {
            Some(m) => match r {
                Some(ri) => find_command(cmds@, m@, 0) == Some(ri as int) && ri < cmds@.len(),
                None => find_command(cmds@, m@, 0) is None,
            },
            None => r is None,
        },
{
    match matched {
        None => None,
        Some(m) => {
            let mut i: usize = 0;
            while i < cmds.len()
                invariant
                    i <= cmds@.len(),
                    find_command(cmds@, m@, 0) == find_command(cmds@, m@, i as int),
                    *matched == Some(*m),
                decreases cmds@.len() - i,
            {
                if crate::text::str_eq(cmds[i].command.as_str(), m.as_str()) {
                    assert(find_command(cmds@, m@, i as int) == Some(i as int));
                    return Some(i);
                }
                i = i + 1;
            }
            None
        },
    }
}

/// The index of the map's area with the primary area's id.
pub(crate) fn find_area_exec(areas: &Vec<AreaEntry>, primary: &Option<String>) -> (r: Option<usize>)
    ensures
        match primary {
            Some(id) => match r {
                Some(ri) => find_area(areas@, id@, 0) == Some(ri as int) && ri < areas@.len(),
                None => find_area(areas@, id@, 0) is None,
            },
            None => r is None,
        },
{
    match primary {
        None => None,
        Some(id) => {
            let mut i: usize = 0;
            while i < areas.len()
                invariant
                    i <= areas@.len(),
                    find_area(areas@, id@, 0) == find_area(areas@, id@, i as int),
                    *primary == Some(*id),
                decreases areas@.len() - i,
            {
                if crate::text::str_eq(areas[i].id.as_str(), id.as_str()) {
                    assert(find_area(areas@, id@, i as int) == Some(i as int));
                    return Some(i);
                }
                i = i + 1;
            }
            None
        },
    }
}

/// Brings the matched command's paths into scope.
fn add_command_paths(own: &mut ResolvedOwnership, map: &RepoMapView)
    requires
        old(own).well_formed(),
    ensures
        final(own).well_formed(),
        str_views(final(own).scoped_paths@).to_set() == str_views(old(own).scoped_paths@).to_set().union(
            command_scoped(
                matched_entry(
                    *map,
                    opt_view(old(own).matched_command),
                ),
            ),
        ),
        str_views(final(own).bridge_paths@).to_set() == str_views(old(own).bridge_paths@).to_set().union(
            command_bridge(
                matched_entry(
                    *map,
                    opt_view(old(own).matched_command),
                ),
            ),
        ),
        final(own).primary_area == old(own).primary_area,
        final(own).matched_command == old(own).matched_command,
        final(own).task_scope == old(own).task_scope,
        final(own).cross_area_roots == old(own).cross_area_roots,
{
    let ghost entry = matched_entry(
        *map,
        opt_view(own.matched_command),
    );
    let found = find_command_exec(&map.commands, &own.matched_command);
    let ci = match found {
        Some(ci) => ci,
        None => {
            assert(command_scoped(entry) =~= Set::<Seq<char>>::empty());
            assert(command_bridge(entry) =~= Set::<Seq<char>>::empty());
            assert(str_views(own.scoped_paths@).to_set().union(Set::empty()) =~= str_views(
                own.scoped_paths@,
            ).to_set());
            assert(str_views(own.bridge_paths@).to_set().union(Set::empty()) =~= str_views(
                own.bridge_paths@,
            ).to_set());
            return;
        },
    };
    let c = &map.commands[ci];
    assert(entry == Some(*c));
    let ghost s0 = str_views(own.scoped_paths@).to_set();
    let ghost b0 = str_views(own.bridge_paths@).to_set();
    let ghost rel = str_views(c.related_files@);
    let primary = own.primary_area.clone();
    add_path(own, &c.entrypoint, true);
    let mut j: usize = 0;
    assert(rel.take(0).to_set() =~= Set::<Seq<char>>::empty());
    assert(s0.insert(c.entrypoint@).union(rel.take(0).to_set()) =~= s0.insert(c.entrypoint@));
    assert(b0.insert(c.entrypoint@).union(
        rel.take(0).to_set().filter(|p: Seq<char>| spec_is_bridge_path(p)),
    ) =~= b0.insert(c.entrypoint@));
    while j < c.related_files.len()
        invariant
            j <= c.related_files@.len(),
            own.well_formed(),
            rel == str_views(c.related_files@),
            str_views(own.scoped_paths@).to_set() == s0.insert(c.entrypoint@).union(
                rel.take(j as int).to_set(),
            ),
            str_views(own.bridge_paths@).to_set() == b0.insert(c.entrypoint@).union(
                rel.take(j as int).to_set().filter(|p: Seq<char>| spec_is_bridge_path(p)),
            ),
            own.primary_area == old(own).primary_area,
            own.matched_command == old(own).matched_command,
            own.task_scope == old(own).task_scope,
            own.cross_area_roots == old(own).cross_area_roots,
        decreases c.related_files@.len() - j,
    {
        let p = &c.related_files[j];
        let area: Option<&str> = match &primary {
            Some(a) => Some(a.as_str()),
            None => None,
        };
        let bridge = is_bridge_path(p.as_str(), area);
        add_path(own, p, bridge);
        assert(rel.take(j + 1).to_set() =~= rel.take(j as int).to_set().insert(p@)) by {
            assert(rel.take(j + 1) =~= rel.take(j as int).push(p@));
            rel.take(j as int).lemma_push_to_set_commute(p@);
        }
        proof {
            lemma_bridge_filter_insert(rel.take(j as int).to_set(), p@);
        }
        j = j + 1;
    }
    assert(rel.take(rel.len() as int) =~= rel);
    assert(command_scoped(entry) == rel.to_set().insert(c.entrypoint@));
    assert(s0.union(command_scoped(entry)) =~= s0.insert(c.entrypoint@).union(rel.to_set()));
    assert(b0.union(command_bridge(entry)) =~= b0.insert(c.entrypoint@).union(
        rel.to_set().filter(|p: Seq<char>| spec_is_bridge_path(p)),
    ));
}

/// Filtering a set with one more member.
proof fn lemma_bridge_filter_insert(s: Set<Seq<char>>, x: Seq<char>)
    ensures
        s.insert(x).filter(|p: Seq<char>| spec_is_bridge_path(p)) == if spec_is_bridge_path(x) {
            s.filter(|p: Seq<char>| spec_is_bridge_path(p)).insert(x)
        } else {
            s.filter(|p: Seq<char>| spec_is_bridge_path(p))
        },
{
    assert(s.insert(x).filter(|p: Seq<char>| spec_is_bridge_path(p)) =~= if spec_is_bridge_path(x) {
        s.filter(|p: Seq<char>| spec_is_bridge_path(p)).insert(x)
    } else {
        s.filter(|p: Seq<char>| spec_is_bridge_path(p))
    });
}

/// Brings the paths and roots of the breadth into scope.
fn add_scope_paths(
    own: &mut ResolvedOwnership,
    scope: TaskScope,
    task: &str,
    terms: &TaskTerms,
    map: &RepoMapView,
)
    requires
        old(own).well_formed(),
    ensures
        final(own).well_formed(),
        str_views(final(own).scoped_paths@).to_set() == str_views(old(own).scoped_paths@).to_set().union(
            scope_extra(
                scope,
                task@,
                str_views(terms.phrases@),
                area_cli_paths(
                    *map,
                    opt_view(old(own).primary_area),
                ),
            ),
        ),
        str_views(final(own).bridge_paths@).to_set() == str_views(old(own).bridge_paths@).to_set().union(
            scope_extra(
                scope,
                task@,
                str_views(terms.phrases@),
                area_cli_paths(
                    *map,
                    opt_view(old(own).primary_area),
                ),
            ),
        ),
        str_views(final(own).cross_area_roots@) == str_views(old(own).cross_area_roots@)
            + scope_roots(scope, task@, str_views(terms.phrases@)),
        final(own).primary_area == old(own).primary_area,
        final(own).matched_command == old(own).matched_command,
        final(own).task_scope == old(own).task_scope,
{
    let ghost s0 = str_views(own.scoped_paths@).to_set();
    let ghost b0 = str_views(own.bridge_paths@).to_set();
    let ghost r0 = str_views(own.cross_area_roots@);
    let ghost ph = str_views(terms.phrases@);
    let ghost area_cli = area_cli_paths(
        *map,
        opt_view(own.primary_area),
    );
    let ghost mentioned = mentioned_paths(core_integration_paths(), task@, ph);
    let cli = "cli/src/context_cmd.rs".to_owned();
    match scope {
        TaskScope::SingleArea => {
            assert(s0.union(Set::empty()) =~= s0);
            assert(b0.union(Set::empty()) =~= b0);
            assert(r0 + Seq::<Seq<char>>::empty() =~= r0);
        },
        TaskScope::AreaPlusBridge => {
            add_path(own, &cli, true);
            assert(s0.union(set![cli@]) =~= s0.insert(cli@));
            assert(b0.union(set![cli@]) =~= b0.insert(cli@));
            assert(r0 + Seq::<Seq<char>>::empty() =~= r0);
        },
        TaskScope::CoreIntegration => {
            add_path(own, &cli, true);
            add_mentioned_core_paths(own, task, terms);
            assert(s0.insert(cli@).union(mentioned) =~= s0.union(mentioned.insert(cli@)));
            assert(b0.insert(cli@).union(mentioned) =~= b0.union(mentioned.insert(cli@)));
            assert(r0 + Seq::<Seq<char>>::empty() =~= r0);
        },
        TaskScope::CrossArea => {
            let mut k: usize = 0;
            while k < 3
                invariant
                    k <= 3,
                    own.well_formed(),
                    str_views(own.scoped_paths@).to_set() == s0,
                    str_views(own.bridge_paths@).to_set() == b0,
                    str_views(own.cross_area_roots@) == r0 + mentioned_roots(task@, ph, k as int),
                    ph == str_views(terms.phrases@),
                    own.primary_area == old(own).primary_area,
                    own.matched_command == old(own).matched_command,
                    own.task_scope == old(own).task_scope,
                decreases 3 - k,
            {
                let (root, required) = cross_area_words(k);
                if task_mentions_any(task, terms, &required) {
                    let ghost before = str_views(own.cross_area_roots@);
                    own.cross_area_roots.push(root.to_owned());
                    assert(str_views(own.cross_area_roots@) =~= before.push(root@));
                }
                k = k + 1;
            }
            add_mentioned_core_paths(own, task, terms);
            let ghost s1 = str_views(own.scoped_paths@).to_set();
            let ghost b1 = str_views(own.bridge_paths@).to_set();
            let primary = own.primary_area.clone();
            let found = find_area_exec(&map.areas, &primary);
            match found {
                None => {
                    assert(area_cli =~= Set::<Seq<char>>::empty());
                    assert(s0.union(mentioned.union(area_cli)) =~= s1);
                    assert(b0.union(mentioned.union(area_cli)) =~= b1);
                },
                Some(ai) => {
                    let paths = &map.areas[ai].related_cli_paths;
                    let ghost rel = str_views(paths@);
                    assert(area_cli == rel.to_set());
                    let mut j: usize = 0;
                    assert(rel.take(0).to_set() =~= Set::<Seq<char>>::empty());
                    assert(s1.union(rel.take(0).to_set()) =~= s1);
                    assert(b1.union(rel.take(0).to_set()) =~= b1);
                    while j < paths.len()
                        invariant
                            j <= paths@.len(),
                            own.well_formed(),
                            rel == str_views(paths@),
                            str_views(own.scoped_paths@).to_set() == s1.union(
                                rel.take(j as int).to_set(),
                            ),
                            str_views(own.bridge_paths@).to_set() == b1.union(
                                rel.take(j as int).to_set(),
                            ),
                            own.primary_area == old(own).primary_area,
                            own.matched_command == old(own).matched_command,
                            own.task_scope == old(own).task_scope,
                            str_views(own.cross_area_roots@) == r0 + mentioned_roots(task@, ph, 3),
                        decreases paths@.len() - j,
                    {
                        add_path(own, &paths[j], true);
                        assert(rel.take(j + 1).to_set() =~= rel.take(j as int).to_set().insert(
                            paths@[j as int]@,
                        )) by {
                            assert(rel.take(j + 1) =~= rel.take(j as int).push(paths@[j as int]@));
                            rel.take(j as int).lemma_push_to_set_commute(paths@[j as int]@);
                        }
                        j = j + 1;
                    }
                    assert(rel.take(rel.len() as int) =~= rel);
                    assert(s0.union(mentioned.union(area_cli)) =~= s0.union(mentioned).union(
                        rel.to_set(),
                    ));
                    assert(b0.union(mentioned.union(area_cli)) =~= b0.union(mentioned).union(
                        rel.to_set(),
                    ));
                },
            }
        },
    }
}

/// Records the breadth of a task and brings its paths into scope.  The
/// bridge paths start over: the matched command's entrypoint and its
/// related files enter the scope (its entrypoint and related bridge files
/// also the bridge set); then area plus bridge adds the CLI bridge file;
/// core integration adds it and the core files the task mentions; cross
/// area records the roots the task mentions and adds the core files it
/// mentions and the CLI files of the primary area.
pub fn extend_scoped_paths_for_scope(
    scope: TaskScope,
    task: &str,
    terms: &TaskTerms,
    ownership: &mut ResolvedOwnership,
    map: &RepoMapView,
)
    requires
        old(ownership).well_formed(),
    ensures
        final(ownership).well_formed(),
        final(ownership).task_scope == scope,
        final(ownership).primary_area == old(ownership).primary_area,
        final(ownership).matched_command == old(ownership).matched_command,
        str_views(final(ownership).scoped_paths@).to_set() == str_views(
            old(ownership).scoped_paths@,
        ).to_set().union(
            command_scoped(
                matched_entry(
                    *map,
                    opt_view(old(ownership).matched_command),
                ),
            ),
        ).union(
            scope_extra(
                scope,
                task@,
                str_views(terms.phrases@),
                area_cli_paths(
                    *map,
                    opt_view(old(ownership).primary_area),
                ),
            ),
        ),
        str_views(final(ownership).bridge_paths@).to_set() == command_bridge(
            matched_entry(
                *map,
                opt_view(old(ownership).matched_command),
            ),
        ).union(
            scope_extra(
                scope,
                task@,
                str_views(terms.phrases@),
                area_cli_paths(
                    *map,
                    opt_view(old(ownership).primary_area),
                ),
            ),
        ),
        str_views(final(ownership).cross_area_roots@) == str_views(old(ownership).cross_area_roots@)
            + scope_roots(scope, task@, str_views(terms.phrases@)),
{
    ownership.task_scope = scope;
    ownership.bridge_paths = Vec::new();
    assert(str_views(ownership.bridge_paths@) =~= Seq::<Seq<char>>::empty());
    assert(str_views(ownership.bridge_paths@).to_set() =~= Set::<Seq<char>>::empty());
    add_command_paths(ownership, map);
    add_scope_paths(ownership, scope, task, terms, map);
    let ghost cmd = command_scoped(
        matched_entry(
            *map,
            opt_view(old(ownership).matched_command),
        ),
    );
    let ghost cb = command_bridge(
        matched_entry(
            *map,
            opt_view(old(ownership).matched_command),
        ),
    );
    assert(Set::<Seq<char>>::empty().union(cb) =~= cb);
}

} // verus!
