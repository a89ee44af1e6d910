//! Which area owns a task, which paths are in its scope, and whether a file
//! may be selected for it.
use vstd::prelude::*;

use crate::harness::agent_eval::opt_view;
use crate::harness::task_scope::{
    area_cli_paths, command_bridge, command_scoped, extend_scoped_paths_for_scope, find_area,
    find_area_exec, infer_task_scope, is_bridge_path, is_core_integration_path, matched_entry,
    scope_extra, scope_roots, spec_infer_task_scope, spec_is_bridge_path,
    spec_is_core_integration_path, AreaEntry, CommandEntry, RepoMapView, ResolvedOwnership,
    TaskScope,
};
use crate::harness::task_terms::TaskTerms;
use crate::sorted::{insert_all_sorted, insert_sorted, member, sorted_set_of, strictly_sorted};
use crate::text::{ends_with, starts_with, str_ends_with, str_starts_with, str_views};

verus! {

/// A build manifest: `Cargo.toml`, `BUILD.bazel` or `package.json`.
pub open spec fn spec_is_build_manifest(path: Seq<char>) -> bool {
    ends_with(path, "Cargo.toml"@) || ends_with(path, "BUILD.bazel"@) || ends_with(
        path,
        "package.json"@,
    )
}

/// Whether the path is a build manifest.
pub fn is_build_manifest(path: &str) -> (r: bool)
    ensures
        r == spec_is_build_manifest(path@),
{
    str_ends_with(path, "Cargo.toml") || str_ends_with(path, "BUILD.bazel") || str_ends_with(
        path,
        "package.json",
    )
}

/// Whether the path starts with one of the prefixes.
pub open spec fn starts_with_any(path: Seq<char>, prefixes: Seq<Seq<char>>) -> bool {
    exists|i: int| 0 <= i < prefixes.len() && starts_with(path, #[trigger] prefixes[i])
}

/// Whether the path starts with one of the prefixes.
fn starts_with_any_exec(path: &str, prefixes: &Vec<String>) -> (r: bool)
    ensures
        r == starts_with_any(path@, str_views(prefixes@)),
{
    let ghost pv = str_views(prefixes@);
    let mut i: usize = 0;
    while i < prefixes.len()
        invariant
            i <= prefixes@.len(),
            pv == str_views(prefixes@),
            forall|j: int| 0 <= j < i ==> !starts_with(path@, #[trigger] pv[j]),
        decreases prefixes@.len() - i,
    {
        if str_starts_with(path, prefixes[i].as_str()) {
            assert(starts_with(path@, pv[i as int]));
            return true;
        }
        i = i + 1;
    }
    false
}

/// Whether the path lies under one of the area's negative prefixes.
pub fn path_in_negative_area(path: &str, area: &AreaEntry) -> (r: bool)
    ensures
        r == starts_with_any(path@, str_views(area.negative_paths@)),
{
    starts_with_any_exec(path, &area.negative_paths)
}

/// A file of the area's scope: not a build manifest, and either a scoped
/// path or under one of the area's roots.
pub open spec fn spec_file_in_area_scope(
    path: Seq<char>,
    area: AreaEntry,
    scoped: Set<Seq<char>>,
) -> bool {
    !spec_is_build_manifest(path) && (scoped.contains(path) || starts_with_any(
        path,
        str_views(area.root_paths@),
    ))
}

/// Whether the file is in the area's scope.
pub fn file_in_area_scope(path: &str, area: &AreaEntry, scoped_paths: &Vec<String>) -> (r: bool)
    ensures
        r == spec_file_in_area_scope(path@, *area, str_views(scoped_paths@).to_set()),
{
    if is_build_manifest(path) {
        return false;
    }
    if member(scoped_paths, path) {
        return true;
    }
    starts_with_any_exec(path, &area.root_paths)
}

/// Whether a file may be selected: in the primary area's scope, a scoped
/// path, or reached by the task's breadth (bridge files for area plus
/// bridge; also the core files the task mentions for core integration;
/// bridge paths, cross-area roots and mentioned core files for cross area).
pub open spec fn spec_file_in_selection_scope(
    path: Seq<char>,
    area: Option<AreaEntry>,
    own: ResolvedOwnership,
    phrases: Seq<Seq<char>>,
    task: Seq<char>,
) -> bool {
    let scoped = str_views(own.scoped_paths@).to_set();
    let bridge = str_views(own.bridge_paths@).to_set();
    (area matches Some(a) && spec_file_in_area_scope(path, a, scoped)) || scoped.contains(path)
        || match own.task_scope {
        TaskScope::SingleArea => false,
        TaskScope::AreaPlusBridge => bridge.contains(path) || spec_is_bridge_path(path),
        TaskScope::CoreIntegration => bridge.contains(path) || spec_is_bridge_path(path)
            || spec_is_core_integration_path(path, phrases, task),
        TaskScope::CrossArea => bridge.contains(path) || starts_with_any(
            path,
            str_views(own.cross_area_roots@),
        ) || spec_is_core_integration_path(path, phrases, task),
    }
}

/// Whether a file may be selected for the task.
pub fn file_in_selection_scope(
    path: &str,
    area: Option<&AreaEntry>,
    ownership: &ResolvedOwnership,
    terms: &TaskTerms,
    task: &str,
) -> (r: bool)
    ensures
        r == spec_file_in_selection_scope(
            path@,
            match area {
                Some(a) => Some(*a),
                None => None,
            },
            *ownership,
            str_views(terms.phrases@),
            task@,
        ),
{
    let in_area = match area {
        Some(a) => file_in_area_scope(path, a, &ownership.scoped_paths),
        None => false,
    };
    if in_area {
        return true;
    }
    if member(&ownership.scoped_paths, path) {
        return true;
    }
    let primary: Option<&str> = match &ownership.primary_area {
        Some(a) => Some(a.as_str()),
        None => None,
    };
    match ownership.task_scope {
        TaskScope::SingleArea => false,
        TaskScope::AreaPlusBridge => member(&ownership.bridge_paths, path) || is_bridge_path(
            path,
            primary,
        ),
        TaskScope::CoreIntegration => member(&ownership.bridge_paths, path) || is_bridge_path(
            path,
            primary,
        ) || is_core_integration_path(path, terms, task),
        TaskScope::CrossArea => member(&ownership.bridge_paths, path) || starts_with_any_exec(
            path,
            &ownership.cross_area_roots,
        ) || is_core_integration_path(path, terms, task),
    }
}

/// The files an area brings into scope: those it owns and its related CLI
/// files.
pub open spec fn area_scope(map: RepoMapView, primary: Option<Seq<char>>) -> Set<Seq<char>> {
    match primary {
        Some(id) => match find_area(map.areas@, id, 0) {
            Some(i) => str_views(map.areas@[i].owned_files@).to_set().union(
                str_views(map.areas@[i].related_cli_paths@).to_set(),
            ),
            None => Set::empty(),
        },
        None => Set::empty(),
    }
}

/// Adds an area's owned files and related CLI files to the scoped paths.
fn extend_area_scope(area: &AreaEntry, scoped_paths: &mut Vec<String>)
    requires
        strictly_sorted(str_views(old(scoped_paths)@)),
    ensures
        sorted_set_of(
            str_views(final(scoped_paths)@),
            str_views(old(scoped_paths)@).to_set().union(
                str_views(area.owned_files@).to_set(),
            ).union(str_views(area.related_cli_paths@).to_set()),
        ),
{
    insert_all_sorted(scoped_paths, &area.owned_files);
    insert_all_sorted(scoped_paths, &area.related_cli_paths);
}

/// The primary area: the matched command's implementing area, else the
/// area the map points to, else the task's most likely area.
pub open spec fn spec_primary_area(
    command: Option<CommandEntry>,
    inferred: Option<Seq<char>>,
    likely: Seq<Seq<char>>,
) -> Option<Seq<char>> {
    match command {
        Some(c) => Some(c.implementation_area@),
        None => match inferred {
            Some(a) => Some(a),
            None => if likely.len() > 0 {
                Some(likely[0])
            } else {
                None
            },
        },
    }
}

/// The scoped paths of a resolved ownership: the matched command's files,
/// the primary area's files, and what the task's breadth brings.
pub open spec fn resolved_scoped(
    task: Seq<char>,
    phrases: Seq<Seq<char>>,
    command: Option<CommandEntry>,
    primary: Option<Seq<char>>,
    map: RepoMapView,
) -> Set<Seq<char>> {
    let matched = match command {
        Some(c) => Some(c.command@),
        None => None,
    };
    let scope = spec_infer_task_scope(task, phrases, command is Some);
    command_scoped(command).union(area_scope(map, primary)).union(
        command_scoped(matched_entry(map, matched)),
    ).union(scope_extra(scope, task, phrases, area_cli_paths(map, primary)))
}

/// The bridge paths of a resolved ownership.
pub open spec fn resolved_bridge(
    task: Seq<char>,
    phrases: Seq<Seq<char>>,
    command: Option<CommandEntry>,
    primary: Option<Seq<char>>,
    map: RepoMapView,
) -> Set<Seq<char>> {
    let matched = match command {
        Some(c) => Some(c.command@),
        None => None,
    };
    let scope = spec_infer_task_scope(task, phrases, command is Some);
    command_bridge(matched_entry(map, matched)).union(
        scope_extra(scope, task, phrases, area_cli_paths(map, primary)),
    )
}

/// Resolves who owns a task.  `command` is the map's command that the task
/// names (as the repository index matches it), `inferred_area` the area the
/// map's scoring points to; both come from the caller.
pub fn resolve_ownership(
    task: &str,
    terms: &TaskTerms,
    command: Option<&CommandEntry>,
    inferred_area: Option<String>,
    map: &RepoMapView,
) -> (r: ResolvedOwnership)
    ensures
        r.well_formed(),
        opt_view(r.matched_command) == match command {
            Some(c) => Some(c.command@),
            None => None,
        },
        opt_view(r.primary_area) == spec_primary_area(
            match command {
                Some(c) => Some(*c),
                None => None,
            },
            opt_view(inferred_area),
            str_views(terms.likely_areas@),
        ),
        r.task_scope == spec_infer_task_scope(task@, str_views(terms.phrases@), command is Some),
        str_views(r.scoped_paths@).to_set() == resolved_scoped(
            task@,
            str_views(terms.phrases@),
            match command {
                Some(c) => Some(*c),
                None => None,
            },
            opt_view(r.primary_area),
            *map,
        ),
        str_views(r.bridge_paths@).to_set() == resolved_bridge(
            task@,
            str_views(terms.phrases@),
            match command {
                Some(c) => Some(*c),
                None => None,
            },
            opt_view(r.primary_area),
            *map,
        ),
        str_views(r.cross_area_roots@) == scope_roots(
            r.task_scope,
            task@,
            str_views(terms.phrases@),
        ),
{
    let ghost cmd = match command {
        Some(c) => Some(*c),
        None => None::<CommandEntry>,
    };
    let mut scoped: Vec<String> = Vec::new();
    assert(str_views(scoped@) =~= Seq::<Seq<char>>::empty());
    let matched_command = match command {
        Some(c) => {
            insert_sorted(&mut scoped, c.entrypoint.clone());
            insert_all_sorted(&mut scoped, &c.related_files);
            assert(Set::<Seq<char>>::empty().insert(c.entrypoint@).union(
                str_views(c.related_files@).to_set(),
            ) =~= command_scoped(cmd));
            Some(c.command.clone())
        },
        None => {
            assert(str_views(scoped@).to_set() =~= command_scoped(cmd));
            None
        },
    };
    let primary_area: Option<String> = match command {
        Some(c) => Some(c.implementation_area.clone()),
        None => match inferred_area {
            Some(a) => Some(a),
            None => if terms.likely_areas.len() > 0 {
                Some(terms.likely_areas[0].clone())
            } else {
                None
            },
        },
    };
    let ghost s1 = str_views(scoped@).to_set();
    let ghost primary = opt_view(primary_area);
    match find_area_exec(&map.areas, &primary_area) {
        Some(ai) => {
            extend_area_scope(&map.areas[ai], &mut scoped);
            assert(s1.union(str_views(map.areas@[ai as int].owned_files@).to_set()).union(
                str_views(map.areas@[ai as int].related_cli_paths@).to_set(),
            ) =~= s1.union(area_scope(*map, primary)));
        },
        None => {
            assert(area_scope(*map, primary) =~= Set::<Seq<char>>::empty());
            assert(s1.union(area_scope(*map, primary)) =~= s1);
        },
    }
    let mut ownership = ResolvedOwnership {
        primary_area,
        matched_command,
        scoped_paths: scoped,
        task_scope: TaskScope::SingleArea,
        bridge_paths: Vec::new(),
        cross_area_roots: Vec::new(),
    };
    assert(str_views(ownership.bridge_paths@) =~= Seq::<Seq<char>>::empty());
    assert(str_views(ownership.cross_area_roots@) =~= Seq::<Seq<char>>::empty());
    let scope = infer_task_scope(task, terms, &ownership);
    extend_scoped_paths_for_scope(scope, task, terms, &mut ownership, map);
    assert(Seq::<Seq<char>>::empty() + scope_roots(scope, task@, str_views(terms.phrases@))
        =~= scope_roots(scope, task@, str_views(terms.phrases@)));
    ownership
}

} // verus!
