use context_harness::harness::packet::{ContextItemKind, ContextItemState, RenderLevel};
use context_harness::harness::render_level::{assign_render_levels, LevelItem};
use context_harness::harness::task_scope::{
    extend_scoped_paths_for_scope, AreaEntry, CommandEntry, ResolvedOwnership, RepoMapView, TaskScope,
};
use context_harness::harness::task_terms::{assemble_task_terms, task_term_parts, TaskTerms};

fn terms_of(task: &str) -> TaskTerms {
    assemble_task_terms(task_term_parts(task), Vec::new())
}

fn owner(primary: Option<&str>, matched: Option<&str>) -> ResolvedOwnership {
    ResolvedOwnership {
        primary_area: primary.map(str::to_string),
        matched_command: matched.map(str::to_string),
        scoped_paths: vec!["context-harness/src/lib.rs".to_string()],
        task_scope: TaskScope::SingleArea,
        bridge_paths: vec!["stale/bridge.rs".to_string()],
        cross_area_roots: Vec::new(),
    }
}

fn map() -> RepoMapView {
    RepoMapView {
        commands: vec![CommandEntry {
            command: "context eval".to_string(),
            entrypoint: "cli/src/context_cmd.rs".to_string(),
            related_files: vec![
                "context-harness/src/eval.rs".to_string(),
                "cli/src/main.rs".to_string(),
            ],
            implementation_area: "context-harness".to_string(),
        }],
        areas: vec![AreaEntry {
            id: "repo-intelligence".to_string(),
            owned_files: Vec::new(),
            root_paths: Vec::new(),
            negative_paths: Vec::new(),
            related_cli_paths: vec!["cli/src/repo_cmd.rs".to_string()],
        }],
    }
}

#[test]
fn matched_command_brings_entrypoint_and_related_files_into_scope() {
    let task = "fix the context eval command";
    let mut own = owner(Some("context-harness"), Some("context eval"));
    extend_scoped_paths_for_scope(TaskScope::SingleArea, task, &terms_of(task), &mut own, &map());
    assert_eq!(own.task_scope, TaskScope::SingleArea);
    assert_eq!(
        own.scoped_paths,
        vec![
            "cli/src/context_cmd.rs".to_string(),
            "cli/src/main.rs".to_string(),
            "context-harness/src/eval.rs".to_string(),
            "context-harness/src/lib.rs".to_string(),
        ]
    );
    assert_eq!(
        own.bridge_paths,
        vec!["cli/src/context_cmd.rs".to_string(), "cli/src/main.rs".to_string()],
        "bridge paths start over and keep only bridge files"
    );
}

#[test]
fn area_plus_bridge_adds_the_cli_bridge_file() {
    let task = "add a flag";
    let mut own = owner(Some("context-harness"), None);
    extend_scoped_paths_for_scope(TaskScope::AreaPlusBridge, task, &terms_of(task), &mut own, &map());
    assert_eq!(own.bridge_paths, vec!["cli/src/context_cmd.rs".to_string()]);
    assert!(own.scoped_paths.contains(&"cli/src/context_cmd.rs".to_string()));
    assert!(own.cross_area_roots.is_empty());
}

#[test]
fn core_integration_adds_the_core_files_the_task_mentions() {
    let task = "make context diff-prompt self-contained";
    let mut own = owner(Some("context-harness"), None);
    extend_scoped_paths_for_scope(TaskScope::CoreIntegration, task, &terms_of(task), &mut own, &map());
    assert_eq!(
        own.bridge_paths,
        vec![
            "cli/src/context_cmd.rs".to_string(),
            "core/src/prompt_debug.rs".to_string(),
            "core/src/session/mod.rs".to_string(),
        ]
    );
}

#[test]
fn cross_area_records_roots_and_primary_area_cli_paths() {
    let task = "wire repo intelligence extension into session prompt assembly";
    let mut own = owner(Some("repo-intelligence"), None);
    extend_scoped_paths_for_scope(TaskScope::CrossArea, task, &terms_of(task), &mut own, &map());
    assert_eq!(
        own.cross_area_roots,
        vec![
            "ext/repo-intelligence/".to_string(),
            "app-server/".to_string(),
            "core/".to_string(),
        ]
    );
    assert_eq!(
        own.bridge_paths,
        vec![
            "cli/src/repo_cmd.rs".to_string(),
            "core/src/prompt_debug.rs".to_string(),
            "core/src/session/mod.rs".to_string(),
        ]
    );
    assert!(!own.bridge_paths.contains(&"cli/src/context_cmd.rs".to_string()));
}

fn item(state: ContextItemState, kind: ContextItemKind, path: Option<&str>) -> LevelItem {
    LevelItem { state, kind, path: path.map(str::to_string), render_level: RenderLevel::Full }
}

#[test]
fn render_levels_fill_full_then_compact_then_path_only() {
    let items = vec![
        item(ContextItemState::Included, ContextItemKind::FileSummary, Some("a.rs")),
        item(ContextItemState::Included, ContextItemKind::FileSummary, Some("b.rs")),
        item(ContextItemState::Pinned, ContextItemKind::RepoRule, Some("c.rs")),
        item(ContextItemState::Included, ContextItemKind::FileSummary, Some("d.rs")),
        item(ContextItemState::Dropped, ContextItemKind::FileSummary, Some("e.rs")),
        item(ContextItemState::Included, ContextItemKind::TestFile, Some("t.rs")),
    ];
    let own = owner(Some("x"), None);
    let levels = assign_render_levels(&items, &vec![3, 1, 0, 2, 4, 5], &own, 1, 2);
    assert_eq!(
        levels,
        vec![
            RenderLevel::Compact,
            RenderLevel::Compact,
            RenderLevel::PathOnly,
            RenderLevel::Full,
            RenderLevel::HiddenDebugOnly,
            RenderLevel::Full,
        ]
    );
}

#[test]
fn bridge_files_take_their_role_level_without_using_a_slot() {
    let items = vec![
        item(ContextItemState::Included, ContextItemKind::FileSummary, Some("cli/src/context_cmd.rs")),
        item(ContextItemState::Included, ContextItemKind::FileSummary, Some("core/src/x.rs")),
        item(ContextItemState::Included, ContextItemKind::FileSummary, Some("a.rs")),
    ];
    let mut own = owner(Some("x"), Some("context eval"));
    own.bridge_paths = vec!["core/src/x.rs".to_string()];
    let levels = assign_render_levels(&items, &vec![0, 1, 2], &own, 1, 0);
    assert_eq!(
        levels,
        vec![RenderLevel::Compact, RenderLevel::PathOnly, RenderLevel::Full]
    );
}
