use context_harness::harness::ownership::{
    file_in_area_scope, file_in_selection_scope, is_build_manifest, path_in_negative_area,
    resolve_ownership,
};
use context_harness::harness::prompt_visibility::{
    model_prompt_contains_harness_context, user_message_texts, ContentPart, PromptItem,
};
use context_harness::harness::task_scope::{
    AreaEntry, CommandEntry, RepoMapView, ResolvedOwnership, TaskScope,
};
use context_harness::harness::task_terms::{assemble_task_terms, task_term_parts, TaskTerms};
use context_harness::harness::test_select::{
    default_test_command, is_snapshot_only_test, task_wants_fixture_tests,
    test_path_aligns_eval_fixture, test_references_source, TestLink,
};

fn terms_of(task: &str) -> TaskTerms {
    assemble_task_terms(task_term_parts(task), Vec::new())
}

fn area() -> AreaEntry {
    AreaEntry {
        id: "context-harness".to_string(),
        owned_files: vec!["context-harness/src/lib.rs".to_string()],
        root_paths: vec!["context-harness/".to_string()],
        negative_paths: vec!["context-harness/tests/fixtures/".to_string()],
        related_cli_paths: vec!["cli/src/context_cmd.rs".to_string()],
    }
}

fn map() -> RepoMapView {
    RepoMapView {
        commands: vec![CommandEntry {
            command: "context eval".to_string(),
            entrypoint: "cli/src/context_cmd.rs".to_string(),
            related_files: vec!["context-harness/src/eval.rs".to_string()],
            implementation_area: "context-harness".to_string(),
        }],
        areas: vec![area()],
    }
}

#[test]
fn manifests_are_never_in_area_scope() {
    assert!(is_build_manifest("context-harness/Cargo.toml"));
    assert!(is_build_manifest("web/package.json"));
    assert!(!is_build_manifest("context-harness/src/lib.rs"));
    assert!(!file_in_area_scope("context-harness/Cargo.toml", &area(), &Vec::new()));
    assert!(file_in_area_scope("context-harness/src/eval.rs", &area(), &Vec::new()));
    assert!(file_in_area_scope("cli/src/x.rs", &area(), &vec!["cli/src/x.rs".to_string()]));
    assert!(!file_in_area_scope("core/src/lib.rs", &area(), &Vec::new()));
}

#[test]
fn negative_area_paths_are_recognised_by_prefix() {
    assert!(path_in_negative_area("context-harness/tests/fixtures/a.json", &area()));
    assert!(!path_in_negative_area("context-harness/tests/eval.rs", &area()));
}

#[test]
fn resolve_ownership_uses_the_matched_command_area_and_scope() {
    let task = "fix the context eval command output";
    let terms = terms_of(task);
    let command = map().commands[0].clone();
    let own = resolve_ownership(task, &terms, Some(&command), Some("elsewhere".to_string()), &map());
    assert_eq!(own.matched_command.as_deref(), Some("context eval"));
    assert_eq!(own.primary_area.as_deref(), Some("context-harness"));
    assert_eq!(own.task_scope, TaskScope::AreaPlusBridge);
    assert_eq!(
        own.scoped_paths,
        vec![
            "cli/src/context_cmd.rs".to_string(),
            "context-harness/src/eval.rs".to_string(),
            "context-harness/src/lib.rs".to_string(),
        ]
    );
    assert_eq!(own.bridge_paths, vec!["cli/src/context_cmd.rs".to_string()]);
}

#[test]
fn resolve_ownership_falls_back_to_inferred_then_likely_area() {
    let task = "tidy up the ranking";
    let terms = terms_of(task);
    let own = resolve_ownership(task, &terms, None, Some("context-harness".to_string()), &map());
    assert_eq!(own.primary_area.as_deref(), Some("context-harness"));
    assert_eq!(own.matched_command, None);
    assert_eq!(own.task_scope, TaskScope::SingleArea);
    assert!(own.bridge_paths.is_empty());
    let none = resolve_ownership(task, &terms, None, None, &map());
    assert_eq!(none.primary_area, terms.likely_areas.first().cloned());
}

#[test]
fn selection_scope_follows_the_task_breadth() {
    let task = "make context diff-prompt self-contained";
    let terms = terms_of(task);
    let mut own = ResolvedOwnership {
        primary_area: Some("context-harness".to_string()),
        matched_command: None,
        scoped_paths: vec!["scripts/run.sh".to_string()],
        task_scope: TaskScope::SingleArea,
        bridge_paths: Vec::new(),
        cross_area_roots: vec!["app-server/".to_string()],
    };
    assert!(file_in_selection_scope("context-harness/src/a.rs", Some(&area()), &own, &terms, task));
    assert!(file_in_selection_scope("scripts/run.sh", None, &own, &terms, task));
    assert!(!file_in_selection_scope("cli/src/main.rs", None, &own, &terms, task));
    own.task_scope = TaskScope::AreaPlusBridge;
    assert!(file_in_selection_scope("cli/src/main.rs", None, &own, &terms, task));
    assert!(!file_in_selection_scope("core/src/prompt_debug.rs", None, &own, &terms, task));
    own.task_scope = TaskScope::CoreIntegration;
    assert!(file_in_selection_scope("core/src/prompt_debug.rs", None, &own, &terms, task));
    own.task_scope = TaskScope::CrossArea;
    assert!(file_in_selection_scope("app-server/src/x.rs", None, &own, &terms, task));
    assert!(!file_in_selection_scope("cli/src/main.rs", None, &own, &terms, task));
}

fn text(t: &str) -> ContentPart {
    ContentPart::InputText(t.to_string())
}

#[test]
fn prompt_visibility_reads_input_text_of_messages_only() {
    let items = vec![
        PromptItem::Other,
        PromptItem::Message {
            role: "developer".to_string(),
            content: vec![ContentPart::Other, text("Harness repo intelligence: inspect a.rs")],
        },
    ];
    assert!(model_prompt_contains_harness_context(&items));
    let without = vec![PromptItem::Message {
        role: "user".to_string(),
        content: vec![text("no marker here")],
    }];
    assert!(!model_prompt_contains_harness_context(&without));
}

#[test]
fn user_message_texts_join_parts_and_skip_empty_messages() {
    let items = vec![
        PromptItem::Message { role: "user".to_string(), content: vec![text("a"), ContentPart::Other, text("b")] },
        PromptItem::Message { role: "assistant".to_string(), content: vec![text("ignored")] },
        PromptItem::Message { role: "user".to_string(), content: vec![ContentPart::Other] },
        PromptItem::Message { role: "user".to_string(), content: vec![text("c")] },
    ];
    assert_eq!(user_message_texts(&items), vec!["a\nb".to_string(), "c".to_string()]);
}

#[test]
fn test_selection_rules() {
    assert!(task_wants_fixture_tests(&terms_of("update the golden output")));
    assert!(!task_wants_fixture_tests(&terms_of("rename a function")));
    assert!(is_snapshot_only_test("tui/src/__snapshots__/a.snap"));
    assert!(is_snapshot_only_test("x/y.snap"));
    assert!(!is_snapshot_only_test("x/y.rs"));
    let eval_terms = terms_of("add eval fixture metrics");
    assert!(test_path_aligns_eval_fixture("context-harness/tests/Eval_Fixtures.rs", &eval_terms));
    assert!(!test_path_aligns_eval_fixture("context-harness/tests/other.rs", &eval_terms));
    assert!(!test_path_aligns_eval_fixture("tests/eval_fixtures.rs", &terms_of("fix eval")));
}

#[test]
fn test_references_source_by_stem_or_map_link() {
    let links = vec![TestLink {
        source_path: "src/engine.rs".to_string(),
        test_paths: vec!["tests/integration.rs".to_string()],
    }];
    assert!(test_references_source("tests/budgeter_test.rs", "src/budgeter.rs", &links));
    assert!(test_references_source("tests/integration.rs", "src/engine.rs", &links));
    assert!(!test_references_source("tests/integration.rs", "src/other.rs", &links));
    assert!(!test_references_source("tests/a.rs", "", &links));
}

#[test]
fn default_test_commands_by_extension() {
    assert_eq!(default_test_command("tests/test_a.py"), "pytest tests/test_a.py");
    assert_eq!(default_test_command("tests/a.rs"), "cargo test --test tests/a.rs");
    assert_eq!(default_test_command("web/a.tsx"), "npm test -- web/a.tsx");
    assert_eq!(default_test_command("docs/a.md"), "# run tests for docs/a.md");
}
