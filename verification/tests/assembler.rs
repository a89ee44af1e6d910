use context_harness::harness::assembler::{
    is_manifest_path, task_explicitly_names_manifest, task_mentions_manifest,
    within_crate_owner_match, ContextAssembler,
};
use context_harness::harness::task_terms::{assemble_task_terms, task_term_parts, TaskTerms};

/// Task terms with no inferred areas, as an empty repository map yields.
fn task_terms_for(task: &str) -> TaskTerms {
    assemble_task_terms(task_term_parts(task), Vec::new())
}

#[test]
fn within_crate_owner_matches_python_rules_for_pytest_task() {
    let terms = task_terms_for(
        "In the verification crate, find the helper that returns true \
         when a path matches the narrow single-file pytest target shape",
    );
    assert_eq!(
        within_crate_owner_match("verification/src/python_rules.rs", &terms),
        Some("owner:python_rules"),
    );
    assert_eq!(
        within_crate_owner_match("verification/src/command_exec.rs", &terms),
        None,
    );
}

#[test]
fn within_crate_owner_matches_command_exec_for_command_safety_task() {
    let terms = task_terms_for(
        "Add a helper to the verification crate that parses shell commands \
         and rejects unsafe execution patterns",
    );
    assert_eq!(
        within_crate_owner_match("verification/src/command_exec.rs", &terms),
        Some("owner:command_exec"),
    );
    assert_eq!(
        within_crate_owner_match("verification/src/python_rules.rs", &terms),
        None,
    );
}

#[test]
fn within_crate_owner_matches_planner_for_verification_plan_task() {
    let terms = task_terms_for(
        "Update the verification planner to produce a narrower plan when \
         only one file changed",
    );
    assert_eq!(
        within_crate_owner_match("verification/src/planner.rs", &terms),
        Some("owner:planner"),
    );
    assert_eq!(
        within_crate_owner_match("verification/src/command_exec.rs", &terms),
        None,
    );
    assert_eq!(
        within_crate_owner_match("verification/src/python_rules.rs", &terms),
        None,
    );
}

#[test]
fn within_crate_owner_returns_none_for_files_outside_known_owners() {
    let terms = task_terms_for("any task about pytest verification");
    assert_eq!(within_crate_owner_match("verification/src/lib.rs", &terms), None);
    assert_eq!(
        within_crate_owner_match("context-harness/src/agent_eval.rs", &terms),
        None
    );
}

#[test]
fn within_crate_owner_matches_renderer_for_directive_marker_task() {
    let terms = task_terms_for(
        "The constant whose literal text starts every model-visible \
         repo-intelligence prompt fragment lives in exactly one file \
         in the context-harness crate. Add a Sentinel doc comment \
         above its definition.",
    );
    assert_eq!(
        within_crate_owner_match("context-harness/src/renderer.rs", &terms),
        Some("owner:harness_renderer"),
    );
    assert_eq!(within_crate_owner_match("context-harness/BUILD.bazel", &terms), None);
    assert_eq!(within_crate_owner_match("context-harness/Cargo.toml", &terms), None);
    assert_eq!(
        within_crate_owner_match("context-harness/src/assembler.rs", &terms),
        None
    );
}

#[test]
fn within_crate_owner_matches_task_terms_for_tokenizer_task() {
    let terms = task_terms_for(
        "Adjust the tokenizer's quote handling so backticked example \
         phrases are downweighted during area inference",
    );
    assert_eq!(
        within_crate_owner_match("context-harness/src/task_terms.rs", &terms),
        Some("owner:task_terms"),
    );
    assert_eq!(
        within_crate_owner_match("context-harness/src/assembler.rs", &terms),
        None,
    );
    assert_eq!(
        within_crate_owner_match("context-harness/src/renderer.rs", &terms),
        None,
    );
}

#[test]
fn within_crate_owner_matches_assembler_for_packet_task() {
    let terms = task_terms_for(
        "Update the assembler to emit a new evidence label when a \
         file enters the orientation section of the packet",
    );
    assert_eq!(
        within_crate_owner_match("context-harness/src/assembler.rs", &terms),
        Some("owner:assembler"),
    );
}

#[test]
fn manifest_paths_unannounced_get_de_prioritization_evidence() {
    let plain = task_terms_for(
        "The constant whose literal text starts every model-visible \
         prompt fragment lives in the context-harness crate.",
    );
    assert!(!task_explicitly_names_manifest(&plain));
    let bazel_task = task_terms_for(
        "Update the context-harness BUILD.bazel target to add a new \
         rust_test rule for the regression suite.",
    );
    assert!(task_explicitly_names_manifest(&bazel_task));
    let area_package = task_terms_for(
        "Inside the verification crate there is a static array that \
         maps area-id prefixes to Cargo package names. Add a new entry.",
    );
    assert!(!task_explicitly_names_manifest(&area_package));
    for variant in [
        "Bump the codex-cli Cargo.toml version to 0.2",
        "Add a new dev-dependency to the manifest",
        "Replace a dependency entry with a newer revision",
    ] {
        let t = task_terms_for(variant);
        assert!(task_explicitly_names_manifest(&t), "{variant}");
    }
}

#[test]
fn manifest_paths_and_mentions() {
    assert!(is_manifest_path("a/BUILD.bazel"));
    assert!(is_manifest_path("Cargo.toml"));
    assert!(is_manifest_path("web/package.json"));
    assert!(!is_manifest_path("src/lib.rs"));
    let t = task_terms_for("bump cargo deps");
    assert!(task_mentions_manifest("x/Cargo.toml", &t));
    let t = task_terms_for("tidy the renderer");
    assert!(task_mentions_manifest("src/RENDERER.rs", &t));
    assert!(!task_mentions_manifest("src/lib.rs", &t));
}

#[test]
fn prioritize_puts_high_signal_then_reserved_crate_first() {
    let t = task_terms_for("tune context harness scoring");
    let paths = vec![
        Some("core/src/lib.rs".to_string()),
        None,
        Some("context-harness/src/lib.rs".to_string()),
        Some("context-harness/src/metrics.rs".to_string()),
        Some("cli/src/context_cmd.rs".to_string()),
    ];
    assert_eq!(ContextAssembler::prioritize_for_task(&t, &paths), vec![3, 4, 2, 0, 1]);
    let t = task_terms_for("add an eval command");
    let paths = vec![Some("cli/src/main.rs".to_string()), Some("core/a.rs".to_string())];
    assert_eq!(ContextAssembler::prioritize_for_task(&t, &paths), vec![0, 1]);
    let paths = vec![Some("core/a.rs".to_string()), Some("cli/src/main.rs".to_string())];
    assert_eq!(ContextAssembler::prioritize_for_task(&t, &paths), vec![1, 0]);
}
