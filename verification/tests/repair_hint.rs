use context_harness::harness::repair_hint::infer_repair_hint;
use context_harness::harness::repair_hint::FailureType;

#[test]
fn classifies_compile_error() {
    let hint = infer_repair_hint(
        "error[E0425]: cannot find value `x` in this scope",
        &["context-harness/src/metrics.rs".to_string()],
        "cargo test -p codex-context-harness",
    );
    assert_eq!(hint.likely_failure_type, FailureType::CompileError);
    assert!(hint.suggested_focus.contains("compile error"));
}

#[test]
fn classifies_assertion_failure() {
    let hint = infer_repair_hint(
        "thread 'test' panicked at context-harness/src/metrics.rs:12\nassertion failed",
        &[],
        "cargo test -p codex-context-harness",
    );
    assert_eq!(hint.likely_failure_type, FailureType::TestAssertionFailure);
    assert!(hint.likely_files.iter().any(|p| p.contains("metrics.rs")));
}

#[test]
fn classifies_snapshot_failure() {
    let hint = infer_repair_hint(
        "insta review: snapshot mismatch in tui/src/app.rs",
        &[],
        "cargo test -p codex-tui",
    );
    assert_eq!(hint.likely_failure_type, FailureType::SnapshotFailure);
}

#[test]
fn classifies_timeout_lint_missing_import_and_unknown() {
    assert_eq!(infer_repair_hint("", &[], "timeout 5 cargo test").likely_failure_type, FailureType::Timeout);
    let t = infer_repair_hint("test timed out", &["a\\b.rs".to_string()], "x");
    assert_eq!(t.likely_failure_type, FailureType::Timeout);
    assert_eq!(
        t.suggested_focus,
        "Investigate the slow or hanging test; avoid broad workspace test runs."
    );
    assert_eq!(
        infer_repair_hint("warning: unused, denied by lint", &[], "x").likely_failure_type,
        FailureType::LintFailure
    );
    assert_eq!(
        infer_repair_hint("ModuleNotFoundError: No module named foo", &[], "pytest").likely_failure_type,
        FailureType::MissingImport
    );
    assert_eq!(infer_repair_hint("all good", &[], "x").likely_failure_type, FailureType::Unknown);
}

#[test]
fn likely_files_are_sorted_deduplicated_and_normalized() {
    let hint = infer_repair_hint(
        "error: boom\n  --> core/src/lib.rs:10:5\nsee src\\win.py and tests/a.rs\nnot tests/b.rs; nor tests/c.rs,\n",
        &["z/last.rs".to_string(), "core\\src\\lib.rs".to_string()],
        "cargo build",
    );
    assert_eq!(hint.likely_failure_type, FailureType::CompileError);
    assert_eq!(
        hint.likely_files,
        vec![
            "core/src/lib.rs".to_string(),
            "src/win.py".to_string(),
            "tests/a.rs".to_string(),
            "z/last.rs".to_string(),
        ]
    );
    assert_eq!(
        hint.suggested_focus,
        "Fix the compile error before changing tests. Start with `core/src/lib.rs`."
    );
}
