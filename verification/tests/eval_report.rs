use context_harness::harness::eval_report::{
    render_eval_human, render_eval_summary, EvalReportView, EvalTaskView,
};
use context_harness::harness::metrics::EvalDiagnostics;

fn diagnostics(missed: &[&str], extra: &[&str]) -> EvalDiagnostics {
    EvalDiagnostics {
        missed_gold_files: missed.iter().map(|s| s.to_string()).collect(),
        extra_included_files: extra.iter().map(|s| s.to_string()).collect(),
        missed_gold_tests: Vec::new(),
        extra_selected_tests: Vec::new(),
        missed_bridge_files: Vec::new(),
        extra_bridge_rendered: Vec::new(),
    }
}

fn report(bridge: Option<&str>, tasks: Vec<EvalTaskView>) -> EvalReportView {
    EvalReportView {
        task_count: tasks.len(),
        avg_recall: "0.75".to_string(),
        avg_waste: "0.20".to_string(),
        avg_test_accuracy: "1.00".to_string(),
        avg_token_estimate: 1234,
        avg_bridge_file_recall: bridge.map(|b| b.to_string()),
        tasks,
    }
}

#[test]
fn eval_summary_without_bridge_recall() {
    let r = report(None, Vec::new());
    assert_eq!(
        render_eval_summary(&r),
        "task_count: 0\navg_recall: 0.75\navg_waste: 0.20\navg_test_accuracy: 1.00\navg_token_estimate: 1234"
    );
}

#[test]
fn eval_summary_with_bridge_recall() {
    let r = report(Some("0.50"), Vec::new());
    assert!(render_eval_summary(&r).ends_with("avg_token_estimate: 1234\navg_bridge_file_recall: 0.50"));
}

#[test]
fn eval_human_lists_missed_and_extra_files() {
    let task = EvalTaskView {
        task: "fix the parser".to_string(),
        recall: "0.50".to_string(),
        waste: "0.33".to_string(),
        tests: "1.00".to_string(),
        tokens: 420,
        bridge_recall: Some("1.00".to_string()),
        diagnostics: diagnostics(&["src/a.rs", "src/b.rs"], &["README.md"]),
    };
    let r = report(None, vec![task]);
    let expected = [
        "task_count: 1",
        "avg_recall: 0.75",
        "avg_waste: 0.20",
        "avg_test_accuracy: 1.00",
        "avg_token_estimate: 1234",
        "",
        "Task: fix the parser",
        "  Recall: 0.50",
        "  Waste: 0.33",
        "  Tests: 1.00",
        "  Tokens: 420",
        "  Bridge recall: 1.00",
        "  Missed gold files:",
        "    - src/a.rs",
        "    - src/b.rs",
        "  Extra included files:",
        "    - README.md",
        "",
    ]
    .join("\n");
    assert_eq!(render_eval_human(&r), expected);
}

#[test]
fn eval_human_omits_empty_lists() {
    let task = EvalTaskView {
        task: "t".to_string(),
        recall: "1.00".to_string(),
        waste: "0.00".to_string(),
        tests: "1.00".to_string(),
        tokens: 7,
        bridge_recall: None,
        diagnostics: diagnostics(&[], &[]),
    };
    let out = render_eval_human(&report(None, vec![task]));
    assert!(out.ends_with("\nTask: t\n  Recall: 1.00\n  Waste: 0.00\n  Tests: 1.00\n  Tokens: 7\n"));
    assert!(!out.contains("Missed"));
}
