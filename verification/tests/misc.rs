use context_harness::harness::metrics::{gold_hits, irrelevant_selected};
use context_harness::cli::{
    artifact_record_path, detect_treatment_arm, expected_artifacts, parse_treatment_arm,
    validate_artifacts_layout,
};
use context_harness::extension::repo_intelligence::{
    contribution_task, task_text_from_user_input, with_verification_hint, UserInputItem,
};
use context_harness::extension::run_memory_bridge::RunMemoryBridge;
use context_harness::harness::agent_eval::{agent_labels_from_task, AgentArm, AgentEvalTask, AgentEvalWorkdir};
use context_harness::harness::budgeter::{
    estimate_item_render_tokens, estimate_item_tokens, ContextBudgeter,
};
use context_harness::harness::classifier::{TaskClassifier, TaskType};
use context_harness::harness::metrics::{EvalLabels, Metrics, PacketItemView, PacketView};
use context_harness::harness::packet::{
    bridge_render_level, estimate_prompt_tokens, prompt_visible_item, render_level_rank,
    with_likely_area, ContextItemKind,
    ContextItemState, RenderLevel, TokenBudget,
};
use context_harness::harness::prompt_paths::{
    estimate_tokens_from_prompt_json, looks_like_repo_path,
};
use context_harness::harness::task_scope::TaskScope;

#[test]
fn joins_non_empty_text_inputs() {
    let input = vec![
        UserInputItem::Text("  fix calculator  ".to_string()),
        UserInputItem::Text("keep it minimal".to_string()),
    ];
    assert_eq!(
        task_text_from_user_input(&input).as_deref(),
        Some("fix calculator\nkeep it minimal")
    );
}

#[test]
fn ignores_non_text_inputs() {
    let input = vec![UserInputItem::Other];
    assert_eq!(task_text_from_user_input(&input), None);
    let input = vec![UserInputItem::Text("   ".to_string()), UserInputItem::Other];
    assert_eq!(task_text_from_user_input(&input), None);
}

#[test]
fn contribution_task_and_hint() {
    assert_eq!(contribution_task(None), "continue current task");
    assert_eq!(contribution_task(Some("")), "continue current task");
    assert_eq!(contribution_task(Some("fix it")), "fix it");
    assert_eq!(
        with_verification_hint("frag".to_string(), Some("cargo test -p x")),
        "frag\n\nAfter editing, likely narrow verification:\n- cargo test -p x"
    );
    assert_eq!(with_verification_hint("frag".to_string(), None), "frag");
}

#[test]
fn run_memory_bridge_records_each_event_in_its_list() {
    let mut bridge = RunMemoryBridge::default();
    bridge.record_file_read("a.rs".to_string());
    bridge.record_file_read("b.rs".to_string());
    bridge.record_file_edited("a.rs".to_string());
    bridge.record_command("cargo test".to_string());
    bridge.record_failure("boom".to_string());
    assert_eq!(bridge.memory.files_read, vec!["a.rs", "b.rs"]);
    assert_eq!(bridge.memory.files_edited, vec!["a.rs"]);
    assert_eq!(bridge.memory.commands_run, vec!["cargo test"]);
    assert_eq!(bridge.memory.failures, vec!["boom"]);
    assert!(bridge.memory.open_questions.is_empty());
}

#[test]
fn classifier_picks_first_matching_keyword_group() {
    let c = |t: &str| TaskClassifier::classify_type(t);
    assert_eq!(c("Review the audit log"), (TaskType::Review, "keyword:review".to_string()));
    assert_eq!(c("refactor and fix"), (TaskType::Refactor, "keyword:refactor".to_string()));
    assert_eq!(c("Fix the failing test"), (TaskType::BugFix, "keyword:bug_fix".to_string()));
    assert_eq!(c("a new feature please"), (TaskType::Feature, "keyword:feature".to_string()));
    assert_eq!(c("prefix handling"), (TaskType::Unknown, "keyword:none".to_string()));
    assert_eq!(TaskType::BugFix.as_str(), "bug_fix");
    assert_eq!(TaskType::Unknown.as_str(), "unknown");
}

#[test]
fn diagnostics_list_misses_and_extras_in_order() {
    let item = |p: Option<&str>, s, r| PacketItemView {
        path: p.map(str::to_string),
        state: s,
        render_level: r,
    };
    let packet = PacketView {
        items: vec![
            item(Some("a.rs"), ContextItemState::Included, RenderLevel::Full),
            item(Some("x.rs"), ContextItemState::Included, RenderLevel::Compact),
            item(Some("b.rs"), ContextItemState::Dropped, RenderLevel::HiddenDebugOnly),
            item(Some("bridge.rs"), ContextItemState::Pinned, RenderLevel::PathOnly),
            item(None, ContextItemState::Included, RenderLevel::Full),
        ],
        selected_tests: vec!["t1".to_string(), "t9".to_string()],
    };
    let labels = EvalLabels {
        relevant_files: vec!["b.rs".to_string(), "a.rs".to_string()],
        relevant_tests: vec!["t1".to_string(), "t2".to_string()],
        bridge_files: vec!["bridge.rs".to_string(), "other.rs".to_string()],
    };
    let d = Metrics::diagnose(&packet, &labels);
    assert_eq!(d.missed_gold_files, vec!["b.rs"]);
    assert_eq!(d.extra_included_files, vec!["x.rs"]);
    assert_eq!(d.missed_gold_tests, vec!["t2"]);
    assert_eq!(d.extra_selected_tests, vec!["t9"]);
    assert_eq!(d.missed_bridge_files, vec!["bridge.rs", "other.rs"]);
    assert!(d.extra_bridge_rendered.is_empty());
    let defaults = EvalLabels::default();
    assert!(defaults.relevant_files.is_empty() && defaults.bridge_files.is_empty());
}

#[test]
fn agent_labels_keep_gold_and_drop_bridge() {
    let task = AgentEvalTask {
        id: "t".into(),
        task: "x".into(),
        relevant_files: vec!["a".into()],
        relevant_tests: vec!["ta".into()],
        danger_zones: Vec::new(),
        verify_command: None,
        bridge_files: vec!["b".into()],
        workdir: AgentEvalWorkdir::default(),
        category: None,
        verification_required: None,
    };
    let labels = agent_labels_from_task(&task);
    assert_eq!(labels.relevant_files, vec!["a"]);
    assert_eq!(labels.relevant_tests, vec!["ta"]);
    assert!(labels.bridge_files.is_empty());
    assert_eq!(task.workdir, AgentEvalWorkdir::Calculator);
}

#[test]
fn token_estimates() {
    assert_eq!(estimate_prompt_tokens("abcdefgh", 2, 1), 2 + 48 + 16 + 80);
    assert_eq!(estimate_prompt_tokens("", 0, 0), 80);
    assert_eq!(estimate_tokens_from_prompt_json("0123456789"), 2);
    assert_eq!(estimate_tokens_from_prompt_json("ééé"), 1);
    assert_eq!(estimate_item_render_tokens(Some("abcdefgh"), "1234", RenderLevel::Full), 90 + 2 + 1);
    assert_eq!(estimate_item_render_tokens(None, "1234", RenderLevel::Compact), 35);
    assert_eq!(estimate_item_render_tokens(Some("abcd"), "", RenderLevel::PathOnly), 11);
    assert_eq!(estimate_item_render_tokens(Some("abcd"), "", RenderLevel::HiddenDebugOnly), 0);
    assert_eq!(
        estimate_item_tokens(ContextItemKind::FileSummary, Some("abcdefgh"), "", RenderLevel::Compact),
        90 + 37 + 1
    );
    assert_eq!(
        estimate_item_tokens(ContextItemKind::CallSite, None, "", RenderLevel::HiddenDebugOnly),
        80
    );
    assert_eq!(render_level_rank(RenderLevel::PathOnly), 2);
    assert_eq!(RenderLevel::default(), RenderLevel::Full);
}

#[test]
fn budget_takes_items_in_order_while_they_fit() {
    let (taken, used) = ContextBudgeter::fit_to_budget(&vec![50, 80, 30, 20], TokenBudget { limit: 100 });
    assert_eq!(taken, vec![true, false, true, true]);
    assert_eq!(used, 100);
    let (taken, used) = ContextBudgeter::fit_to_budget(&vec![], TokenBudget::default());
    assert!(taken.is_empty());
    assert_eq!(used, 0);
    assert_eq!(TokenBudget::default().limit, 12_000);
}

#[test]
fn bridge_levels() {
    assert_eq!(
        bridge_render_level("cli/src/context_cmd.rs", TaskScope::SingleArea, true),
        RenderLevel::Compact
    );
    assert_eq!(
        bridge_render_level("core/src/x.rs", TaskScope::AreaPlusBridge, true),
        RenderLevel::PathOnly
    );
    assert_eq!(
        bridge_render_level("cli/src/main.rs", TaskScope::AreaPlusBridge, true),
        RenderLevel::Compact
    );
    assert_eq!(
        bridge_render_level("cli/src/main.rs", TaskScope::CrossArea, true),
        RenderLevel::PathOnly
    );
}

#[test]
fn repo_paths_in_prompts() {
    assert!(looks_like_repo_path("context-harness/src/lib.rs"));
    assert!(!looks_like_repo_path("https://x/y"));
    assert!(!looks_like_repo_path("plain"));
    assert!(!looks_like_repo_path("a/b c"));
    assert!(!looks_like_repo_path(&format!("a/{}", "b".repeat(300))));
}

#[test]
fn artifacts_layout_is_checked_in_order() {
    assert_eq!(parse_treatment_arm("harness"), Some(AgentArm::Harness));
    assert_eq!(parse_treatment_arm("repo_intelligence"), Some(AgentArm::RepoIntelligence));
    assert_eq!(parse_treatment_arm("vanilla"), None);
    assert_eq!(detect_treatment_arm(true, true), Some(AgentArm::RepoIntelligence));
    assert_eq!(detect_treatment_arm(false, true), Some(AgentArm::Harness));
    assert_eq!(detect_treatment_arm(false, false), None);
    assert_eq!(
        artifact_record_path("art/", "t1", AgentArm::Vanilla),
        "art/t1/vanilla/record.json"
    );
    assert_eq!(artifact_record_path("", "/abs", AgentArm::Harness), "/abs/harness/record.json");
    let expected = expected_artifacts("art", &["t1".to_string(), "t2".to_string()], AgentArm::Harness);
    assert_eq!(
        expected,
        vec![
            "art/t1/vanilla/record.json",
            "art/t1/harness/record.json",
            "art/t2/vanilla/record.json",
            "art/t2/harness/record.json",
        ]
    );
    assert_eq!(validate_artifacts_layout(&expected, &[true, true, true, true]), Ok(()));
    assert_eq!(
        validate_artifacts_layout(&expected, &[true, false, true, false]),
        Err("missing artifact: art/t1/harness/record.json".to_string())
    );
}

#[test]
fn metric_numerators_count_hits_and_irrelevant_paths() {
    let selected = vec!["a.rs".to_string(), "b.rs".to_string(), "x.rs".to_string()];
    let gold = vec!["a.rs".to_string(), "c.rs".to_string()];
    assert_eq!(gold_hits(&selected, &gold), 1);
    assert_eq!(irrelevant_selected(&selected, &gold), 2);
    assert_eq!(gold_hits(&selected, &Vec::new()), 0);
    assert_eq!(irrelevant_selected(&Vec::new(), &gold), 0);
}

#[test]
fn turn_input_contributor_sets_task_from_user_text() {
    let input = vec![UserInputItem::Text("Fix the failing calculator test.".to_string())];
    assert_eq!(
        task_text_from_user_input(&input).as_deref(),
        Some("Fix the failing calculator test.")
    );
}

#[test]
fn prompt_visibility_of_items() {
    assert!(prompt_visible_item(ContextItemState::Included, ContextItemKind::FileSummary, RenderLevel::Full, ContextItemKind::FileSummary));
    assert!(prompt_visible_item(ContextItemState::Pinned, ContextItemKind::FileSummary, RenderLevel::PathOnly, ContextItemKind::FileSummary));
    assert!(!prompt_visible_item(ContextItemState::Dropped, ContextItemKind::FileSummary, RenderLevel::Full, ContextItemKind::FileSummary));
    assert!(!prompt_visible_item(ContextItemState::Included, ContextItemKind::FileSummary, RenderLevel::HiddenDebugOnly, ContextItemKind::FileSummary));
    assert!(!prompt_visible_item(ContextItemState::Included, ContextItemKind::TestFile, RenderLevel::Full, ContextItemKind::FileSummary));
}

#[test]
fn likely_area_warning_goes_first_once() {
    let ws = vec!["Matched CLI command: x".to_string()];
    assert_eq!(
        with_likely_area(ws.clone(), Some("core")),
        vec!["Likely area: core".to_string(), "Matched CLI command: x".to_string()]
    );
    assert_eq!(with_likely_area(ws.clone(), None), ws);
    let already = vec!["Likely area: cli".to_string()];
    assert_eq!(with_likely_area(already.clone(), Some("core")), already);
}
