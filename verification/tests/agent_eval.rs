use context_harness::harness::agent_eval::{
    build_report, changed_files_from_git_diff, filter_scoring_changed_files,
    is_agent_eval_noise_path, prepare_agent_eval_tasks, classify_result, classify_shell_phase, compare_task, normalize_agent_eval_path,
    score_run, AgentArm, AgentEvalResult, AgentEvalTask, AgentEvalWorkdir, AgentRunInvalidReason,
    AgentRunRecord, AgentRunScore, ResultReason, TaskCategory,
};
use context_harness::harness::report::{
    duration_cell, format_cost_row, format_valid_cell, render_agent_eval_human,
};

fn calculator_task() -> AgentEvalTask {
    AgentEvalTask {
        id: "calculator_fix".to_string(),
        task: "Fix the failing calculator test.".to_string(),
        relevant_files: vec!["src/calculator.py".to_string()],
        relevant_tests: vec!["tests/test_calculator.py".to_string()],
        danger_zones: Vec::new(),
        verify_command: Some("python -m pytest tests/test_calculator.py".to_string()),
        bridge_files: Vec::new(),
        workdir: AgentEvalWorkdir::Calculator,
        category: None,
        verification_required: None,
    }
}

fn synthetic_record(arm: AgentArm, task_id: &str) -> AgentRunRecord {
    AgentRunRecord {
        arm,
        task_id: task_id.to_string(),
        changed_files: Vec::new(),
        tests_passed: false,
        turn_count: None,
        exec_exit_code: None,
        repo_intelligence_enabled: matches!(arm, AgentArm::RepoIntelligence),
        harness_context_visible: false,
        run_valid: true,
        invalid_reason: None,
        tokens_input: None,
        tokens_output: None,
        tokens_total: None,
        duration_ms: None,
        tool_call_count: None,
        shell_command_count: None,
        file_read_count: None,
        discover_command_count: None,
        edit_command_count: None,
        verify_command_count: None,
        warnings: Vec::new(),
        ri_surfaced_edit_targets: Vec::new(),
        ri_surfaced_orientation: Vec::new(),
        intent_changed_files: Vec::new(),
        diff_changed_files: Vec::new(),
        formatter_changed_files: Vec::new(),
        harness_prewarm_ms: None,
        codex_build_profile: None,
        search_proxy_enabled: matches!(arm, AgentArm::SearchProxy),
        search_proxy_substitutions: 0,
        search_proxy_escape_hatch_repeats: 0,
        search_proxy_build_pass_throughs: 0,
        search_proxy_compact_bytes: 0,
        search_proxy_raw_bytes_estimated: 0,
        search_proxy_top_files: Vec::new(),
        worktree_isolated: false,
        base_ref: None,
        worktree_path: None,
    }
}

#[test]
fn scores_correct_fix() {
    let task = calculator_task();
    let record = AgentRunRecord {
        changed_files: vec!["src/calculator.py".to_string()],
        tests_passed: true,
        turn_count: Some(2),
        exec_exit_code: Some(0),
        tokens_input: Some(100),
        tokens_output: Some(50),
        tokens_total: Some(150),
        duration_ms: Some(42_000),
        tool_call_count: Some(3),
        shell_command_count: Some(1),
        file_read_count: Some(0),
        ..synthetic_record(AgentArm::Harness, &task.id)
    };
    let score = score_run(&record, &task);
    assert_eq!(
        score,
        AgentRunScore {
            correct_file_touched: true,
            target_files_hit: 1,
            target_files_total: 1,
            tests_passed: true,
            turn_count: Some(2),
            unnecessary_files_changed: Vec::new(),
            harness_context_visible: false,
            bridge_files_touched: Vec::new(),
            run_valid: true,
            invalid_reason: None,
            tokens_input: Some(100),
            tokens_output: Some(50),
            tokens_total: Some(150),
            duration_ms: Some(42_000),
            tool_call_count: Some(3),
            shell_command_count: Some(1),
            file_read_count: Some(0),
            discover_command_count: None,
            edit_command_count: None,
            verify_command_count: None,
            warnings: Vec::new(),
            edit_target_files_hit: 1,
            edit_target_files_total: 1,
            orientation_files_touched: 0,
            orientation_files_total: 0,
        }
    );
}

#[test]
fn ignores_python_cache_artifacts_in_scoring() {
    let task = calculator_task();
    let record = AgentRunRecord {
        changed_files: vec![
            "src/__pycache__/calculator.cpython-313.pyc".to_string(),
            "tests/__pycache__/test_calculator.cpython-313-pytest-9.0.0.pyc".to_string(),
            ".pytest_cache/v/cache/nodeids".to_string(),
        ],
        tests_passed: false,
        turn_count: Some(1),
        ..synthetic_record(AgentArm::Harness, &task.id)
    };
    let score = score_run(&record, &task);
    assert!(!score.correct_file_touched);
    assert_eq!(score.unnecessary_files_changed, Vec::<String>::new());
}

#[test]
fn scores_unnecessary_files_and_no_touch() {
    let task = calculator_task();
    let record = AgentRunRecord {
        changed_files: vec!["README.md".to_string()],
        turn_count: Some(5),
        exec_exit_code: Some(1),
        ..synthetic_record(AgentArm::Vanilla, &task.id)
    };
    let score = score_run(&record, &task);
    assert!(!score.correct_file_touched);
    assert_eq!(
        score.unnecessary_files_changed,
        vec!["README.md".to_string()]
    );
    assert_eq!(score.target_files_hit, 0);
    assert_eq!(score.target_files_total, 1);
}

#[test]
fn normalize_strips_codex_rs_prefix() {
    assert_eq!(
        normalize_agent_eval_path("codex-rs/cli/src/context_cmd.rs"),
        "cli/src/context_cmd.rs"
    );
    assert_eq!(
        normalize_agent_eval_path("./cli/src/context_cmd.rs"),
        "cli/src/context_cmd.rs"
    );
    assert_eq!(
        normalize_agent_eval_path("/Users/me/codex/codex-rs/cli/src/context_cmd.rs"),
        "cli/src/context_cmd.rs"
    );
}

#[test]
fn scores_codex_rs_prefixed_changed_paths_against_fixture_gold() {
    let task = AgentEvalTask {
        id: "path_norm".to_string(),
        task: "touch context cmd".to_string(),
        relevant_files: vec!["cli/src/context_cmd.rs".to_string()],
        relevant_tests: Vec::new(),
        danger_zones: Vec::new(),
        verify_command: None,
        bridge_files: Vec::new(),
        workdir: AgentEvalWorkdir::CodexRs,
        category: None,
        verification_required: None,
    };
    let record = AgentRunRecord {
        changed_files: vec!["codex-rs/cli/src/context_cmd.rs".to_string()],
        tests_passed: true,
        turn_count: Some(1),
        exec_exit_code: Some(0),
        ..synthetic_record(AgentArm::Vanilla, &task.id)
    };
    let score = score_run(&record, &task);
    assert!(score.correct_file_touched);
    assert_eq!(score.unnecessary_files_changed, Vec::<String>::new());
}

#[test]
fn scores_codex_rs_prefixed_bridge_paths() {
    let task = AgentEvalTask {
        id: "bridge_norm".to_string(),
        task: "touch bridge".to_string(),
        relevant_files: vec!["other/src/lib.rs".to_string()],
        relevant_tests: Vec::new(),
        danger_zones: Vec::new(),
        verify_command: None,
        bridge_files: vec!["cli/src/main.rs".to_string()],
        workdir: AgentEvalWorkdir::CodexRs,
        category: None,
        verification_required: None,
    };
    let record = AgentRunRecord {
        changed_files: vec!["codex-rs/cli/src/main.rs".to_string()],
        tests_passed: true,
        turn_count: Some(1),
        exec_exit_code: Some(0),
        harness_context_visible: true,
        ..synthetic_record(AgentArm::RepoIntelligence, &task.id)
    };
    let score = score_run(&record, &task);
    assert_eq!(
        score.bridge_files_touched,
        vec!["cli/src/main.rs".to_string()]
    );
    // bridge files aren't gold; they still count as unnecessary against gold targets.
    assert_eq!(
        score.unnecessary_files_changed,
        vec!["cli/src/main.rs".to_string()]
    );
    // But they DO count toward target_files_hit (gold ∪ bridge).
    assert_eq!(score.target_files_hit, 1);
    assert_eq!(score.target_files_total, 2);
}

#[test]
fn invalid_pairs_are_excluded_from_behavioral_comparison() {
    let task = calculator_task();
    let vanilla = AgentRunRecord {
        changed_files: vec!["src/calculator.py".to_string()],
        tests_passed: true,
        turn_count: Some(1),
        run_valid: false,
        invalid_reason: Some(AgentRunInvalidReason::ProviderUsageLimit),
        ..synthetic_record(AgentArm::Vanilla, &task.id)
    };
    let treatment = AgentRunRecord {
        changed_files: vec!["src/calculator.py".to_string()],
        tests_passed: true,
        turn_count: Some(1),
        harness_context_visible: true,
        ..synthetic_record(AgentArm::RepoIntelligence, &task.id)
    };
    let row = compare_task(&task, &vanilla, &treatment);
    assert!(!row.valid_for_comparison);
    assert_eq!(
        row.excluded_reason.as_deref(),
        Some("pair_invalid:provider_usage_limit|invalid")
    );
    // tests_passed is ignored for invalid runs
    assert!(!row.vanilla.tests_passed);
    // Excluded results carry the pair_invalid reason verbatim.
    assert_eq!(
        row.result.slug(),
        "excluded:pair_invalid:provider_usage_limit|invalid"
    );
}

fn classify(vanilla: AgentRunScore, treatment: AgentRunScore) -> AgentEvalResult {
    classify_result(&vanilla, &treatment, true, None)
}

fn zero_score() -> AgentRunScore {
    AgentRunScore {
        correct_file_touched: false,
        target_files_hit: 0,
        target_files_total: 2,
        tests_passed: false,
        turn_count: None,
        unnecessary_files_changed: Vec::new(),
        harness_context_visible: false,
        bridge_files_touched: Vec::new(),
        run_valid: true,
        invalid_reason: None,
        tokens_input: None,
        tokens_output: None,
        tokens_total: None,
        duration_ms: None,
        tool_call_count: None,
        shell_command_count: None,
        file_read_count: None,
        discover_command_count: None,
        edit_command_count: None,
        verify_command_count: None,
        warnings: Vec::new(),
        edit_target_files_hit: 0,
        edit_target_files_total: 0,
        orientation_files_touched: 0,
        orientation_files_total: 0,
    }
}

#[test]
fn classify_ri_better_by_file_targeting() {
    let vanilla = zero_score();
    let treatment = AgentRunScore {
        target_files_hit: 2,
        ..zero_score()
    };
    assert_eq!(
        classify(vanilla, treatment),
        AgentEvalResult::RiBetter {
            reason: ResultReason::FileTargeting,
        }
    );
}

#[test]
fn classify_ri_better_by_fewer_extra_files_when_targets_tie() {
    let vanilla = AgentRunScore {
        target_files_hit: 2,
        unnecessary_files_changed: vec!["a".into(), "b".into(), "c".into()],
        ..zero_score()
    };
    let treatment = AgentRunScore {
        target_files_hit: 2,
        unnecessary_files_changed: vec!["a".into()],
        ..zero_score()
    };
    assert_eq!(
        classify(vanilla, treatment),
        AgentEvalResult::RiBetter {
            reason: ResultReason::FewerExtraFiles,
        }
    );
}

#[test]
fn classify_ri_better_by_fewer_turns_when_targets_and_extras_tie() {
    let vanilla = AgentRunScore {
        target_files_hit: 2,
        turn_count: Some(8),
        ..zero_score()
    };
    let treatment = AgentRunScore {
        target_files_hit: 2,
        turn_count: Some(3),
        ..zero_score()
    };
    assert_eq!(
        classify(vanilla, treatment),
        AgentEvalResult::RiBetter {
            reason: ResultReason::FewerTurns,
        }
    );
}

#[test]
fn classify_ri_better_by_fewer_tokens_only_after_other_tiebreakers_tie() {
    let vanilla = AgentRunScore {
        target_files_hit: 2,
        turn_count: Some(4),
        tokens_total: Some(2000),
        ..zero_score()
    };
    let treatment = AgentRunScore {
        target_files_hit: 2,
        turn_count: Some(4),
        tokens_total: Some(1500),
        ..zero_score()
    };
    assert_eq!(
        classify(vanilla, treatment),
        AgentEvalResult::RiBetter {
            reason: ResultReason::FewerTokens,
        }
    );
}

#[test]
fn classify_tokens_never_override_correctness() {
    // RI is cheaper but wrong; result must be ri_worse:file_targeting, not ri_better.
    let vanilla = AgentRunScore {
        target_files_hit: 2,
        tokens_total: Some(5000),
        ..zero_score()
    };
    let treatment = AgentRunScore {
        target_files_hit: 0,
        tokens_total: Some(500),
        ..zero_score()
    };
    assert_eq!(
        classify(vanilla, treatment),
        AgentEvalResult::RiWorse {
            reason: ResultReason::FileTargeting,
        }
    );
}

#[test]
fn classify_tie_when_all_dimensions_match() {
    let vanilla = AgentRunScore {
        target_files_hit: 2,
        turn_count: Some(3),
        tokens_total: Some(1000),
        ..zero_score()
    };
    let treatment = vanilla.clone();
    assert_eq!(classify(vanilla, treatment), AgentEvalResult::Tie);
}

#[test]
fn render_human_emits_dash_for_missing_tokens() {
    let task = calculator_task();
    let vanilla = AgentRunRecord {
        changed_files: vec!["src/calculator.py".to_string()],
        tests_passed: false,
        turn_count: Some(4),
        ..synthetic_record(AgentArm::Vanilla, &task.id)
    };
    let treatment = AgentRunRecord {
        changed_files: vec!["src/calculator.py".to_string()],
        tests_passed: true,
        turn_count: Some(2),
        harness_context_visible: true,
        ..synthetic_record(AgentArm::RepoIntelligence, &task.id)
    };
    let report = build_report(vec![compare_task(&task, &vanilla, &treatment)]);
    let text = render_agent_eval_human(&report);
    assert!(
        text.contains("—/—"),
        "expected token cell to render as `—/—` when both arms lack usage data\n{text}"
    );
    assert!(text.contains("ri_better:fewer_turns"), "{text}");
}

#[test]
fn category_flows_through_compare_task() {
    let mut task = calculator_task();
    task.category = Some(TaskCategory::FileRouting);
    let vanilla = synthetic_record(AgentArm::Vanilla, &task.id);
    let treatment = synthetic_record(AgentArm::RepoIntelligence, &task.id);
    let row = compare_task(&task, &vanilla, &treatment);
    assert_eq!(row.category, Some(TaskCategory::FileRouting));
}

#[test]
fn render_human_groups_by_category_with_summary_lines() {
    let mut t_routing = calculator_task();
    t_routing.id = "fr_1".to_string();
    t_routing.category = Some(TaskCategory::FileRouting);
    let mut t_bridge = calculator_task();
    t_bridge.id = "bw_1".to_string();
    t_bridge.category = Some(TaskCategory::BridgeWiring);
    let mut t_uncat = calculator_task();
    t_uncat.id = "uc_1".to_string();
    t_uncat.category = None;

    // For fr_1: RI hits gold, vanilla doesn't → ri_better:file_targeting.
    let mk_records = |task: &AgentEvalTask, ri_hits: bool| {
        let vanilla = AgentRunRecord {
            changed_files: vec!["README.md".to_string()],
            tests_passed: false,
            turn_count: Some(4),
            ..synthetic_record(AgentArm::Vanilla, &task.id)
        };
        let treatment = AgentRunRecord {
            changed_files: if ri_hits {
                vec!["src/calculator.py".to_string()]
            } else {
                vec!["README.md".to_string()]
            },
            tests_passed: ri_hits,
            turn_count: Some(2),
            harness_context_visible: true,
            ..synthetic_record(AgentArm::RepoIntelligence, &task.id)
        };
        (vanilla, treatment)
    };

    let (v1, t1) = mk_records(&t_routing, true); // ri_better
    let (v2, t2) = mk_records(&t_bridge, false); // ri_worse (both miss but vanilla touches same wrong file; classifier picks Tie or another path)
    let (v3, t3) = mk_records(&t_uncat, true); // ri_better

    let report = build_report(vec![
        compare_task(&t_routing, &v1, &t1),
        compare_task(&t_bridge, &v2, &t2),
        compare_task(&t_uncat, &v3, &t3),
    ]);
    let text = render_agent_eval_human(&report);

    // Each category gets a header.
    assert!(
        text.contains("== bridge_wiring =="),
        "missing bw header:\n{text}"
    );
    assert!(
        text.contains("== file_routing =="),
        "missing fr header:\n{text}"
    );
    assert!(
        text.contains("== uncategorized =="),
        "missing uncat header:\n{text}"
    );

    // Each group has a per-group summary line.
    let group_summaries: Vec<&str> =
        text.lines().filter(|l| l.starts_with("Group: ")).collect();
    assert_eq!(
        group_summaries.len(),
        3,
        "expected exactly 3 group summaries, got {}:\n{text}",
        group_summaries.len()
    );

    // None group renders last.
    let bw_idx = text.find("== bridge_wiring ==").unwrap();
    let fr_idx = text.find("== file_routing ==").unwrap();
    let uc_idx = text.find("== uncategorized ==").unwrap();
    assert!(bw_idx < fr_idx, "categories should be alphabetic; bw < fr");
    assert!(fr_idx < uc_idx, "uncategorized must come last");

    // Column widths shared within each table across category groups.
    // Two tables × 3 categories = 6 "Task " header lines, with three
    // identical Main headers and three identical Cost headers (each
    // table has its own width set).
    let header_lines: Vec<&str> = text.lines().filter(|l| l.starts_with("Task ")).collect();
    assert_eq!(
        header_lines.len(),
        6,
        "expected 6 'Task ' headers (3 Main + 3 Cost), got {}:\n{text}",
        header_lines.len()
    );
    // Both tables must be present.
    assert!(
        text.contains("==== Main ===="),
        "Main section missing:\n{text}"
    );
    assert!(
        text.contains("==== Cost ===="),
        "Cost section missing:\n{text}"
    );
}

#[test]
fn classify_ri_better_by_faster_wall_clock_only_after_turns_tie() {
    // Targets / extras / turns all tie; RI is faster by wall clock.
    let vanilla = AgentRunScore {
        target_files_hit: 2,
        turn_count: Some(3),
        duration_ms: Some(90_000),
        ..zero_score()
    };
    let treatment = AgentRunScore {
        target_files_hit: 2,
        turn_count: Some(3),
        duration_ms: Some(45_000),
        ..zero_score()
    };
    assert_eq!(
        classify(vanilla, treatment),
        AgentEvalResult::RiBetter {
            reason: ResultReason::FasterWallClock,
        }
    );
}

#[test]
fn classify_time_sits_above_tokens_in_priority_order() {
    // RI is slower BUT cheaper. Time has higher priority than tokens,
    // so the verdict must be ri_worse:faster_wall_clock (slower), NOT
    // ri_better:fewer_tokens.
    let vanilla = AgentRunScore {
        target_files_hit: 2,
        turn_count: Some(3),
        duration_ms: Some(40_000),
        tokens_total: Some(5000),
        ..zero_score()
    };
    let treatment = AgentRunScore {
        target_files_hit: 2,
        turn_count: Some(3),
        duration_ms: Some(80_000),
        tokens_total: Some(3000),
        ..zero_score()
    };
    assert_eq!(
        classify(vanilla, treatment),
        AgentEvalResult::RiWorse {
            reason: ResultReason::FasterWallClock,
        }
    );
}

#[test]
fn classify_skips_time_tier_when_either_duration_missing() {
    // Only vanilla has duration; classifier must skip to tokens.
    let vanilla = AgentRunScore {
        target_files_hit: 2,
        turn_count: Some(3),
        duration_ms: Some(40_000),
        tokens_total: Some(5000),
        ..zero_score()
    };
    let treatment = AgentRunScore {
        target_files_hit: 2,
        turn_count: Some(3),
        duration_ms: None,
        tokens_total: Some(3000),
        ..zero_score()
    };
    assert_eq!(
        classify(vanilla, treatment),
        AgentEvalResult::RiBetter {
            reason: ResultReason::FewerTokens,
        }
    );
}

#[test]
fn classify_shell_phase_unpeels_cd_and_chained_commands() {
    // The q8 rehearsal showed agents prefix every shell with
    // `cd $WORKTREE && <real_cmd>`. The classifier must look past the
    // `cd` prefix to the actual command after `&&`.
    assert_eq!(
        classify_shell_phase("/bin/zsh -lc 'cd /tmp/foo && sed -i \"\" 1d bar.rs'"),
        "edit"
    );
    assert_eq!(
        classify_shell_phase("/bin/zsh -lc 'cd /tmp/foo && cat baz.rs'"),
        "read"
    );
    assert_eq!(
        classify_shell_phase("/bin/zsh -lc 'cd /tmp/foo && grep -A 3 pattern bar.rs'"),
        "verify"
    );
    // Chained: cd && cd && real cmd — both `cd ... &&` prefixes stripped.
    assert_eq!(
        classify_shell_phase("/bin/zsh -lc 'cd /tmp && cd /tmp/foo && find . -name *.rs'"),
        "discover"
    );
    // Bare `cd` with no `&&` chain is still "other".
    assert_eq!(classify_shell_phase("cd /tmp/foo"), "other");
}

#[test]
fn classify_shell_phase_detects_joined_grep_context_flags() {
    // Q8 rehearsal: `grep -A5 -B5` (no space) was misclassified as
    // discover. Joined flag forms must count as verify.
    assert_eq!(classify_shell_phase("grep -A5 pattern foo.rs"), "verify");
    assert_eq!(classify_shell_phase("grep -B5 pattern foo.rs"), "verify");
    assert_eq!(classify_shell_phase("grep -C3 pattern foo.rs"), "verify");
    assert_eq!(
        classify_shell_phase("/bin/zsh -lc 'grep -n -A5 -B5 thing foo.rs'"),
        "verify"
    );
    // No context flag → discover.
    assert_eq!(classify_shell_phase("grep -n pattern foo.rs"), "discover");
}

#[test]
fn classify_shell_phase_covers_common_cases() {
    // Wrapped form (`/bin/zsh -lc '<inner>'`) and bare form should agree.
    assert_eq!(
        classify_shell_phase("/bin/zsh -lc 'find . -name *.rs'"),
        "discover"
    );
    assert_eq!(classify_shell_phase("find . -name '*.rs'"), "discover");
    assert_eq!(classify_shell_phase("ls -la"), "discover");
    assert_eq!(
        classify_shell_phase("/bin/zsh -lc 'grep -n install foo.rs'"),
        "discover"
    );
    assert_eq!(classify_shell_phase("grep -A 3 pattern foo.rs"), "verify");
    assert_eq!(classify_shell_phase("grep -B 2 pattern foo.rs"), "verify");
    assert_eq!(classify_shell_phase("cat README.md"), "read");
    assert_eq!(classify_shell_phase("head -n 5 foo.rs"), "read");
    assert_eq!(classify_shell_phase("sed -i '' '1d' foo.rs"), "edit");
    assert_eq!(
        classify_shell_phase("perl -i -pe 's/old/new/' foo.rs"),
        "edit"
    );
    assert_eq!(
        classify_shell_phase("awk 'NR==180{print}' foo.rs"),
        "verify"
    );
    assert_eq!(classify_shell_phase("echo content > newfile.rs"), "edit");
    assert_eq!(classify_shell_phase("mv old.rs new.rs"), "edit");
    assert_eq!(classify_shell_phase("git status"), "discover");
    assert_eq!(classify_shell_phase("git diff HEAD"), "verify");
    assert_eq!(
        classify_shell_phase("python -m pytest tests/foo.py"),
        "other"
    );
}

#[test]
fn duration_cell_formatting() {
    assert_eq!(duration_cell(None), "—");
    assert_eq!(duration_cell(Some(0)), "0.0s");
    assert_eq!(duration_cell(Some(4_200)), "4.2s");
    assert_eq!(duration_cell(Some(99_900)), "99.9s");
    assert_eq!(duration_cell(Some(100_000)), "1m40s");
    assert_eq!(duration_cell(Some(605_000)), "10m05s");
}

#[test]
fn cost_row_emits_signed_token_delta_and_diagnostic_counts() {
    let task = calculator_task();
    let vanilla = AgentRunRecord {
        changed_files: vec!["src/calculator.py".to_string()],
        tests_passed: true,
        turn_count: Some(1),
        tokens_input: Some(400_000),
        tokens_output: Some(1_000),
        tokens_total: Some(401_000),
        duration_ms: Some(60_000),
        tool_call_count: Some(15),
        shell_command_count: Some(10),
        file_read_count: Some(5),
        discover_command_count: Some(2),
        edit_command_count: Some(1),
        verify_command_count: Some(2),
        ..synthetic_record(AgentArm::Vanilla, &task.id)
    };
    let treatment = AgentRunRecord {
        changed_files: vec!["src/calculator.py".to_string()],
        tests_passed: true,
        turn_count: Some(1),
        harness_context_visible: true,
        tokens_input: Some(405_000),
        tokens_output: Some(800),
        tokens_total: Some(405_800),
        duration_ms: Some(50_000),
        tool_call_count: Some(7),
        shell_command_count: Some(4),
        file_read_count: Some(1),
        discover_command_count: Some(0),
        edit_command_count: Some(2),
        verify_command_count: Some(1),
        ..synthetic_record(AgentArm::RepoIntelligence, &task.id)
    };
    let row = compare_task(&task, &vanilla, &treatment);
    let cells = format_cost_row(&row);
    assert_eq!(cells[0], "calculator_fix");
    assert_eq!(cells[1], "401000/405800");
    assert_eq!(
        cells[2], "+4800",
        "Token Δ should be signed; RI +4800 tokens"
    );
    assert_eq!(cells[3], "15/7", "tool calls V/RI");
    assert_eq!(cells[4], "2/0", "discover V/RI");
    assert_eq!(cells[5], "5/1", "read V/RI");
    assert_eq!(cells[6], "1/2", "edit V/RI");
    assert_eq!(cells[7], "2/1", "verify V/RI");
}

#[test]
fn score_run_uses_intent_changed_files_and_ignores_formatter_collateral() {
    // The rate_limit-v2 measurement bug in concrete form: the
    // model intentionally edited only the gold + bridge, but
    // `git diff` saw 9 files because `cargo fmt --all` ran. With
    // intent_changed_files populated, score_run must ignore the
    // 7 formatter files entirely.
    let task = AgentEvalTask {
        id: "fmt_collateral".to_string(),
        task: "test".to_string(),
        relevant_files: vec!["src/agent_eval.rs".to_string()],
        relevant_tests: Vec::new(),
        bridge_files: vec!["scripts/runner.sh".to_string()],
        danger_zones: Vec::new(),
        verify_command: None,
        workdir: AgentEvalWorkdir::Calculator,
        category: None,
        verification_required: None,
    };
    let mut record = synthetic_record(AgentArm::RepoIntelligence, &task.id);
    // Diff sees: gold + bridge + 7 fmt-drift files.
    record.changed_files = vec![
        "src/agent_eval.rs".to_string(),
        "scripts/runner.sh".to_string(),
        "src/lib.rs".to_string(),
        "src/renderer.rs".to_string(),
        "src/task_terms.rs".to_string(),
        "tests/agent_eval.rs".to_string(),
        "core/src/lib.rs".to_string(),
        "ext/repo-intelligence/tests/contributor_injection.rs".to_string(),
        "verification/src/planner.rs".to_string(),
    ];
    // Intent: only the two files the model authored via apply_patch.
    record.intent_changed_files = vec![
        "src/agent_eval.rs".to_string(),
        "scripts/runner.sh".to_string(),
    ];
    let score = score_run(&record, &task);
    assert_eq!(score.edit_target_files_hit, 1, "gold hit via intent");
    assert_eq!(
        score.unnecessary_files_changed.len(),
        1,
        "extras = intent − gold = {{bridge}}, NOT the 7 formatter files. \
         Got: {:?}",
        score.unnecessary_files_changed
    );
    assert!(
        score
            .unnecessary_files_changed
            .iter()
            .all(|p| !p.contains("renderer.rs") && !p.contains("planner.rs")),
        "formatter collateral leaked into extras: {:?}",
        score.unnecessary_files_changed
    );
}

#[test]
fn score_run_falls_back_to_changed_files_when_intent_is_empty() {
    // Pre-instrumentation records (no intent_changed_files
    // captured) must still score via `changed_files`. Without
    // this fallback every backfilled artifact would zero out
    // edit_target_files_hit.
    let task = AgentEvalTask {
        id: "legacy".to_string(),
        task: "test".to_string(),
        relevant_files: vec!["gold.rs".to_string()],
        relevant_tests: Vec::new(),
        bridge_files: Vec::new(),
        danger_zones: Vec::new(),
        verify_command: None,
        workdir: AgentEvalWorkdir::Calculator,
        category: None,
        verification_required: None,
    };
    let mut record = synthetic_record(AgentArm::Vanilla, &task.id);
    record.changed_files = vec!["gold.rs".to_string(), "other.rs".to_string()];
    // intent left empty → fallback path.
    let score = score_run(&record, &task);
    assert_eq!(score.edit_target_files_hit, 1);
    assert_eq!(score.unnecessary_files_changed.len(), 1);
}

#[test]
fn score_run_counts_bridge_and_ri_surfaced_as_orientation_excluding_gold() {
    // Build a task where: gold=[a.rs], bridge=[b.rs], and the RI
    // arm surfaced [a.rs, b.rs, c.rs, d.rs] in its directive. The
    // model touched a.rs (gold), b.rs (bridge → orientation), and
    // c.rs (RI-surfaced extra → orientation). d.rs was NOT edited.
    let task = AgentEvalTask {
        id: "orient_test".to_string(),
        task: "test orientation".to_string(),
        relevant_files: vec!["a.rs".to_string()],
        relevant_tests: Vec::new(),
        bridge_files: vec!["b.rs".to_string()],
        danger_zones: Vec::new(),
        verify_command: None,
        workdir: AgentEvalWorkdir::Calculator,
        category: None,
        verification_required: None,
    };
    let record = AgentRunRecord {
        arm: AgentArm::RepoIntelligence,
        task_id: task.id.clone(),
        changed_files: vec!["a.rs".to_string(), "b.rs".to_string(), "c.rs".to_string()],
        tests_passed: true,
        turn_count: Some(1),
        exec_exit_code: Some(0),
        repo_intelligence_enabled: true,
        harness_context_visible: true,
        run_valid: true,
        invalid_reason: None,
        tokens_input: None,
        tokens_output: None,
        tokens_total: None,
        duration_ms: None,
        tool_call_count: None,
        shell_command_count: None,
        file_read_count: None,
        discover_command_count: None,
        edit_command_count: None,
        verify_command_count: None,
        warnings: Vec::new(),
        // RI surfaced 1 edit target (a.rs) + 3 orientation files
        // (b.rs, c.rs, d.rs). a.rs as an edit target overlaps with
        // gold and is therefore NOT in the orientation set; the
        // formula `bridge ∪ ri_orient − gold` keeps that invariant.
        ri_surfaced_edit_targets: vec!["a.rs".to_string()],
        ri_surfaced_orientation: vec![
            "b.rs".to_string(),
            "c.rs".to_string(),
            "d.rs".to_string(),
        ],
        intent_changed_files: Vec::new(),
        diff_changed_files: Vec::new(),
        formatter_changed_files: Vec::new(),
        harness_prewarm_ms: None,
        codex_build_profile: None,
        search_proxy_enabled: false,
        search_proxy_substitutions: 0,
        search_proxy_escape_hatch_repeats: 0,
        search_proxy_build_pass_throughs: 0,
        search_proxy_compact_bytes: 0,
        search_proxy_raw_bytes_estimated: 0,
        search_proxy_top_files: Vec::new(),
        worktree_isolated: false,
        base_ref: None,
        worktree_path: None,
    };
    let score = score_run(&record, &task);
    assert_eq!(
        score.edit_target_files_hit, 1,
        "a.rs is in gold and touched"
    );
    assert_eq!(score.edit_target_files_total, 1);
    // Orientation set: bridge {b} ∪ ri_orient {b,c,d} − gold {a}
    //                 = {b, c, d}
    // Touched: {a, b, c}. Intersection with orientation_set = {b, c}.
    assert_eq!(
        score.orientation_files_touched, 2,
        "b (bridge) + c (RI-surfaced extra) edited; d was surfaced but not edited"
    );
    assert_eq!(score.orientation_files_total, 3, "{{b, c, d}}");
}

#[test]
fn score_run_falls_back_to_bridge_only_for_vanilla_with_no_ri_surfaced() {
    // Vanilla arm has empty ri_surfaced_*. The orientation set
    // collapses to (bridge − gold). This keeps backfilled / legacy
    // records meaningful: orientation_files_touched still measures
    // "bridge file edited" even without the RI packet.
    let task = AgentEvalTask {
        id: "vanilla_orient".to_string(),
        task: "test".to_string(),
        relevant_files: vec!["gold.rs".to_string()],
        relevant_tests: Vec::new(),
        bridge_files: vec!["wiring.rs".to_string()],
        danger_zones: Vec::new(),
        verify_command: None,
        workdir: AgentEvalWorkdir::Calculator,
        category: None,
        verification_required: None,
    };
    let record = AgentRunRecord {
        arm: AgentArm::Vanilla,
        task_id: task.id.clone(),
        changed_files: vec!["gold.rs".to_string(), "wiring.rs".to_string()],
        tests_passed: true,
        turn_count: Some(1),
        exec_exit_code: Some(0),
        repo_intelligence_enabled: false,
        harness_context_visible: false,
        run_valid: true,
        invalid_reason: None,
        tokens_input: None,
        tokens_output: None,
        tokens_total: None,
        duration_ms: None,
        tool_call_count: None,
        shell_command_count: None,
        file_read_count: None,
        discover_command_count: None,
        edit_command_count: None,
        verify_command_count: None,
        warnings: Vec::new(),
        ri_surfaced_edit_targets: Vec::new(),
        ri_surfaced_orientation: Vec::new(),
        intent_changed_files: Vec::new(),
        diff_changed_files: Vec::new(),
        formatter_changed_files: Vec::new(),
        harness_prewarm_ms: None,
        codex_build_profile: None,
        search_proxy_enabled: false,
        search_proxy_substitutions: 0,
        search_proxy_escape_hatch_repeats: 0,
        search_proxy_build_pass_throughs: 0,
        search_proxy_compact_bytes: 0,
        search_proxy_raw_bytes_estimated: 0,
        search_proxy_top_files: Vec::new(),
        worktree_isolated: false,
        base_ref: None,
        worktree_path: None,
    };
    let score = score_run(&record, &task);
    assert_eq!(score.edit_target_files_hit, 1);
    assert_eq!(
        score.orientation_files_touched, 1,
        "bridge wiring.rs edited"
    );
    assert_eq!(score.orientation_files_total, 1);
}

#[test]
fn valid_cell_renders_warnings_when_present_and_plain_when_absent() {
    // Clean pair: just "valid".
    let task = calculator_task();
    let vanilla = AgentRunRecord {
        changed_files: vec!["src/calculator.py".to_string()],
        tests_passed: true,
        turn_count: Some(1),
        ..synthetic_record(AgentArm::Vanilla, &task.id)
    };
    let treatment = AgentRunRecord {
        changed_files: vec!["src/calculator.py".to_string()],
        tests_passed: true,
        turn_count: Some(1),
        ..synthetic_record(AgentArm::RepoIntelligence, &task.id)
    };
    let row = compare_task(&task, &vanilla, &treatment);
    assert!(row.valid_for_comparison);
    assert_eq!(format_valid_cell(&row), "valid");

    // Both arms carry the same recovered-network warning: collapse.
    let v_warn = AgentRunRecord {
        warnings: vec!["provider_network_error_recovered".to_string()],
        ..vanilla.clone()
    };
    let t_warn = AgentRunRecord {
        warnings: vec!["provider_network_error_recovered".to_string()],
        ..treatment.clone()
    };
    let row = compare_task(&task, &v_warn, &t_warn);
    assert_eq!(
        format_valid_cell(&row),
        "valid (provider_network_error_recovered)"
    );

    // Only RI arm carries a warning: prefix the arm.
    let t_only = AgentRunRecord {
        warnings: vec!["provider_network_error_recovered".to_string()],
        ..treatment
    };
    let row = compare_task(&task, &vanilla, &t_only);
    assert_eq!(
        format_valid_cell(&row),
        "valid (RI: provider_network_error_recovered)"
    );
}


#[test]
fn swapping_arms_swaps_the_verdict() {
    let a = AgentRunScore {
        target_files_hit: 2,
        turn_count: Some(3),
        ..zero_score()
    };
    let b = AgentRunScore {
        target_files_hit: 2,
        turn_count: Some(5),
        ..zero_score()
    };
    assert_eq!(
        classify(a.clone(), b.clone()),
        AgentEvalResult::RiWorse {
            reason: ResultReason::FewerTurns
        }
    );
    assert_eq!(
        classify(b, a.clone()),
        AgentEvalResult::RiBetter {
            reason: ResultReason::FewerTurns
        }
    );
    assert_eq!(classify(a.clone(), a), AgentEvalResult::Tie);
}

#[test]
fn excluded_result_defaults_to_invalid_reason() {
    let r = classify_result(&zero_score(), &zero_score(), false, None);
    assert_eq!(
        r,
        AgentEvalResult::Excluded {
            reason: "invalid".to_string()
        }
    );
    assert_eq!(r.slug(), "excluded:invalid");
    let r = classify_result(&zero_score(), &zero_score(), false, Some("why"));
    assert_eq!(r.slug(), "excluded:why");
}

#[test]
fn result_and_category_slugs() {
    assert_eq!(
        AgentEvalResult::RiBetter {
            reason: ResultReason::FasterWallClock
        }
        .slug(),
        "ri_better:faster_wall_clock"
    );
    assert_eq!(
        AgentEvalResult::RiWorse {
            reason: ResultReason::FewerExtraFiles
        }
        .slug(),
        "ri_worse:fewer_extra_files"
    );
    assert_eq!(AgentEvalResult::Tie.slug(), "tie");
    assert_eq!(TaskCategory::CrossModuleOwnership.slug(), "cross_module_ownership");
    assert_eq!(TaskCategory::LocalConvention.slug(), "local_convention");
    assert_eq!(AgentArm::RepoIntelligence.artifact_dir(), "repo_intelligence");
    assert_eq!(AgentArm::SearchProxy.display_label(), "search_proxy");
    assert_eq!(ResultReason::FewerTokens.slug(), "fewer_tokens");
}

#[test]
fn build_report_counts_invalid_pairs_by_reason() {
    let task = calculator_task();
    let ok = synthetic_record(AgentArm::Vanilla, &task.id);
    let limited = AgentRunRecord {
        run_valid: false,
        invalid_reason: Some(AgentRunInvalidReason::ProviderUsageLimit),
        ..synthetic_record(AgentArm::RepoIntelligence, &task.id)
    };
    let failed = AgentRunRecord {
        run_valid: false,
        invalid_reason: Some(AgentRunInvalidReason::TurnFailed),
        ..synthetic_record(AgentArm::Vanilla, &task.id)
    };
    let report = build_report(vec![
        compare_task(&task, &ok, &limited),
        compare_task(&task, &ok, &ok),
        compare_task(&task, &failed, &ok),
        compare_task(&task, &ok, &limited),
    ]);
    assert_eq!(report.summary.total_pairs, 4);
    assert_eq!(report.summary.invalid_pairs, 3);
    assert_eq!(report.summary.valid_pairs, 1);
    assert_eq!(
        report.summary.invalid_reason_counts,
        vec![
            ("pair_invalid:invalid|provider_usage_limit".to_string(), 2),
            ("pair_invalid:turn_failed|invalid".to_string(), 1),
        ]
    );
    let text = render_agent_eval_human(&report);
    assert!(text.starts_with("Valid comparisons: 1/4\nInvalid reasons: pair_invalid:invalid|provider_usage_limit=2, pair_invalid:turn_failed|invalid=1\n"));
    assert!(text.contains("invalid: RI provider_usage_limit"), "{text}");
    assert!(text.contains("invalid: vanilla turn_failed"), "{text}");
}

#[test]
fn render_exact_single_pair_tables() {
    let task = calculator_task();
    let vanilla = AgentRunRecord {
        changed_files: vec!["src/calculator.py".to_string()],
        turn_count: Some(4),
        duration_ms: Some(4_200),
        ..synthetic_record(AgentArm::Vanilla, &task.id)
    };
    let treatment = AgentRunRecord {
        changed_files: vec!["src/calculator.py".to_string()],
        turn_count: Some(2),
        duration_ms: Some(605_000),
        harness_context_visible: true,
        ..synthetic_record(AgentArm::RepoIntelligence, &task.id)
    };
    let report = build_report(vec![compare_task(&task, &vanilla, &treatment)]);
    let text = render_agent_eval_human(&report);
    let expected = "Valid comparisons: 1/1\n\
\n\
==== Main ====\n\
\n\
== uncategorized ==\n\
Task           | Valid? | RI visible? | Edit targets V/RI | Orient. touched V/RI | Extra files V/RI | Turns V/RI | Time V/RI   | Result               \n\
-------------- | ------ | ----------- | ----------------- | -------------------- | ---------------- | ---------- | ----------- | ---------------------\n\
calculator_fix | valid  | yes         | 1/1 vs 1/1        | 0/0                  | 0/0              | 4/2        | 4.2s/10m05s | ri_better:fewer_turns\n\
Group: uncategorized \u{2014} 1 ri_better / 0 ri_worse / 0 tie / 0 excluded\n\
\n\
==== Cost ====\n\
\n\
== uncategorized ==\n\
Task           | Tokens V/RI | Token \u{394}  | Tool calls V/RI | Discover V/RI | Read V/RI | Edit V/RI | Verify V/RI\n\
-------------- | ----------- | -------- | --------------- | ------------- | --------- | --------- | -----------\n\
calculator_fix | \u{2014}/\u{2014}         | \u{2014}        | \u{2014}/\u{2014}             | \u{2014}/\u{2014}           | \u{2014}/\u{2014}       | \u{2014}/\u{2014}       | \u{2014}/\u{2014}        ";
    assert_eq!(text, expected);
}

#[test]
fn noise_paths_and_filtering() {
    assert!(is_agent_eval_noise_path("   "));
    assert!(is_agent_eval_noise_path("a/b.pyc"));
    assert!(is_agent_eval_noise_path("x/__pycache__/y"));
    assert!(is_agent_eval_noise_path(".pytest_cache/v"));
    assert!(!is_agent_eval_noise_path("src/pycache.rs"));
    let kept = filter_scoring_changed_files(&[
        "src/a.rs".to_string(),
        "b.pyc".to_string(),
        "src/c.rs".to_string(),
    ]);
    assert_eq!(kept, vec!["src/a.rs".to_string(), "src/c.rs".to_string()]);
}

#[test]
fn git_diff_lines_are_trimmed_and_blank_lines_dropped() {
    assert_eq!(
        changed_files_from_git_diff("  a.rs \n\n b/c.rs\r\n   \n"),
        vec!["a.rs".to_string(), "b/c.rs".to_string()]
    );
    assert!(changed_files_from_git_diff("").is_empty());
}

#[test]
fn normalize_handles_backslashes_and_repeated_prefixes() {
    assert_eq!(normalize_agent_eval_path("  ./././a\\b.rs "), "a/b.rs");
    assert_eq!(normalize_agent_eval_path("codex-rs/codex-rs/x.rs"), "x.rs");
    assert_eq!(normalize_agent_eval_path("   "), "");
    assert_eq!(normalize_agent_eval_path("/w/codex-rs/codex-rs/y.rs"), "codex-rs/y.rs");
}

#[test]
fn shell_phase_other_edges() {
    assert_eq!(classify_shell_phase("sed -n 1,5p foo.rs"), "other");
    assert_eq!(classify_shell_phase("awk '{x}' f"), "other");
    assert_eq!(classify_shell_phase("awk -i inplace '{x}' f"), "edit");
    assert_eq!(classify_shell_phase("echo hi"), "other");
    assert_eq!(classify_shell_phase("git log -p"), "verify");
    assert_eq!(classify_shell_phase("git ls-files"), "discover");
    assert_eq!(classify_shell_phase("git commit"), "other");
    assert_eq!(classify_shell_phase("diff a b"), "verify");
    assert_eq!(classify_shell_phase("rg --context 2 x"), "verify");
    assert_eq!(classify_shell_phase(""), "other");
    assert_eq!(classify_shell_phase("bash -c \"tail -f log\""), "read");
}

#[test]
fn loaded_tasks_get_default_ids_and_normalized_paths() {
    let mut unnamed = calculator_task();
    unnamed.id = String::new();
    unnamed.relevant_files = vec!["codex-rs/cli/src/a.rs".to_string(), "  ".to_string()];
    unnamed.bridge_files = vec!["./cli/src/main.rs".to_string()];
    unnamed.danger_zones = vec!["/tmp/wt/codex-rs/core/src/lib.rs".to_string()];
    let named = calculator_task();
    let prepared = prepare_agent_eval_tasks(vec![named, unnamed]);
    assert_eq!(prepared[0].id, "calculator_fix");
    assert_eq!(prepared[0].relevant_files, vec!["src/calculator.py".to_string()]);
    assert_eq!(prepared[1].id, "task_1");
    assert_eq!(prepared[1].relevant_files, vec!["cli/src/a.rs".to_string()]);
    assert_eq!(prepared[1].bridge_files, vec!["cli/src/main.rs".to_string()]);
    assert_eq!(prepared[1].danger_zones, vec!["core/src/lib.rs".to_string()]);
    assert_eq!(prepared[1].relevant_tests, vec!["tests/test_calculator.py".to_string()]);
}

#[test]
fn compare_vanilla_vs_harness_on_synthetic_records() {
    let task = calculator_task();
    let vanilla = AgentRunRecord {
        tests_passed: false,
        turn_count: Some(4),
        exec_exit_code: Some(1),
        ..synthetic_record(AgentArm::Vanilla, &task.id)
    };
    let harness = AgentRunRecord {
        changed_files: vec!["src/calculator.py".to_string()],
        tests_passed: true,
        turn_count: Some(2),
        exec_exit_code: Some(0),
        ..synthetic_record(AgentArm::Harness, &task.id)
    };
    let row = compare_task(&task, &vanilla, &harness);
    assert_eq!(row.treatment_arm, AgentArm::Harness);
    assert_eq!(row.vanilla.tests_passed, false);
    assert_eq!(row.treatment.tests_passed, true);
    assert_eq!(row.treatment.unnecessary_files_changed, Vec::<String>::new());
    assert_eq!(row.result.slug(), "ri_better:file_targeting");
}

#[test]
fn report_renders_human_summary_with_main_and_cost_tables() {
    let task = calculator_task();
    let vanilla = AgentRunRecord {
        tests_passed: false,
        turn_count: Some(3),
        exec_exit_code: Some(1),
        tokens_input: Some(800),
        tokens_output: Some(200),
        tokens_total: Some(1000),
        ..synthetic_record(AgentArm::Vanilla, &task.id)
    };
    let harness = AgentRunRecord {
        changed_files: vec!["src/calculator.py".to_string()],
        tests_passed: true,
        turn_count: Some(2),
        exec_exit_code: Some(0),
        harness_context_visible: true,
        tokens_input: Some(900),
        tokens_output: Some(150),
        tokens_total: Some(1050),
        ..synthetic_record(AgentArm::Harness, &task.id)
    };
    let report = build_report(vec![compare_task(&task, &vanilla, &harness)]);
    let text = render_agent_eval_human(&report);
    for column in [
        "Task",
        "Valid?",
        "RI visible?",
        "Edit targets V/RI",
        "Orient. touched V/RI",
        "Extra files V/RI",
        "Turns V/RI",
        "Tokens V/RI",
        "Result",
    ] {
        assert!(text.contains(column), "missing column `{column}`:\n{text}");
    }
    assert!(text.contains("calculator_fix"), "{text}");
    assert!(text.contains("0/1 vs 1/1"), "edit targets column missing:\n{text}");
    assert!(text.contains("3/2"), "turns column missing:\n{text}");
    assert!(text.contains("1000/1050"), "tokens column missing:\n{text}");
    assert!(text.contains("ri_better:file_targeting"), "result column missing:\n{text}");
}
