use context_harness::harness::task_terms::{
    assemble_task_terms, count_term_matches, is_penalty_path, is_scoring_term, path_matches_term,
    path_prefixes, split_identifier, split_inside_outside_quotes, task_mentions_path_marker, task_targets_crate,
    task_term_parts, TaskTerms,
};

/// Task terms with no inferred areas, as an empty repository map yields.
fn build_task_terms(task: &str) -> TaskTerms {
    assemble_task_terms(task_term_parts(task), Vec::new())
}

#[test]
fn expands_harness_eval_synonyms() {
    let terms = build_task_terms("improve context harness eval fixture metrics");
    assert!(terms.expanded.iter().any(|t| t == "metrics"));
    assert!(terms.expanded.iter().any(|t| t == "fixtures"));
}

#[test]
fn matches_kebab_path_segments() {
    assert!(path_matches_term("context-harness/src/eval.rs", "eval"));
    assert!(path_matches_term(
        "context-harness/tests/fixtures/tasks_codex_live.json",
        "harness"
    ));
}

#[test]
fn short_terms_require_segment_boundaries() {
    assert!(!path_matches_term(
        "app-server-protocol/schema/json/DynamicToolCallParams.json",
        "context"
    ));
    assert!(path_matches_term("context-harness/src/eval.rs", "context"));
}

#[test]
fn repo_intelligence_extension_prefers_cross_area_ids() {
    let terms = build_task_terms("wire repo intelligence extension into session prompt assembly");
    assert_eq!(
        terms.likely_areas.first().map(String::as_str),
        Some("ext/repo-intelligence")
    );
    assert!(terms.likely_areas.iter().any(|area| area == "app-server"));
}

#[test]
fn agent_eval_scoring_prefers_harness_and_cli() {
    let terms = build_task_terms(
        "extend agent-eval scoring to support repo_intelligence session-injection arms",
    );
    assert_eq!(
        terms.likely_areas.first().map(String::as_str),
        Some("context-harness")
    );
    assert!(terms.likely_areas.iter().any(|area| area == "cli"));
}

#[test]
fn quoted_terms_kept_in_phrases_but_excluded_from_strong_phrases() {
    let terms = build_task_terms(
        "Inside the verification crate, map prefixes (like `\"cli\"`) to packages",
    );
    assert!(terms.phrases.iter().any(|p| p == "verification"));
    assert!(terms.phrases.iter().any(|p| p == "cli"));
    assert!(terms.strong_phrases.iter().any(|p| p == "verification"));
    assert!(!terms.strong_phrases.iter().any(|p| p == "cli"));
}

#[test]
fn task_outside_quotes_lower_strips_backticked_and_double_quoted_spans() {
    let terms = build_task_terms(
        "Inside the verification crate, map prefixes (like `\"cli\"`) to \
         package names (like `\"codex-cli\"`). Add an entry for \
         `\"protocol\"` → `\"codex-protocol\"`.",
    );
    let scan = &terms.task_outside_quotes_lower;
    assert!(scan.contains("verification"), "{scan}");
    assert!(!scan.contains("cli"), "{scan}");
    assert!(!scan.contains("codex-protocol"), "{scan}");
}

#[test]
fn term_appearing_both_inside_and_outside_quotes_is_strong() {
    let terms = build_task_terms("update the cli crate; example flag `cli --json`");
    assert!(terms.strong_phrases.iter().any(|p| p == "cli"));
}

#[test]
fn phrases_hold_identifier_words_and_singulars() {
    let terms = build_task_terms("Fix ParseDirectiveFileLists handlers quickly");
    let expected: Vec<String> = [
        "fix",
        "handler",
        "handlers",
        "parsedirectivefilelist",
        "parsedirectivefilelists",
        "quickly",
    ]
    .iter()
    .map(|s| s.to_string())
    .collect();
    assert_eq!(terms.phrases, expected);
    assert_eq!(terms.strong_phrases, expected);
    assert!(terms.expanded.iter().any(|t| t == "layer"));
    assert!(terms.expanded.iter().any(|t| t == "middleware"));
    assert!(terms.likely_areas.is_empty());
}

#[test]
fn post_failure_report_prefers_harness_then_verification() {
    let parts = task_term_parts("post failure report for the run");
    let terms = assemble_task_terms(
        parts,
        vec![
            "core".to_string(),
            "verification".to_string(),
            "tui".to_string(),
            "cli".to_string(),
        ],
    );
    assert_eq!(
        terms.likely_areas,
        vec![
            "context-harness".to_string(),
            "core".to_string(),
            "verification".to_string()
        ]
    );
}

#[test]
fn harness_crate_tasks_drop_apply_patch_areas() {
    let parts = task_term_parts("tune the context harness budget");
    let terms = assemble_task_terms(
        parts,
        vec!["apply-patch".to_string(), "apply-patch/src".to_string(), "core".to_string()],
    );
    assert_eq!(
        terms.likely_areas,
        vec!["context-harness".to_string(), "core".to_string()]
    );
}

#[test]
fn identifier_split_and_quotes() {
    let words: Vec<String> = split_identifier(&"HTTPServerConfig2Load".chars().collect::<Vec<_>>())
        .into_iter()
        .map(|w| w.into_iter().collect())
        .collect();
    assert_eq!(words, vec!["http", "server", "config2", "load"]);
    let (outside, inside) = split_inside_outside_quotes("a `b` \"c\" d `e");
    assert_eq!(outside, "a   d ");
    assert_eq!(inside, "bce");
}

#[test]
fn scoring_terms_and_match_counts() {
    assert!(!is_scoring_term("Codex"));
    assert!(!is_scoring_term("FIX"));
    assert!(is_scoring_term("harness"));
    assert!(!path_matches_term("codex-rs/src/lib.rs", "codex"));
    assert!(!path_matches_term("src/TaskTerms.rs", "terms"));
    assert!(path_matches_term("src/task_terms.rs", "terms"));
    assert!(path_matches_term("src/handler.rs", "handlers"));
    assert!(path_matches_term("src/handlers.rs", "handler"));
    assert!(!path_matches_term("src/ab.rs", "ab"));
    let terms = vec![
        "eval".to_string(),
        "harness".to_string(),
        "eval".to_string(),
        "fix".to_string(),
        "context".to_string(),
    ];
    assert_eq!(count_term_matches("context-harness/src/eval.rs", &terms), 3);
    assert_eq!(count_term_matches("core/src/fix.rs", &terms), 0);
}

#[test]
fn penalty_and_marker_paths() {
    let terms = build_task_terms("update the scoring docs");
    assert!(!is_penalty_path("README.md", &terms));
    let plain = build_task_terms("update the scoring");
    assert!(is_penalty_path("README.md", &plain));
    assert!(!is_penalty_path("AGENTS.md", &plain));
    assert!(is_penalty_path("src/Fixtures/x.rs", &plain));
    assert!(!is_penalty_path("src/x.rs", &plain));
    let terms = build_task_terms("agent_eval scoring");
    assert!(task_mentions_path_marker("Context-Harness/src/agent-eval.rs", &terms));
    assert!(!task_mentions_path_marker("core/src/lib.rs", &terms));
    assert!(task_targets_crate(
        &["context".to_string(), "harness".to_string()],
        "context-harness"
    ));
    assert!(!task_targets_crate(&["context".to_string()], "context-harness"));
}

#[test]
fn path_prefixes_stop_at_max_depth() {
    assert_eq!(
        path_prefixes("codex-rs/core/src/lib.rs", 3),
        vec!["codex-rs", "codex-rs/core", "codex-rs/core/src"]
    );
    assert_eq!(path_prefixes("/a//b/", 5), vec!["a", "a/b"]);
    assert!(path_prefixes("", 2).is_empty());
}

#[test]
fn strong_phrases_split_at_quoted_spans_inside_words() {
    let parts = task_term_parts("con`x`text renames \"quoted\" files");
    assert!(parts.strong_phrases.iter().all(|p| parts.phrases.contains(p)));
    assert!(!parts.strong_phrases.contains(&"context".to_string()));
    assert!(!parts.strong_phrases.contains(&"quoted".to_string()));
    assert!(parts.strong_phrases.contains(&"con".to_string()));
    assert!(parts.strong_phrases.contains(&"text".to_string()));
    assert!(parts.strong_phrases.contains(&"renames".to_string()));
    assert_eq!(parts.task_outside_quotes_lower, "context renames  files");
}
