use context_harness::harness::post_failure::{
    cap_prompt_text, render_post_failure_prompt_fragment, PostFailureContext,
    MAX_POST_FAILURE_PROMPT_OUTPUT_CHARS,
};
use context_harness::harness::renderer::{
    infer_area_from_included, shorten_for_prompt, ContextPacketRenderer, PromptFile, PromptPacket,
    EDIT_TARGETS_HEADER, HARNESS_MARKER, ORIENTATION_HEADER, SCOPE_CONSTRAINT,
};
use context_harness::harness::repair_hint::infer_repair_hint;

fn file(path: &str, reason: &str) -> PromptFile {
    PromptFile {
        path: path.to_string(),
        reason: reason.to_string(),
    }
}

fn make_packet(files: Vec<PromptFile>) -> PromptPacket {
    let included = files.iter().map(|f| f.path.clone()).collect();
    PromptPacket {
        task: "fix it".to_string(),
        files,
        warnings: Vec::new(),
        included_paths: included,
    }
}

#[test]
fn fragment_splits_top_scored_into_edit_targets_and_rest_into_orientation() {
    let packet = make_packet(vec![
        file("src/a.rs", "primary owner of change"),
        file("src/b.rs", "registration path"),
        file("src/c.rs", "similar pattern"),
    ]);
    let fragment = ContextPacketRenderer::render_prompt_fragment(&packet);
    let edit_pos = fragment.find(EDIT_TARGETS_HEADER).expect("edit header");
    let orient_pos = fragment.find(ORIENTATION_HEADER).expect("orientation header");
    assert!(edit_pos < orient_pos);
    let edit_block = &fragment[edit_pos..orient_pos];
    assert!(edit_block.contains("src/a.rs"));
    assert!(!edit_block.contains("src/b.rs"));
    assert!(!edit_block.contains("src/c.rs"));
    let orient_block = &fragment[orient_pos..];
    assert!(orient_block.contains("src/b.rs"));
    assert!(orient_block.contains("src/c.rs"));
    assert!(orient_block.contains("\n1. src/b.rs"));
    assert!(fragment.contains(SCOPE_CONSTRAINT));
}

#[test]
fn fragment_with_single_file_emits_no_orientation_section() {
    let packet = make_packet(vec![file("src/a.rs", "owner")]);
    let fragment = ContextPacketRenderer::render_prompt_fragment(&packet);
    assert!(fragment.contains(EDIT_TARGETS_HEADER));
    assert!(!fragment.contains(ORIENTATION_HEADER));
    assert!(fragment.contains(SCOPE_CONSTRAINT));
}

#[test]
fn caps_max_edit_targets_controls_section_split() {
    let packet = make_packet(vec![
        file("src/a.rs", "first"),
        file("src/b.rs", "second"),
        file("src/c.rs", "third"),
    ]);
    let fragment = ContextPacketRenderer::render_prompt_fragment_with_caps(&packet, 8, 2);
    let edit_pos = fragment.find(EDIT_TARGETS_HEADER).unwrap();
    let orient_pos = fragment.find(ORIENTATION_HEADER).unwrap();
    let edit_block = &fragment[edit_pos..orient_pos];
    let orient_block = &fragment[orient_pos..];
    assert!(edit_block.contains("src/a.rs"));
    assert!(edit_block.contains("src/b.rs"));
    assert!(!edit_block.contains("src/c.rs"));
    assert!(orient_block.contains("src/c.rs"));
}

#[test]
fn parse_directive_file_lists_recovers_paths_from_rendered_fragment() {
    let packet = make_packet(vec![
        file("src/a.rs", "primary"),
        file("src/b.rs", "registration"),
        file("src/c.rs", "similar pattern"),
    ]);
    let fragment = ContextPacketRenderer::render_prompt_fragment(&packet);
    let (edit, orient) = ContextPacketRenderer::parse_directive_file_lists(&fragment);
    assert_eq!(edit, vec!["src/a.rs".to_string()]);
    assert_eq!(orient, vec!["src/b.rs".to_string(), "src/c.rs".to_string()]);
}

#[test]
fn fragment_exact_text_and_caps() {
    let mut packet = make_packet(
        (0..7)
            .map(|i| file(&format!("a/f{i}.rs"), "r"))
            .collect(),
    );
    packet.included_paths = vec!["b/x.rs".into(), "a/y.rs".into(), "b/z.rs".into()];
    let fragment = ContextPacketRenderer::render_prompt_fragment(&packet);
    let expected = format!(
        "{HARNESS_MARKER}\nUse this as task-routing guidance before editing.\n\nTask: fix it\n\n\
{EDIT_TARGETS_HEADER}\n1. a/f0.rs \u{2014} r\n\n{ORIENTATION_HEADER}\n1. a/f1.rs \u{2014} r\n\
2. a/f2.rs \u{2014} r\n3. a/f3.rs \u{2014} r\n4. a/f4.rs \u{2014} r\n\n{SCOPE_CONSTRAINT}\n\nLikely area: b"
    );
    assert_eq!(fragment, expected);
    packet.warnings = vec!["note".into(), "Likely area: core".into()];
    let fragment = ContextPacketRenderer::render_prompt_fragment_with_caps(&packet, 0, 1);
    assert_eq!(
        fragment,
        format!(
            "{HARNESS_MARKER}\nUse this as task-routing guidance before editing.\n\nTask: fix it\n\nLikely area: core"
        )
    );
}

#[test]
fn area_inference_prefers_most_files_then_greatest_name() {
    let v = |xs: &[&str]| xs.iter().map(|s| s.to_string()).collect::<Vec<_>>();
    assert_eq!(infer_area_from_included(&v(&[])), None);
    assert_eq!(
        infer_area_from_included(&v(&["a/1", "b/2", "a/3"])).as_deref(),
        Some("a")
    );
    assert_eq!(
        infer_area_from_included(&v(&["a/1", "b/2"])).as_deref(),
        Some("b")
    );
    assert_eq!(infer_area_from_included(&v(&["top"])).as_deref(), Some("top"));
}

#[test]
fn shorten_for_prompt_cuts_with_ellipsis() {
    assert_eq!(shorten_for_prompt("abcdef", 6), "abcdef");
    assert_eq!(shorten_for_prompt("abcdef", 5), "ab...");
    assert_eq!(shorten_for_prompt("abcdef", 3), "abc");
    assert_eq!(shorten_for_prompt("ééééé", 4), "é...");
}

fn failure() -> PostFailureContext {
    PostFailureContext {
        task: "fix metrics".to_string(),
        changed_files: vec!["context-harness/src/metrics.rs".to_string()],
        failed_command: "cargo test -p codex-context-harness".to_string(),
        run_reason: "changed file belongs to context-harness crate".to_string(),
        failure_summary: "cargo test -p codex-context-harness failed".to_string(),
        relevant_output: "error: assertion failed".to_string(),
        repair_hint: infer_repair_hint(
            "error: assertion failed",
            &["context-harness/src/metrics.rs".to_string()],
            "cargo test -p codex-context-harness",
        ),
    }
}

#[test]
fn post_failure_prompt_includes_failure_block_not_decision_log() {
    let failure = failure();
    let packet = make_packet(vec![file("context-harness/src/metrics.rs", "owned file")]);
    let fragment = render_post_failure_prompt_fragment(&packet, &failure);
    assert!(fragment.contains("Verification failed:"));
    assert!(fragment.contains("cargo test -p codex-context-harness"));
    assert!(fragment.contains("Changed files:"));
    assert!(fragment.contains("error: assertion failed"));
    assert!(fragment.contains("Repair hint:"));
    assert!(fragment.contains("test_assertion_failure"));
    assert!(!fragment.contains("Dropped:"));
    assert!(!fragment.contains("Budget exhausted:"));
    assert!(fragment.contains(HARNESS_MARKER));
}

#[test]
fn capped_output_recomputes_the_hint() {
    assert_eq!(cap_prompt_text("abc", 3), "abc");
    assert_eq!(
        cap_prompt_text("abcdef", 2),
        "ab\n\u{2026} [truncated, 4 chars omitted]"
    );
    assert_eq!(MAX_POST_FAILURE_PROMPT_OUTPUT_CHARS, 6_000);
    let mut f = failure();
    f.relevant_output = "ok ok ok\nerror[E0425]: cannot find value".to_string();
    let capped = f.clone().with_capped_output(8);
    assert_eq!(capped.relevant_output, "ok ok ok\n\u{2026} [truncated, 32 chars omitted]");
    assert_eq!(
        capped.repair_hint.likely_failure_type,
        context_harness::harness::repair_hint::FailureType::Unknown
    );
    let full = f.with_capped_output(1_000);
    assert_eq!(
        full.repair_hint.likely_failure_type,
        context_harness::harness::repair_hint::FailureType::CompileError
    );
}

#[test]
fn rendered_lists_read_back_with_caps_and_likely_area() {
    let mut packet = make_packet(vec![
        file("src/a.rs", "primary"),
        file("src/b.rs", "registration"),
        file("src/c.rs", "similar pattern"),
        file("src/d.rs", "tests"),
    ]);
    packet.warnings = vec!["Likely area: src".to_string()];
    let fragment = ContextPacketRenderer::render_prompt_fragment_with_caps(&packet, 3, 2);
    let (edit, orient) = ContextPacketRenderer::parse_directive_file_lists(&fragment);
    assert_eq!(edit, vec!["src/a.rs".to_string(), "src/b.rs".to_string()]);
    assert_eq!(orient, vec!["src/c.rs".to_string()]);
    assert!(fragment.ends_with("Likely area: src"));
}

#[test]
fn inspect_list_is_capped_at_five_and_by_the_caller() {
    let files: Vec<PromptFile> = (0..8)
        .map(|i| file(&format!("src/f{i}.rs"), "candidate"))
        .collect();
    let packet = make_packet(files);
    let count = |fragment: &str| {
        fragment
            .lines()
            .filter(|line| {
                line.chars().next().is_some_and(|c| c.is_ascii_digit())
                    && line.contains(". ")
                    && line.contains(" — ")
            })
            .count()
    };
    let wide = ContextPacketRenderer::render_prompt_fragment_with_caps(&packet, 50, 3);
    assert_eq!(count(&wide), ContextPacketRenderer::MAX_INSPECT_FILES);
    let (edit, orient) = ContextPacketRenderer::parse_directive_file_lists(&wide);
    assert_eq!(edit.len() + orient.len(), 5);
    let narrow = ContextPacketRenderer::render_prompt_fragment_with_caps(&packet, 1, 3);
    assert_eq!(count(&narrow), 1);
}

#[test]
fn file_lists_read_back_with_em_dashes_padded_reasons_and_carriage_returns() {
    let packet = make_packet(vec![
        file("docs/a—b.md", "  leading blanks"),
        file("src/c\rd.rs", "ends in a carriage return\r"),
        file("src/e.rs", "\tx"),
    ]);
    let fragment = ContextPacketRenderer::render_prompt_fragment_with_caps(&packet, 8, 1);
    let (edit, orient) = ContextPacketRenderer::parse_directive_file_lists(&fragment);
    assert_eq!(edit, vec!["docs/a—b.md".to_string()]);
    assert_eq!(orient, vec!["src/c\rd.rs".to_string(), "src/e.rs".to_string()]);
}
