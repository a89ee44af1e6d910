use context_harness::harness::debug_view::{prompt_warning_count, DebugPacket, LogEntry};
use context_harness::harness::packet::ContextStage;
use context_harness::harness::renderer::ContextPacketRenderer;

fn entry(path: Option<&str>, reason: &str) -> LogEntry {
    LogEntry { path: path.map(str::to_string), reason: reason.to_string() }
}

fn packet() -> DebugPacket {
    DebugPacket {
        version: 1,
        task: "fix search".to_string(),
        task_type: "bugfix".to_string(),
        confidence: "0.80".to_string(),
        stage: ContextStage::Preflight,
        used_estimate: 120,
        limit: 12000,
        included: vec![entry(Some("src/a.rs"), "term match")],
        dropped: vec![entry(None, "low relevance")],
        budget_exhausted: Vec::new(),
        low_confidence: Vec::new(),
    }
}

#[test]
fn debug_view_lists_header_included_and_dropped() {
    let text = ContextPacketRenderer::render_human_debug(&packet());
    assert_eq!(
        text,
        "Context packet v1\nTask: fix search [bugfix] (confidence 0.80)\nStage: Preflight\nToken budget: 120/12000\nIncluded items: 1 | dropped: 1 | budget exhausted: 0 | low confidence: 0\n\nIncluded:\n  + src/a.rs: term match\n\nDropped:\n  - -: low relevance"
    );
}

#[test]
fn debug_view_adds_optional_sections_when_non_empty() {
    let mut p = packet();
    p.stage = ContextStage::PostFailure;
    p.budget_exhausted = vec![entry(Some("src/b.rs"), "over budget")];
    p.low_confidence = vec![entry(Some("src/c.rs"), "weak")];
    let text = ContextPacketRenderer::render_human_debug(&p);
    assert!(text.contains("Stage: PostFailure"));
    assert!(text.ends_with("\n\nBudget exhausted:\n  ! src/b.rs: over budget\n\nLow confidence:\n  ? src/c.rs: weak"));
}

#[test]
fn routing_warnings_do_not_count_toward_the_prompt() {
    let warnings = vec![
        "Likely area: context-harness".to_string(),
        "Matched CLI command: context eval".to_string(),
        "Low confidence in area".to_string(),
    ];
    assert_eq!(prompt_warning_count(&warnings), 1);
    assert_eq!(prompt_warning_count(&Vec::new()), 0);
}
