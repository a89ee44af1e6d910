use context_harness::harness::renderer::{
    ContextPacketRenderer, EDIT_TARGETS_HEADER, HARNESS_MARKER, ORIENTATION_HEADER,
    SCOPE_CONSTRAINT,
};

#[test]
fn parse_directive_file_lists_returns_empty_for_non_ri_prompts() {
    let prompt = "Just a plain task description with no harness marker.";
    let (edit, orient) = ContextPacketRenderer::parse_directive_file_lists(prompt);
    assert!(edit.is_empty());
    assert!(orient.is_empty());
}

#[test]
fn parse_directive_file_lists_handles_legacy_single_section_fragment() {
    let legacy = format!(
        "{HARNESS_MARKER}\n\
         Before editing, inspect these files first:\n\
         1. src/a.rs — reason\n\
         2. src/b.rs — reason\n"
    );
    let (edit, orient) = ContextPacketRenderer::parse_directive_file_lists(&legacy);
    assert!(edit.is_empty());
    assert!(orient.is_empty());
}

#[test]
fn parse_directive_file_lists_reads_both_sections() {
    let fragment = format!(
        "{HARNESS_MARKER}\nUse this as task-routing guidance before editing.\n\nTask: fix it\n\n\
{EDIT_TARGETS_HEADER}\n1. src/a.rs — primary owner\n\n{ORIENTATION_HEADER}\n1. src/b.rs — registration\n\
2. src/c.rs — similar pattern\n\n{SCOPE_CONSTRAINT}\n\nLikely area: src"
    );
    let (edit, orient) = ContextPacketRenderer::parse_directive_file_lists(&fragment);
    assert_eq!(edit, vec!["src/a.rs".to_string()]);
    assert_eq!(orient, vec!["src/b.rs".to_string(), "src/c.rs".to_string()]);
}

#[test]
fn parse_directive_file_lists_ignores_malformed_entries_and_closed_sections() {
    let fragment = format!(
        "{HARNESS_MARKER}\n{EDIT_TARGETS_HEADER}\n  12. spaced/path.rs   — why  \n1.nospace — x\n3. after_close.rs — y\n"
    );
    let (edit, orient) = ContextPacketRenderer::parse_directive_file_lists(&fragment);
    assert_eq!(edit, vec!["spaced/path.rs".to_string()]);
    assert!(orient.is_empty());
    let fragment = format!("{HARNESS_MARKER}\n{EDIT_TARGETS_HEADER}\n1. no_separator.rs\n2.  — empty\n");
    let (edit, _) = ContextPacketRenderer::parse_directive_file_lists(&fragment);
    assert_eq!(edit, vec!["no_separator.rs".to_string()]);
    assert_eq!(ContextPacketRenderer::MAX_INSPECT_FILES, 5);
}
