use context_harness::harness::prompt_paths::{compare_prompt_paths, extract_paths_from_prompt_json};

#[test]
fn extracts_paths_from_prompt_input_json() {
    let json = r#"[
      {"type":"message","role":"user","content":[{"type":"input_text","text":"See backend/routes/restaurants.py for details"}]}
    ]"#;
    let paths = extract_paths_from_prompt_json(json);
    assert!(paths.contains(&"backend/routes/restaurants.py".to_string()));
}

#[test]
fn extracts_paths_from_prompt_context_punctuation() {
    let json = r#"[
      {"type":"message","role":"user","content":[{"type":"input_text","text":"<cwd>/tmp/work/repo</cwd> Review `core/src/prompt_debug.rs`, then cli/src/context_cmd.rs."}]}
    ]"#;
    let paths = extract_paths_from_prompt_json(json);
    assert!(paths.contains(&"/tmp/work/repo".to_string()));
    assert!(paths.contains(&"core/src/prompt_debug.rs".to_string()));
    assert!(paths.contains(&"cli/src/context_cmd.rs".to_string()));
}

#[test]
fn extracted_paths_are_sorted_and_distinct() {
    let json = r#"{"b":"src/z.rs src/a.rs","a":["src/a.rs",{"deep":"docs/x.md\nhttp://example.com/a"}],"n":3}"#;
    let paths = extract_paths_from_prompt_json(json);
    assert_eq!(
        paths,
        vec!["docs/x.md".to_string(), "src/a.rs".to_string(), "src/z.rs".to_string()]
    );
}

#[test]
fn text_that_is_not_json_has_no_paths() {
    assert!(extract_paths_from_prompt_json("src/a.rs is here").is_empty());
    assert!(extract_paths_from_prompt_json("").is_empty());
}

#[test]
fn prompt_path_sets_compare_by_membership() {
    let harness = vec!["a.rs".to_string(), "b.rs".to_string(), "c.rs".to_string()];
    let vanilla = vec!["b.rs".to_string(), "d.rs".to_string()];
    let cmp = compare_prompt_paths(&harness, &vanilla);
    assert_eq!(cmp.overlap, vec!["b.rs".to_string()]);
    assert_eq!(cmp.harness_only, vec!["a.rs".to_string(), "c.rs".to_string()]);
    assert_eq!(cmp.vanilla_only, vec!["d.rs".to_string()]);
}
