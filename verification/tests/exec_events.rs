use context_harness::harness::exec_events::{
    count_activity_from_exec_jsonl, count_turns_from_exec_jsonl, intent_changed_files_from_exec_jsonl,
    rollout_carries_harness_directive, token_usage_from_exec_jsonl, AgentActivityCounts,
    EventStreamError,
};

#[test]
fn counts_turns_from_jsonl() {
    let jsonl = r#"{"type":"thread.started","thread_id":"t1"}
{"type":"turn.started"}
{"type":"turn.completed","usage":{}}
{"type":"turn.started"}
{"type":"turn.failed","error":{"message":"x"}}"#;
    assert_eq!(count_turns_from_exec_jsonl(jsonl.as_bytes()).unwrap(), 2);
}

#[test]
fn token_usage_sums_input_and_output_across_turns() {
    let jsonl = r#"{"type":"thread.started","thread_id":"t1"}
{"type":"turn.completed","usage":{"input_tokens":1200,"cached_input_tokens":200,"output_tokens":300,"reasoning_output_tokens":40}}
{"type":"turn.completed","usage":{"input_tokens":150,"output_tokens":50}}"#;
    let totals = token_usage_from_exec_jsonl(jsonl.as_bytes())
        .unwrap()
        .expect("expected token totals when turn.completed events are present");
    assert_eq!(totals.input_tokens, 1350);
    assert_eq!(totals.output_tokens, 350);
    assert_eq!(totals.total_tokens, 1700);
}

#[test]
fn token_usage_is_none_when_no_turn_completed_event() {
    let jsonl = r#"{"type":"thread.started","thread_id":"t1"}
{"type":"turn.started"}
{"type":"turn.failed","error":{"message":"provider unavailable"}}"#;
    assert_eq!(
        token_usage_from_exec_jsonl(jsonl.as_bytes()).unwrap(),
        None,
        "missing turn.completed must surface as None, not Some(0)"
    );
}

#[test]
fn count_activity_from_exec_jsonl_tallies_tool_shell_phases_and_reads() {
    let jsonl = r#"{"type":"thread.started","thread_id":"t"}
{"type":"item.completed","item":{"type":"command_execution","command":"/bin/zsh -lc 'find . -name *.rs'"}}
{"type":"item.completed","item":{"type":"command_execution","command":"/bin/zsh -lc 'grep -n pattern foo.rs'"}}
{"type":"item.completed","item":{"type":"command_execution","command":"/bin/zsh -lc 'cat README.md'"}}
{"type":"item.completed","item":{"type":"command_execution","command":"/bin/zsh -lc 'sed -i \"\" 1d foo.rs'"}}
{"type":"item.completed","item":{"type":"agent_message","text":"done"}}
{"type":"item.completed","item":{"type":"command_execution","command":"/bin/zsh -lc 'head -n 5 bar.rs'"}}
{"type":"item.completed","item":{"type":"command_execution","command":"/bin/zsh -lc 'grep -A 3 pattern foo.rs'"}}"#;
    let counts = count_activity_from_exec_jsonl(jsonl.as_bytes()).unwrap();
    assert_eq!(counts.tool_calls, 7, "every item.completed counts");
    assert_eq!(counts.shell_commands, 6, "command_execution items only");
    assert_eq!(counts.file_reads, 2, "cat + head");
    assert_eq!(counts.discover_commands, 2, "find + plain grep");
    assert_eq!(counts.edit_commands, 1, "sed -i");
    assert_eq!(counts.verify_commands, 1, "grep -A is verify");
}

#[test]
fn count_activity_counts_file_change_as_edit_not_shell() {
    let jsonl = r#"{"type":"thread.started","thread_id":"t"}
{"type":"item.completed","item":{"type":"file_change","path":"a.rs"}}
{"type":"item.completed","item":{"type":"file_change","path":"b.rs"}}
{"type":"item.completed","item":{"type":"command_execution","command":"/bin/zsh -lc 'ls'"}}
{"type":"item.completed","item":{"type":"file_change","path":"c.rs"}}"#;
    let counts = count_activity_from_exec_jsonl(jsonl.as_bytes()).unwrap();
    assert_eq!(counts.tool_calls, 4, "every item.completed counts");
    assert_eq!(
        counts.shell_commands, 1,
        "file_change must NOT inflate shell_commands"
    );
    assert_eq!(counts.edit_commands, 3, "3 file_change items → 3 edits");
    assert_eq!(counts.discover_commands, 1, "the lone `ls` is discover");
    assert_eq!(counts.file_reads, 0);
    assert_eq!(counts.verify_commands, 0);
}

#[test]
fn rollout_visibility_detects_marker_in_user_message_only() {
    let rollout = r#"{"type":"session_meta","payload":{}}
{"type":"response_item","payload":{"type":"message","role":"user","content":"Harness repo intelligence: inspect a.rs"}}
{"type":"response_item","payload":{"type":"message","role":"assistant","content":"OK"}}"#;
    assert!(rollout_carries_harness_directive(rollout));
}

#[test]
fn rollout_visibility_ignores_marker_in_function_call_output() {
    let rollout = r#"{"type":"session_meta","payload":{}}
{"type":"response_item","payload":{"type":"function_call","name":"shell","arguments":"{}"}}
{"type":"response_item","payload":{"type":"function_call_output","output":"renderer.rs:42: const HARNESS_MARKER: &str = \"Harness repo intelligence:\";"}}
{"type":"response_item","payload":{"type":"message","role":"assistant","content":"Found it in renderer.rs"}}"#;
    assert!(
        !rollout_carries_harness_directive(rollout),
        "marker appearing only in function_call_output must NOT count as visibility"
    );
}

#[test]
fn rollout_visibility_accepts_developer_role_and_content_array() {
    let rollout = r#"{"type":"response_item","payload":{"type":"message","role":"developer","content":[{"type":"input_text","text":"Harness repo intelligence: prelude"}]}}"#;
    assert!(rollout_carries_harness_directive(rollout));

    let rollout_string = r#"{"type":"response_item","payload":{"type":"message","role":"developer","content":"Harness repo intelligence: prelude"}}"#;
    assert!(rollout_carries_harness_directive(rollout_string));
}

#[test]
fn intent_changed_files_from_exec_jsonl_extracts_file_change_paths() {
    let jsonl = r#"{"type":"thread.started","thread_id":"t"}
{"type":"item.started","item":{"id":"i1","type":"file_change","changes":[{"path":"/tmp/wt/codex-rs/should/not/appear.rs","kind":"update"}]}}
{"type":"item.completed","item":{"id":"i2","type":"command_execution","command":"ls"}}
{"type":"item.completed","item":{"id":"i3","type":"file_change","changes":[{"path":"/tmp/wt/codex-rs/context-harness/src/agent_eval.rs","kind":"update"}]}}
{"type":"item.completed","item":{"id":"i4","type":"file_change","changes":[{"path":"/tmp/wt/codex-rs/scripts/harness-agent-eval.sh","kind":"update"}]}}
{"type":"item.completed","item":{"id":"i5","type":"file_change","changes":[{"path":"/tmp/wt/codex-rs/context-harness/src/agent_eval.rs","kind":"update"}]}}"#;
    let intent = intent_changed_files_from_exec_jsonl(jsonl.as_bytes()).unwrap();
    assert_eq!(
        intent,
        vec![
            "context-harness/src/agent_eval.rs".to_string(),
            "scripts/harness-agent-eval.sh".to_string(),
        ]
    );
    assert!(!intent.iter().any(|p| p.contains("should/not/appear")));
}

// ---------------------------------------------------------------------------
// Edge cases of the stream readers
// ---------------------------------------------------------------------------

#[test]
fn stream_readers_reject_bytes_that_are_not_utf8() {
    let bytes: &[u8] = &[b'{', 0xff, b'}'];
    assert_eq!(count_turns_from_exec_jsonl(bytes), Err(EventStreamError::InvalidUtf8));
    assert_eq!(token_usage_from_exec_jsonl(bytes), Err(EventStreamError::InvalidUtf8));
    assert_eq!(count_activity_from_exec_jsonl(bytes), Err(EventStreamError::InvalidUtf8));
    assert_eq!(
        intent_changed_files_from_exec_jsonl(bytes),
        Err(EventStreamError::InvalidUtf8)
    );
}

#[test]
fn strict_readers_reject_a_line_that_is_not_json() {
    let jsonl = "{\"type\":\"turn.completed\"}\nnot json\n";
    assert_eq!(
        count_turns_from_exec_jsonl(jsonl.as_bytes()),
        Err(EventStreamError::InvalidJson)
    );
    assert_eq!(
        token_usage_from_exec_jsonl(jsonl.as_bytes()),
        Err(EventStreamError::InvalidJson)
    );
    assert_eq!(
        count_activity_from_exec_jsonl(jsonl.as_bytes()),
        Err(EventStreamError::InvalidJson)
    );
}

#[test]
fn lenient_readers_skip_lines_that_are_not_json() {
    let jsonl = "garbage\n{\"type\":\"item.completed\",\"item\":{\"type\":\"file_change\",\"changes\":[{\"path\":\"codex-rs/a/b.rs\"},{\"path\":\"  \"},{\"kind\":\"add\"}]}}\n";
    assert_eq!(
        intent_changed_files_from_exec_jsonl(jsonl.as_bytes()).unwrap(),
        vec!["a/b.rs".to_string()]
    );
    let rollout = "{oops\n{\"type\":\"response_item\",\"payload\":{\"type\":\"message\",\"role\":\"developer\",\"content\":[\"Harness repo intelligence: x\"]}}";
    assert!(rollout_carries_harness_directive(rollout));
    let system = "{\"type\":\"response_item\",\"payload\":{\"type\":\"message\",\"role\":\"system\",\"content\":\"Harness repo intelligence: prelude\"}}";
    assert!(!rollout_carries_harness_directive(system));
}

#[test]
fn blank_and_padded_lines_are_read_after_trimming() {
    let jsonl = "\n   \n  {\"type\":\"turn.failed\"}  \r\n\t{\"type\":\"turn.completed\",\"usage\":{\"input_tokens\":-5,\"output_tokens\":7}}\n";
    assert_eq!(count_turns_from_exec_jsonl(jsonl.as_bytes()).unwrap(), 2);
    let totals = token_usage_from_exec_jsonl(jsonl.as_bytes()).unwrap().unwrap();
    assert_eq!(totals.input_tokens, 0, "negative counts are clamped to zero");
    assert_eq!(totals.output_tokens, 7);
    assert_eq!(totals.total_tokens, 7);
}

#[test]
fn empty_stream_counts_nothing() {
    assert_eq!(count_turns_from_exec_jsonl(b"").unwrap(), 0);
    assert_eq!(token_usage_from_exec_jsonl(b"").unwrap(), None);
    assert_eq!(
        count_activity_from_exec_jsonl(b"").unwrap(),
        AgentActivityCounts::default()
    );
    assert!(intent_changed_files_from_exec_jsonl(b"").unwrap().is_empty());
    assert!(!rollout_carries_harness_directive(""));
}

#[test]
fn rollout_requires_a_prompt_side_message_role() {
    let no_role = r#"{"type":"response_item","payload":{"type":"message","content":"Harness repo intelligence: x"}}"#;
    assert!(!rollout_carries_harness_directive(no_role));
    let not_item = r#"{"type":"event_msg","payload":{"type":"message","role":"user","content":"Harness repo intelligence: x"}}"#;
    assert!(!rollout_carries_harness_directive(not_item));
}

#[test]
fn activity_counts_nest_within_shell_and_tool_calls() {
    let jsonl = r#"{"type":"item.completed","item":{"type":"command_execution","command":"cat a.rs"}}
{"type":"item.completed","item":{"type":"command_execution","command":"ls"}}
{"type":"item.completed","item":{"type":"command_execution","command":"cargo build"}}
{"type":"item.completed","item":{"type":"file_change","changes":[]}}
{"type":"item.completed","item":{"type":"reasoning"}}
{"type":"item.started","item":{"type":"command_execution","command":"cat b.rs"}}"#;
    let c = count_activity_from_exec_jsonl(jsonl.as_bytes()).unwrap();
    assert_eq!(c.tool_calls, 5);
    assert_eq!(c.shell_commands, 3);
    assert_eq!((c.discover_commands, c.file_reads, c.edit_commands, c.verify_commands), (1, 1, 1, 0));
    assert!(c.discover_commands + c.file_reads + c.verify_commands <= c.shell_commands);
    assert!(c.shell_commands <= c.tool_calls);
}
