use std::collections::HashSet;

use context_harness::large_read::classifier::classify_command;
use context_harness::large_read::classifier::ClassifiedRead;
use context_harness::large_read::classifier::ClassifyOutcome;
use context_harness::large_read::classifier::PassThroughReason;
use context_harness::large_read::classifier::ReadTool;
use context_harness::large_read::proxy::build_large_read_response;
use context_harness::large_read::proxy::decide_read;
use context_harness::large_read::proxy::BuildPassThroughReason;
use context_harness::large_read::proxy::LargeReadOutcome;
use context_harness::large_read::proxy::ReadDecision;
use context_harness::large_read::renderer::render_large_read_response;
use context_harness::large_read::slice::build_slices;
use context_harness::large_read::slice::Slice;
use context_harness::large_read::slice::SliceOptions;

fn eligible(cmd: &str) -> ClassifiedRead {
    match classify_command(cmd) {
        ClassifyOutcome::Eligible(c) => c,
        other => panic!("expected Eligible for {cmd:?}, got {other:?}"),
    }
}

fn passthrough(cmd: &str) -> PassThroughReason {
    match classify_command(cmd) {
        ClassifyOutcome::PassThrough(r) => r,
        other => panic!("expected PassThrough for {cmd:?}, got {other:?}"),
    }
}

#[test]
fn cat_single_file_is_eligible() {
    let c = eligible("cat context-harness/src/agent_eval.rs");
    assert_eq!(c.tool, ReadTool::Cat);
    assert_eq!(c.path, "context-harness/src/agent_eval.rs");
    assert_eq!(c.requested_range, None);
    assert_eq!(c.normalized, "cat context-harness/src/agent_eval.rs");
}

#[test]
fn sed_large_range_is_eligible() {
    let c = eligible("sed -n '1,400p' core/src/lib.rs");
    assert_eq!(c.tool, ReadTool::Sed);
    assert_eq!(c.requested_range, Some((1, 400)));
    assert_eq!(c.normalized, "sed -n 1,400p core/src/lib.rs");
}

#[test]
fn sed_whole_file_dollar_is_eligible() {
    let c = eligible("sed -n '1,$p' core/src/lib.rs");
    assert_eq!(c.requested_range, Some((1, u32::MAX)));
}

#[test]
fn sed_small_range_passes_through() {
    assert_eq!(passthrough("sed -n '1,40p' f.rs"), PassThroughReason::SmallRange);
}

#[test]
fn cat_with_flag_or_multiple_files_passes_through() {
    assert_eq!(passthrough("cat -n f.rs"), PassThroughReason::UnsupportedArgs);
    assert_eq!(passthrough("cat a.rs b.rs"), PassThroughReason::UnsupportedArgs);
}

#[test]
fn chained_or_piped_passes_through() {
    assert_eq!(passthrough("cat f.rs | head"), PassThroughReason::ShellMetacharacter);
    assert_eq!(passthrough("cat f.rs && echo done"), PassThroughReason::ShellMetacharacter);
}

#[test]
fn non_read_command_passes_through() {
    assert_eq!(passthrough("rg AgentEvalResult"), PassThroughReason::NotReadCommand);
    assert_eq!(passthrough("just test"), PassThroughReason::NotReadCommand);
}

#[test]
fn shell_wrapper_is_unwrapped() {
    let c = eligible("bash -lc \"cat core/src/lib.rs\"");
    assert_eq!(c.tool, ReadTool::Cat);
    assert_eq!(c.path, "core/src/lib.rs");
}

#[test]
fn empty_is_unsupported() {
    assert_eq!(passthrough("   "), PassThroughReason::UnsupportedShape);
}

#[test]
fn sed_non_one_based_start_with_large_span_is_eligible() {
    let c = eligible("sed -n '100,400p' foo.rs");
    assert_eq!(c.tool, ReadTool::Sed);
    assert_eq!(c.path, "foo.rs");
}

#[test]
fn quoted_path_is_unwrapped_and_normalizes_stably() {
    let a = eligible(r#"cat "core/src/lib.rs""#);
    let b = eligible("cat core/src/lib.rs");
    assert_eq!(a.path, "core/src/lib.rs");
    assert_eq!(a.normalized, b.normalized);
}

#[test]
fn classifier_is_stable_under_repeated_invocation() {
    let cmd = "cat rollout/src/recorder.rs";
    let baseline = eligible(cmd);
    for _ in 0..10_000 {
        let again = eligible(cmd);
        assert_eq!(again.normalized, baseline.normalized);
        assert_eq!(again.path, baseline.path);
    }
}

#[test]
fn sed_range_edge_cases() {
    // `+` sign accepted by `u32` parsing; reversed and malformed ranges are
    // unsupported; a span of exactly 200 lines is large.
    assert_eq!(eligible("sed -n +1,200p f.rs").requested_range, Some((1, 200)));
    assert_eq!(passthrough("sed -n 1,199p f.rs"), PassThroughReason::SmallRange);
    assert_eq!(passthrough("sed -n 400,1p f.rs"), PassThroughReason::UnsupportedArgs);
    assert_eq!(passthrough("sed -n 1-400p f.rs"), PassThroughReason::UnsupportedArgs);
    assert_eq!(passthrough("sed -n 1,400 f.rs"), PassThroughReason::UnsupportedArgs);
    assert_eq!(passthrough("sed -n 0,$p -f"), PassThroughReason::UnsupportedArgs);
    assert_eq!(passthrough("sed -i 1,400p f.rs"), PassThroughReason::UnsupportedArgs);
    assert_eq!(passthrough("cat 'unbalanced"), PassThroughReason::UnsupportedShape);
    assert_eq!(passthrough("cat $(ls)"), PassThroughReason::ShellMetacharacter);
    assert_eq!(eligible("cat 'a;b.rs'").path, "a;b.rs");
    assert_eq!(PassThroughReason::SmallRange.to_string(), "small_range");
}

#[test]
fn shell_wrapper_flag_shapes() {
    assert_eq!(eligible("sh -l -c 'cat x.rs'").path, "x.rs");
    assert_eq!(passthrough("bash -c 'cat x.rs' extra"), PassThroughReason::NotReadCommand);
    assert_eq!(passthrough("bash -lc 'cat x.rs | wc'"), PassThroughReason::ShellMetacharacter);
}

#[test]
fn first_read_substitutable_then_repeat_bypasses() {
    let mut reg = HashSet::new();
    let normalized = match decide_read("cat core/src/lib.rs", &reg) {
        ReadDecision::Substitutable(c) => c.normalized,
        other => panic!("expected Substitutable, got {other:?}"),
    };
    reg.insert(normalized);
    assert!(matches!(decide_read("cat core/src/lib.rs", &reg), ReadDecision::Bypass { .. }));
}

#[test]
fn non_read_and_small_range_pass_through() {
    let reg = HashSet::new();
    assert!(matches!(
        decide_read("rg foo", &reg),
        ReadDecision::PassThrough(PassThroughReason::NotReadCommand)
    ));
    assert!(matches!(
        decide_read("sed -n '1,20p' f.rs", &reg),
        ReadDecision::PassThrough(PassThroughReason::SmallRange)
    ));
}

#[test]
fn small_file_passthrough_does_not_pre_register() {
    let reg = HashSet::new();
    assert!(matches!(decide_read("cat core/src/lib.rs", &reg), ReadDecision::Substitutable(_)));
    assert!(reg.is_empty());
}

#[test]
fn bypass_carries_normalized_key_of_requoted_command() {
    let mut reg = HashSet::new();
    reg.insert("cat core/src/lib.rs".to_string());
    match decide_read("cat \"core/src/lib.rs\"", &reg) {
        ReadDecision::Bypass { normalized } => assert_eq!(normalized, "cat core/src/lib.rs"),
        other => panic!("expected Bypass, got {other:?}"),
    }
}

fn big_rust_file() -> String {
    let mut s = String::from("//! module header\nuse std::collections::HashSet;\n\n");
    for i in 0..200 {
        s.push_str(&format!("// filler line {i}\n"));
    }
    s.push_str("pub fn alpha(x: u32) -> u32 {\n    x + 1\n}\n");
    for i in 0..50 {
        s.push_str(&format!("// more filler {i}\n"));
    }
    s.push_str("pub struct Beta {\n    field: u32,\n}\n");
    s
}

fn classified(cmd: &str) -> ClassifiedRead {
    match classify_command(cmd) {
        ClassifyOutcome::Eligible(c) => c,
        other => panic!("expected Eligible, got {other:?}"),
    }
}

#[test]
fn build_slices_includes_header_and_public_defs() {
    let content = big_rust_file();
    let slices = build_slices(&content, &[], &SliceOptions::default());
    assert!(!slices.is_empty());
    assert!(slices.len() <= 3, "capped at max_slices: {slices:?}");
    assert_eq!(slices[0].start, 1, "first slice is the header");
    assert!(slices.iter().all(|s| s.line_count() <= 30));
    for w in slices.windows(2) {
        assert!(w[0].end < w[1].start, "slices must be disjoint: {slices:?}");
    }
    assert!(
        slices.iter().any(|s| s.reason.contains("definition:")),
        "expected a definition slice: {slices:?}"
    );
}

#[test]
fn build_slices_uses_hints_when_provided() {
    let content = big_rust_file();
    let slices = build_slices(&content, &["struct Beta".to_string()], &SliceOptions::default());
    assert!(
        slices.iter().any(|s| s.reason.contains("match: struct Beta")),
        "expected a hint-match slice: {slices:?}"
    );
}

#[test]
fn build_slices_exact_windows_for_fixture() {
    let content = big_rust_file();
    let slices = build_slices(&content, &[], &SliceOptions::default());
    // header 1..30; `pub fn alpha` at line 204 → window 202..231;
    // `pub struct Beta` at line 257 → window 255..259 (clipped to the file).
    let spans: Vec<(u32, u32)> = slices.iter().map(|s| (s.start, s.end)).collect();
    assert_eq!(spans, vec![(1, 30), (202, 231), (255, 259)]);
    assert_eq!(slices[0].reason, "file header / imports");
    assert_eq!(slices[1].reason, "definition: pub fn alpha(x: u32) -> u32 {");
    assert!(slices[0].text.starts_with("//! module header\nuse std::collections::HashSet;\n\n"));
    assert_eq!(slices[2].text, "// more filler 48\n// more filler 49\npub struct Beta {\n    field: u32,\n}");
}

#[test]
fn build_slices_respects_byte_budget() {
    let content = big_rust_file();
    let opts = SliceOptions { max_total_bytes: 100, ..SliceOptions::default() };
    let slices = build_slices(&content, &[], &opts);
    let used: usize = slices.iter().map(|s| s.text.len() + 1).sum();
    assert!(used <= 100);
}

#[test]
fn build_response_substitutes_for_large_file() {
    let content = big_rust_file();
    let c = classified("cat foo.rs");
    match build_large_read_response(&c, &content, &[], &SliceOptions::default()) {
        LargeReadOutcome::Substitute { rendered, total_lines, .. } => {
            assert!(rendered.contains("[large-read proxy] compact view"));
            assert!(rendered.contains("# lines "));
            assert!(rendered.contains("lines not shown"));
            assert!(rendered.contains("Re-run the identical command only if"));
            assert!(!rendered.contains("Repeat the exact same command"));
            assert!(total_lines > 120);
        }
        other => panic!("expected Substitute, got {other:?}"),
    }
}

#[test]
fn rendered_slices_contain_actual_line_numbered_content() {
    let content = big_rust_file();
    let c = classified("cat foo.rs");
    if let LargeReadOutcome::Substitute { rendered, .. } =
        build_large_read_response(&c, &content, &[], &SliceOptions::default())
    {
        assert!(
            rendered.lines().any(|l| l.starts_with("1: ")),
            "expected line-numbered content starting at 1; got:\n{rendered}"
        );
    } else {
        panic!("expected Substitute");
    }
}

#[test]
fn build_response_passes_through_small_file() {
    let c = classified("cat foo.rs");
    let content = "//! tiny\npub fn x() {}\n";
    assert!(matches!(
        build_large_read_response(&c, content, &[], &SliceOptions::default()),
        LargeReadOutcome::PassThrough(BuildPassThroughReason::FileSmallEnough { .. })
    ));
}

#[test]
fn build_response_passes_through_empty_content() {
    let c = classified("cat foo.rs");
    match build_large_read_response(&c, "", &[], &SliceOptions::default()) {
        LargeReadOutcome::PassThrough(_) => {}
        other => panic!("expected PassThrough on empty content, got {other:?}"),
    }
}

#[test]
fn build_response_passes_through_no_slices_when_options_yield_none() {
    let c = classified("cat foo.rs");
    let content: String = std::iter::repeat("\n").take(200).collect();
    let opts = SliceOptions { max_slices: 0, ..SliceOptions::default() };
    match build_large_read_response(&c, &content, &[], &opts) {
        LargeReadOutcome::PassThrough(BuildPassThroughReason::NoSlices) => {}
        other => panic!("expected PassThrough(NoSlices), got {other:?}"),
    }
}

#[test]
fn render_reports_requested_range_for_sed() {
    let c = classified("sed -n '1,400p' foo.rs");
    let slices = vec![Slice {
        start: 1,
        end: 2,
        reason: "file header / imports".to_string(),
        text: "a\nb".to_string(),
    }];
    let out = render_large_read_response(&c, &slices, 300);
    assert_eq!(
        out,
        "[large-read proxy] compact view of foo.rs (2 of 300 lines shown)\n\
         # lines 1-2 — file header / imports\n\
         1: a\n\
         2: b\n\
         # 298 more lines in the requested range not shown.\n\
         # Re-run the identical command only if you need a region not shown above.\n"
    );
}
