use std::collections::HashSet;

use context_harness::intercept::{
    large_read_begin, large_read_build_result, large_read_record, search_begin, search_record, LargeReadResult,
    LargeReadStep, SearchResult,
};
use context_harness::large_read::proxy::{build_large_read_response, LargeReadOutcome};
use context_harness::large_read::slice::SliceOptions;
use context_harness::telemetry::ProxyTelemetry;

fn big_file() -> String {
    let mut s = String::from("//! header\n");
    for i in 0..200 {
        s.push_str(&format!("// filler line {i}\n"));
    }
    s.push_str("pub fn alpha(x: u32) -> u32 {\n    x + 1\n}\n");
    s
}

#[test]
fn disabled_large_read_proxy_runs_everything_and_records_nothing() {
    let reg = HashSet::new();
    let mut tel = ProxyTelemetry::default();
    let step = large_read_begin(false, "cat core/src/lib.rs", &reg, &mut tel);
    assert!(matches!(step, LargeReadStep::RunCommand));
    assert_eq!(tel, ProxyTelemetry::default());
}

#[test]
fn enabled_large_read_proxy_marks_itself_even_on_pass_through() {
    let reg = HashSet::new();
    let mut tel = ProxyTelemetry::default();
    let step = large_read_begin(true, "rg foo", &reg, &mut tel);
    assert!(matches!(step, LargeReadStep::RunCommand));
    assert!(tel.large_read_proxy_enabled);
    assert_eq!(tel.large_read_proxy_escape_hatch_repeats, 0);
}

#[test]
fn substituted_large_read_runs_raw_when_repeated() {
    let mut reg = HashSet::new();
    let mut tel = ProxyTelemetry::default();
    let read = match large_read_begin(true, "cat core/src/lib.rs", &reg, &mut tel) {
        LargeReadStep::ReadFile(read) => read,
        LargeReadStep::RunCommand => panic!("expected the file to be read"),
    };
    let content = big_file();
    let outcome = build_large_read_response(&read, &content, &[], &SliceOptions::default());
    let rendered = match &outcome {
        LargeReadOutcome::Substitute { rendered, .. } => rendered.clone(),
        other => panic!("expected a substitution, got {other:?}"),
    };
    let reply = large_read_record(&read, LargeReadResult::Built(outcome), &mut reg, &mut tel);
    assert_eq!(reply.as_deref(), Some(rendered.as_str()));
    assert!(reg.contains("cat core/src/lib.rs"));
    assert_eq!(tel.large_read_proxy_substitutions, 1);
    assert_eq!(tel.large_read_proxy_compact_bytes, rendered.len() as u64);
    assert_eq!(tel.large_read_proxy_raw_bytes, content.len() as u64);

    let again = large_read_begin(true, "cat core/src/lib.rs", &reg, &mut tel);
    assert!(matches!(again, LargeReadStep::RunCommand));
    assert_eq!(tel.large_read_proxy_escape_hatch_repeats, 1);
}

#[test]
fn unreadable_or_declined_large_read_counts_a_pass_through_and_registers_nothing() {
    let mut reg = HashSet::new();
    let mut tel = ProxyTelemetry::default();
    let read = match large_read_begin(true, "cat core/src/lib.rs", &reg, &mut tel) {
        LargeReadStep::ReadFile(read) => read,
        LargeReadStep::RunCommand => panic!("expected the file to be read"),
    };
    assert_eq!(large_read_record(&read, LargeReadResult::Unreadable, &mut reg, &mut tel), None);
    let small = build_large_read_response(&read, "fn main() {}\n", &[], &SliceOptions::default());
    assert_eq!(large_read_record(&read, LargeReadResult::Built(small), &mut reg, &mut tel), None);
    assert!(reg.is_empty());
    assert_eq!(tel.large_read_proxy_build_pass_throughs, 2);
    assert_eq!(tel.large_read_proxy_substitutions, 0);
}

#[test]
fn substituted_search_runs_raw_when_repeated() {
    let mut reg = HashSet::new();
    let mut tel = ProxyTelemetry::default();
    let key = "rg -n foo".to_string();
    assert!(search_begin(true, Some(&key), &reg, &mut tel));
    assert!(tel.search_proxy_enabled);
    let reply = search_record(
        &key,
        SearchResult::Substitute { rendered: "3 hits in a.rs".to_string(), raw_bytes: 900 },
        &mut reg,
        &mut tel,
    );
    assert_eq!(reply.as_deref(), Some("3 hits in a.rs"));
    assert!(reg.contains("rg -n foo"));
    assert_eq!(tel.search_proxy_substitutions, 1);
    assert_eq!(tel.search_proxy_compact_bytes, 14);
    assert_eq!(tel.search_proxy_raw_bytes, 900);

    assert!(!search_begin(true, Some(&key), &reg, &mut tel));
    assert_eq!(tel.search_proxy_escape_hatch_repeats, 1);
}

#[test]
fn search_pass_through_and_failed_run_reply_nothing() {
    let mut reg = HashSet::new();
    let mut tel = ProxyTelemetry::default();
    let key = "rg -n foo".to_string();
    assert!(!search_begin(true, None, &reg, &mut tel));
    assert!(!search_begin(false, Some(&key), &reg, &mut tel));
    assert_eq!(search_record(&key, SearchResult::PassThrough, &mut reg, &mut tel), None);
    assert_eq!(tel.search_proxy_build_pass_throughs, 1);
    let before = tel.clone();
    assert_eq!(search_record(&key, SearchResult::RunFailed, &mut reg, &mut tel), None);
    assert_eq!(tel, before);
    assert!(reg.is_empty());
}

#[test]
fn large_read_intercept_end_to_end() {
    let mut reg = HashSet::new();
    let mut tel = ProxyTelemetry::default();
    let read = match large_read_begin(true, "cat core/src/lib.rs", &reg, &mut tel) {
        LargeReadStep::ReadFile(read) => read,
        LargeReadStep::RunCommand => panic!("expected the file to be read"),
    };
    let content = big_file();
    let expected = build_large_read_response(&read, &content, &[], &SliceOptions::default());
    let result = large_read_build_result(&read, Some(content.as_str()));
    assert!(matches!(result, LargeReadResult::Built(_)));
    let reply = large_read_record(&read, result, &mut reg, &mut tel);
    match expected {
        LargeReadOutcome::Substitute { rendered, .. } => assert_eq!(reply, Some(rendered)),
        other => panic!("expected a substitution, got {other:?}"),
    }
    assert!(reg.contains("cat core/src/lib.rs"));

    let mut reg2 = HashSet::new();
    let unreadable = large_read_build_result(&read, None);
    assert!(matches!(unreadable, LargeReadResult::Unreadable));
    assert_eq!(large_read_record(&read, unreadable, &mut reg2, &mut tel), None);
    assert!(reg2.is_empty());

    let small = large_read_build_result(&read, Some("one line\n"));
    assert!(matches!(small, LargeReadResult::Built(LargeReadOutcome::PassThrough(_))));
    assert_eq!(large_read_record(&read, small, &mut reg2, &mut tel), None);
    assert!(reg2.is_empty());
}
