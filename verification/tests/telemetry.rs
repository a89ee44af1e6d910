use context_harness::telemetry::ProxyTelemetry;

#[test]
fn summary_none_when_no_proxy_enabled() {
    let t = ProxyTelemetry::default();
    assert!(t.summary().is_none());
}

#[test]
fn summary_inert_when_enabled_but_no_events() {
    let t = ProxyTelemetry {
        search_proxy_enabled: true,
        large_read_proxy_enabled: true,
        ..Default::default()
    };
    let s = t.summary().unwrap();
    assert!(s.contains("[reactive mediation] session summary:"));
    assert!(s.contains("search-proxy: inert"));
    assert!(s.contains("large-read-proxy: inert"));
}

#[test]
fn summary_reports_substitutions_and_savings_in_human_units() {
    let t = ProxyTelemetry {
        search_proxy_enabled: true,
        search_proxy_substitutions: 3,
        search_proxy_escape_hatch_repeats: 1,
        search_proxy_compact_bytes: 2_048,
        search_proxy_raw_bytes: 200_000,
        large_read_proxy_enabled: false,
        ..Default::default()
    };
    let s = t.summary().unwrap();
    assert!(s.contains("search-proxy: 3 substituted, 1 bypassed"));
    assert!(s.contains("KB"));
    assert!(!s.contains("large-read-proxy"));
}

#[test]
fn any_event_detects_partial_activity() {
    let mut t = ProxyTelemetry::default();
    assert!(!t.any_event());
    t.search_proxy_build_pass_throughs = 1;
    assert!(t.any_event());
}

#[test]
fn summary_exact_text_for_large_read_proxy() {
    let t = ProxyTelemetry {
        large_read_proxy_enabled: true,
        large_read_proxy_substitutions: 2,
        large_read_proxy_build_pass_throughs: 1,
        large_read_proxy_compact_bytes: 900,
        large_read_proxy_raw_bytes: 3 * 1024 * 1024,
        ..Default::default()
    };
    assert_eq!(
        t.summary().unwrap(),
        "[reactive mediation] session summary:\n  large-read-proxy: 2 substituted, 0 bypassed (model re-ran), 1 pass-through; saved ~3.0 MB (compact 900 B vs raw 3.0 MB)"
    );
}

fn float_format(b: u64) -> String {
    if b >= 1024 * 1024 {
        format!("{:.1} MB", b as f64 / (1024.0 * 1024.0))
    } else if b >= 1024 {
        format!("{:.1} KB", b as f64 / 1024.0)
    } else {
        format!("{b} B")
    }
}

#[test]
fn byte_rendering_matches_float_formatting() {
    for b in [
        0u64, 1, 1023, 1024, 1280, 1792, 2048, 197_952, 200_000, 1_048_575, 1_048_576, 1_310_720,
        1_835_008, 5_000_000_000, 123_456_789_012,
    ] {
        let t = ProxyTelemetry {
            search_proxy_enabled: true,
            search_proxy_substitutions: 1,
            search_proxy_compact_bytes: 0,
            search_proxy_raw_bytes: b,
            ..Default::default()
        };
        let s = t.summary().unwrap();
        let expected = format!("saved ~{} (compact 0 B vs raw {})", float_format(b), float_format(b));
        assert!(s.ends_with(&expected), "{b}: {s} vs {expected}");
    }
}

#[test]
fn any_event_and_summary_accept_large_counters() {
    let mut t = ProxyTelemetry::default();
    t.search_proxy_substitutions = u32::MAX;
    t.large_read_proxy_build_pass_throughs = u32::MAX;
    assert!(t.any_event());
    t.large_read_proxy_enabled = true;
    let s = t.summary().expect("enabled");
    assert!(s.contains("large-read-proxy: 0 substituted, 0 bypassed (model re-ran), 4294967295 pass-through"));
    assert!(!s.contains("search-proxy"));
}
