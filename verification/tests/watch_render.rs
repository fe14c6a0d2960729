use frost_core::checks::partition_skew::Distribution;
use frost_core::demo::{demo_metadata_at, generate_demo_metadata};
use frost_core::object_store::{locate_object, ObjectLocation, ObjectStoreError};
use frost_core::partition::partition_key;
use frost_core::render::{format_bytes, format_number, github_actions_lines, overall_text};
use frost_core::report::{Detail, Finding, HealthReport, OverallStatus, Severity, TableSummary};
use frost_core::text::{join_strings, parse_u64, trim_text};
use frost_core::tools::{summarize_catalog, watch_status_not_configured, watch_status_response};
use frost_core::watch::{
    detect_changes, detect_changes_at, parse_interval, previous_check, sleep_seconds, suppressed_by_cooldown, webhook_details, webhook_text,
    PreviousCheck,
    StoredReport, WatchAlert, WatchConfig, WatchError,
};

fn finding(id: &str, severity: Severity) -> Finding {
    Finding {
        check_id: id.to_string(),
        check_name: id.to_uppercase(),
        severity,
        message: format!("{id} message"),
        impact: String::new(),
        fix_suggestion: None,
        fix_command: None,
        estimated_savings: None,
        details: Detail::Null,
    }
}

fn report(findings: Vec<Finding>) -> HealthReport {
    let overall = HealthReport::compute_overall(&findings);
    HealthReport {
        table_name: "ns.events".to_string(),
        location: "s3://b/ns/events".to_string(),
        summary: TableSummary { snapshot_count: 1, data_file_count: 0, total_size_bytes: 0, total_record_count: 0 },
        findings,
        overall,
        generated_at_ms: 0,
    }
}

// ---- interval syntax ----

#[test]
fn parse_interval_valid() {
    assert_eq!(parse_interval("30m").ok().unwrap(), 1800);
    assert_eq!(parse_interval("1h").ok().unwrap(), 3600);
    assert_eq!(parse_interval("6h").ok().unwrap(), 21600);
    assert_eq!(parse_interval("1d").ok().unwrap(), 86400);
    assert_eq!(parse_interval("90s").ok().unwrap(), 90);
}

#[test]
fn parse_interval_invalid() {
    assert!(parse_interval("").is_err());
    assert!(parse_interval("abc").is_err());
    assert!(parse_interval("5x").is_err());
}

#[test]
fn interval_errors_carry_their_messages() {
    let msg = |s: &str| match parse_interval(s) {
        Err(WatchError::Config(m)) => m,
        _ => panic!("expected a config error"),
    };
    assert_eq!(msg("  "), "empty interval");
    assert_eq!(msg("abc"), "invalid interval: abc");
    assert_eq!(msg("5x"), "unknown interval unit 'x', expected s/m/h/d");
    assert_eq!(parse_interval(" 2h ").ok().unwrap(), 7200);
    assert_eq!(WatchError::Config("x".into()).message(), "watch config error: x");
}

#[test]
fn watch_defaults() {
    let c = WatchConfig::default();
    assert_eq!(c.interval, "6h");
    assert_eq!(c.sqlite_path, "./frost-watch.db");
    assert!(c.webhook_url.is_none() && c.namespace.is_none());
}

// ---- change detection ----

#[test]
fn first_check_alerts_only_on_issues() {
    let healthy = report(vec![finding("small_files", Severity::Pass)]);
    assert!(detect_changes_at(&healthy, None, 5).is_none());
    let sick = report(vec![finding("small_files", Severity::Warning), finding("format_v1", Severity::Critical)]);
    let a = detect_changes_at(&sick, None, 5).unwrap();
    assert_eq!(a.previous_severity, "unknown");
    assert_eq!(a.current_severity, "CRITICAL");
    assert_eq!(a.message, "First check: 2 finding(s) detected");
    assert_eq!(a.new_findings, vec!["small_files", "format_v1"]);
    assert!(a.resolved_findings.is_empty());
    assert_eq!(a.alerted_at_ms, 5);
}

#[test]
fn changes_list_new_resolved_and_severity() {
    let cur = report(vec![finding("small_files", Severity::Warning), finding("orphan_files", Severity::Warning)]);
    let prev = PreviousCheck {
        severity: "CRITICAL".to_string(),
        finding_ids: vec!["small_files".to_string(), "format_v1".to_string()],
    };
    let a = detect_changes_at(&cur, Some(&prev), 9).unwrap();
    assert_eq!(a.new_findings, vec!["orphan_files"]);
    assert_eq!(a.resolved_findings, vec!["format_v1"]);
    assert_eq!(a.message, "new: orphan_files; resolved: format_v1; CRITICAL -> WARNING");
    assert_eq!(a.previous_severity, "CRITICAL");
}

#[test]
fn unchanged_check_is_silent() {
    let cur = report(vec![finding("small_files", Severity::Warning), finding("format_v1", Severity::Pass)]);
    let prev = PreviousCheck { severity: "WARNING".to_string(), finding_ids: vec!["small_files".to_string()] };
    assert!(detect_changes_at(&cur, Some(&prev), 1).is_none());
    assert!(detect_changes(&cur, Some(&prev)).is_none());
}

#[test]
fn watch_loop_sleeps_for_what_is_left() {
    assert_eq!(sleep_seconds(60, 1_000_000, 1_010_500), 50);
    assert_eq!(sleep_seconds(60, 1_000_000, 1_090_000), 0);
    assert_eq!(sleep_seconds(60, 1_000_000, 999_000), 60);
}

#[test]
fn webhook_texts_name_table_and_change() {
    let a = WatchAlert {
        table_name: "ns.t".into(),
        previous_severity: "PASS".into(),
        current_severity: "WARNING".into(),
        message: "new: small_files".into(),
        new_findings: vec!["small_files".into()],
        resolved_findings: vec![],
        alerted_at_ms: 0,
    };
    assert_eq!(webhook_text(&a), "frost watch alert: *ns.t* \u{2014} new: small_files");
    assert_eq!(
        webhook_details(&a),
        "*frost watch alert*\n*Table:* ns.t\n*Severity:* PASS \u{2192} WARNING\n*Details:* new: small_files"
    );
}

// ---- report and rendering ----

#[test]
fn overall_status_is_the_worst_finding() {
    let r = report(vec![
        finding("a", Severity::Pass),
        finding("b", Severity::Warning),
        finding("c", Severity::Critical),
        finding("d", Severity::Warning),
    ]);
    assert_eq!(r.overall, OverallStatus { severity: Severity::Critical, pass_count: 1, warning_count: 2, critical_count: 1 });
    let r = report(vec![]);
    assert_eq!(r.overall.severity, Severity::Pass);
    assert_eq!(Severity::Warning.worse(Severity::Pass), Severity::Warning);
    assert_eq!(Severity::Critical.label(), "CRITICAL");
}

#[test]
fn github_annotations_skip_passing_findings() {
    let r = report(vec![finding("a", Severity::Pass), finding("b", Severity::Warning), finding("c", Severity::Critical)]);
    assert_eq!(
        github_actions_lines(&r),
        vec!["::warning title=frost: B::b message".to_string(), "::error title=frost: C::c message".to_string()]
    );
    assert_eq!(overall_text(&r.overall), "1 warning(s), 1 critical");
    assert_eq!(overall_text(&report(vec![]).overall), "All checks passed");
}

#[test]
fn sizes_and_counts_are_humanized() {
    assert_eq!(format_bytes(512), "512 B");
    assert_eq!(format_bytes(1536), "1.5 KB");
    assert_eq!(format_bytes(7 * 1024 * 1024 * 1024), "7.0 GB");
    assert_eq!(format_bytes(3 * 1024u64.pow(4)), "3.0 TB");
    assert_eq!(format_number(999), "999");
    assert_eq!(format_number(1_500), "1.5K");
    assert_eq!(format_number(112_500_000), "112.5M");
    assert_eq!(format_number(2_000_000_000), "2.0B");
}

// ---- catalog summary and watch status ----

#[test]
fn catalog_summary_orders_by_severity() {
    let results = vec![
        ("a.ok".to_string(), Some(report(vec![finding("x", Severity::Pass)]))),
        ("a.broken".to_string(), None),
        ("a.warn".to_string(), Some(report(vec![finding("x", Severity::Warning)]))),
        ("a.crit".to_string(), Some(report(vec![finding("x", Severity::Critical)]))),
    ];
    let s = summarize_catalog(&results);
    assert_eq!(s.tables_checked, 4);
    assert_eq!((s.tables_healthy, s.tables_warning, s.tables_critical), (1, 1, 1));
    let names: Vec<&str> = s.table_reports.iter().map(|b| b.table_name.as_str()).collect();
    assert_eq!(names, vec!["a.crit", "a.warn", "a.broken", "a.ok"]);
    assert_eq!(s.table_reports[2].severity, "ERROR");
    assert_eq!(s.table_reports[0].finding_count, 1);
}

#[test]
fn watch_status_reports_each_state() {
    let r = watch_status_not_configured("/tmp/x.db");
    assert_eq!(r.status, "not_configured");
    assert_eq!(r.message, "Watch mode database not found at '/tmp/x.db'. Start it with: frost watch");
    let r = watch_status_response(&vec![], &vec![]);
    assert_eq!(r.status, "not_running");
    assert_eq!(r.tables_watched, Some(0));
    let stored = StoredReport {
        table_name: "ns.t".into(),
        severity: "WARNING".into(),
        finding_count: 2,
        critical_count: 0,
        warning_count: 2,
        checked_at_ms: 0,
        report_json: String::new(),
    };
    let r = watch_status_response(&vec![stored], &vec![]);
    assert_eq!(r.status, "has_data");
    assert_eq!(r.message, "1 table(s) monitored, 0 recent alert(s)");
    let h = r.table_health.unwrap();
    assert_eq!(h[0].last_checked, "1970-01-01T00:00:00+00:00");
    assert!(r.recent_alerts.is_none());
}

// ---- demo data ----

#[test]
fn demo_table_has_known_pathologies() {
    let t = 1_750_000_000_000;
    let m = demo_metadata_at("demo.events", t);
    assert_eq!(m.table_name, "demo.events");
    assert_eq!(m.data_files.len(), 75);
    assert_eq!(m.snapshots.len(), 120);
    assert_eq!(m.all_storage_paths.len(), 78);
    assert_eq!(m.data_files[3].file_path, "s3://demo-bucket/warehouse/demo.events/data/date=2026-03-04/part-00003.parquet");
    assert_eq!(m.data_files[60].file_path, "s3://demo-bucket/warehouse/demo.events/data/date=2026-04-01/part-00060.parquet");
    assert_eq!(m.data_files[60].file_size_bytes, 512 * 1024);
    assert_eq!(m.all_storage_paths[77], "s3://demo-bucket/warehouse/demo.events/data/orphan-002.parquet");
    assert_eq!(m.snapshots[119].timestamp_ms, t - 119 * 7_200_000);
    assert_eq!(m.snapshots[119].manifest_list, "s3://demo-bucket/warehouse/demo.events/metadata/snap-120-manifest-list.avro");
    assert_eq!(m.current_snapshot_id, Some(120));
    let now_demo = generate_demo_metadata("x.y");
    assert_eq!(now_demo.data_files.len(), 75);
}

// ---- object locations ----

#[test]
fn object_locations_follow_the_uri_scheme() {
    match locate_object("s3://bucket/a/b.avro").ok().unwrap() {
        ObjectLocation::S3 { bucket, key } => {
            assert_eq!(bucket, "bucket");
            assert_eq!(key, "a/b.avro");
        }
        _ => panic!("expected S3"),
    }
    match locate_object("s3://bucket-only") {
        Err(ObjectStoreError::InvalidUri(u)) => assert_eq!(u, "s3://bucket-only"),
        _ => panic!("expected an invalid URI"),
    }
    assert!(matches!(locate_object("https://h/x").ok().unwrap(), ObjectLocation::Http(u) if u == "https://h/x"));
    assert!(matches!(locate_object("file:///tmp/x").ok().unwrap(), ObjectLocation::Local(p) if p == "/tmp/x"));
    assert!(matches!(locate_object("/tmp/x").ok().unwrap(), ObjectLocation::Local(p) if p == "/tmp/x"));
    assert_eq!(ObjectStoreError::S3Disabled.message(), "S3 support not compiled in; rebuild with --features s3");
}

// ---- text and partition helpers ----

#[test]
fn text_helpers() {
    assert_eq!(parse_u64("+42"), Some(42));
    assert_eq!(parse_u64("18446744073709551616"), None);
    assert_eq!(parse_u64(""), None);
    assert_eq!(trim_text("\t a b \n"), "a b");
    assert_eq!(join_strings(&vec!["a".to_string(), "b".to_string()], ", "), "a, b");
}

#[test]
fn partition_keys_sort_their_values() {
    let p = vec![("region".to_string(), "eu".to_string()), ("date".to_string(), "2026-01-01".to_string())];
    assert_eq!(partition_key(&p), "date=2026-01-01/region=eu");
    assert_eq!(partition_key(&vec![]), "");
}

#[test]
fn distribution_percentiles() {
    let d = Distribution::from_values(&vec![5, 1, 4, 2, 3]);
    assert_eq!((d.median, d.p95, d.p99, d.max, d.sum, d.count), (3, 5, 5, 5, 15, 5));
    let e = Distribution::from_values(&vec![]);
    assert_eq!(e.count, 0);
}

#[test]
fn previous_check_keeps_the_failing_findings() {
    let stored = report(vec![finding("a", Severity::Pass), finding("b", Severity::Warning), finding("c", Severity::Critical)]);
    let p = previous_check("CRITICAL".to_string(), Some(&stored));
    assert_eq!(p.severity, "CRITICAL");
    assert_eq!(p.finding_ids, vec!["b", "c"]);
    let q = previous_check("PASS".to_string(), None);
    assert!(q.finding_ids.is_empty());
}

#[test]
fn watch_status_returns_not_running() {
    let r = watch_status_response(&vec![], &vec![]);
    assert_eq!(r.status, "not_running");
}

fn alert_at(message: &str, at: i64) -> WatchAlert {
    WatchAlert {
        table_name: "ns.t".into(),
        previous_severity: "HEALTHY".into(),
        current_severity: "WARNING".into(),
        message: message.into(),
        new_findings: vec![],
        resolved_findings: vec![],
        alerted_at_ms: at,
    }
}

#[test]
fn duplicate_alert_within_an_hour_is_suppressed() {
    let earlier = vec![alert_at("new: small_files", 1_000_000)];
    assert!(suppressed_by_cooldown(&earlier, &alert_at("new: small_files", 1_000_000 + 3_599_999)));
    assert!(!suppressed_by_cooldown(&earlier, &alert_at("new: small_files", 1_000_000 + 3_600_000)));
    assert!(!suppressed_by_cooldown(&earlier, &alert_at("new: orphan_files", 1_000_000 + 60_000)));
    assert!(!suppressed_by_cooldown(&vec![], &alert_at("new: small_files", 1_000_000)));
}

#[test]
fn partition_key_ignores_pair_order() {
    let ab = vec![("a".to_string(), "1".to_string()), ("b".to_string(), "2".to_string())];
    let ba = vec![("b".to_string(), "2".to_string()), ("a".to_string(), "1".to_string())];
    assert_eq!(partition_key(&ab), "a=1/b=2");
    assert_eq!(partition_key(&ba), "a=1/b=2");
}
