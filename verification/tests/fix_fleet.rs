use frost_core::config::FrostConfig;
use frost_core::engine::{check_table, check_table_at, check_table_filtered, select_checks_by_id};
use frost_core::fix::{fixable_findings, generate_fix, generate_fix_at};
use frost_core::fleet::{compute_fleet_report, compute_fleet_report_at, namespace_name, FleetInput};
use frost_core::metadata::{DataFile, Field, FileFormat, ManifestStats, PartitionSpec, Schema, Snapshot, TableMetadata};
use frost_core::report::{HealthReport, OverallStatus, Severity, TableSummary};
use frost_core::checks::all_checks;
use frost_core::config::Thresholds;

const DAY_MS: i64 = 86_400_000;

fn now() -> i64 {
    chrono::Utc::now().timestamp_millis()
}

fn make_test_metadata(now: i64) -> TableMetadata {
    let fields = || {
        vec![
            Field { id: 1, name: "id".to_string(), field_type: "long".to_string(), required: true },
            Field { id: 2, name: "name".to_string(), field_type: "string".to_string(), required: false },
            Field { id: 3, name: "created_at".to_string(), field_type: "timestamp".to_string(), required: false },
        ]
    };
    TableMetadata {
        table_name: "test_db.test_table".to_string(),
        location: "s3://test-bucket/warehouse/test_db/test_table".to_string(),
        current_schema: Schema { schema_id: 0, fields: fields() },
        schemas: vec![Schema { schema_id: 0, fields: fields() }],
        snapshots: vec![Snapshot {
            snapshot_id: 1,
            parent_snapshot_id: None,
            timestamp_ms: now,
            operation: Some("append".to_string()),
            summary: vec![],
            manifest_list: "s3://test-bucket/metadata/snap-1-manifest-list.avro".to_string(),
            schema_id: Some(0),
        }],
        current_snapshot_id: Some(1),
        partition_spec: PartitionSpec { spec_id: 0, fields: vec![] },
        partition_specs: vec![PartitionSpec { spec_id: 0, fields: vec![] }],
        sort_order: None,
        sort_orders: vec![],
        refs: vec![],
        format_version: 2,
        table_uuid: None,
        properties: vec![],
        data_files: vec![],
        delete_files: vec![],
        all_storage_paths: vec![],
        metadata_size_bytes: 1024 * 100,
        manifest_stats: ManifestStats::default(),
        collected_at_ms: now,
    }
}

// ---- fixes ----

#[test]
fn small_files_fix_reports_scope() {
    let mut meta = make_test_metadata(now());
    meta.data_files = (0..5)
        .map(|i| DataFile {
            file_path: format!("s3://x/{i}.parquet"),
            file_size_bytes: 1024,
            record_count: 1,
            file_format: FileFormat::Parquet,
            ..Default::default()
        })
        .collect();
    let cmd = generate_fix(&meta, "small_files").unwrap();
    assert_eq!(cmd.scope.estimated_files, 5);
    assert!(cmd.scope.estimated_bytes > 0);
    assert!(cmd.scope.summary.contains("5 small files"));
}

#[test]
fn unknown_finding_returns_none() {
    let meta = make_test_metadata(now());
    assert!(generate_fix(&meta, "nonexistent_check").is_none());
}

#[test]
fn format_v1_fix_is_metadata_only() {
    let meta = make_test_metadata(now());
    let cmd = generate_fix(&meta, "format_v1").unwrap();
    assert_eq!(cmd.scope.estimated_files, 0);
    assert!(cmd.scope.summary.contains("Metadata-only"));
}

#[test]
fn every_listed_finding_has_a_fix() {
    let t = now();
    let meta = make_test_metadata(t);
    let ids = fixable_findings();
    assert_eq!(ids.len(), 11);
    for id in ids {
        let cmd = generate_fix_at(&meta, id, t).unwrap();
        assert_eq!(cmd.finding_id, id);
        assert_eq!(cmd.table_name, "test_db.test_table");
    }
    assert!(generate_fix_at(&meta, "schema_history", t).is_none());
    assert!(generate_fix_at(&meta, "freshness", t).is_none());
}

#[test]
fn small_files_fix_command_is_a_binpack_rewrite() {
    let t = now();
    let meta = make_test_metadata(t);
    let cmd = generate_fix_at(&meta, "small_files", t).unwrap();
    assert!(cmd.command.contains("rewrite_data_files"));
    assert!(cmd.command.contains("test_db.test_table"));
    assert_eq!(cmd.scope.estimated_files, 0);
}

// ---- fleet ----

fn report_with(severity: Severity, crit: usize, warn: usize) -> HealthReport {
    HealthReport {
        table_name: "t".to_string(),
        location: "s3://x".to_string(),
        summary: TableSummary { snapshot_count: 1, data_file_count: 1, total_size_bytes: 0, total_record_count: 0 },
        findings: vec![],
        overall: OverallStatus { severity, pass_count: 0, warning_count: warn, critical_count: crit },
        generated_at_ms: now(),
    }
}

#[test]
fn aggregates_by_namespace() {
    let t = now();
    let mut t1 = make_test_metadata(t);
    t1.table_name = "ns1.events".into();
    let mut t2 = make_test_metadata(t);
    t2.table_name = "ns1.users".into();
    let mut t3 = make_test_metadata(t);
    t3.table_name = "ns2.logs".into();
    let inputs = vec![
        FleetInput { table_name: t1.table_name.clone(), metadata: t1, report: report_with(Severity::Critical, 1, 0) },
        FleetInput { table_name: t2.table_name.clone(), metadata: t2, report: report_with(Severity::Warning, 0, 2) },
        FleetInput { table_name: t3.table_name.clone(), metadata: t3, report: report_with(Severity::Pass, 0, 0) },
    ];
    let report = compute_fleet_report(inputs, 0, None);
    assert_eq!(report.tables_scanned, 3);
    assert_eq!(report.namespaces.len(), 2);
    let ns1 = report.namespaces.iter().find(|n| n.namespace == "ns1").unwrap();
    assert_eq!(ns1.critical, 1);
    assert_eq!(ns1.warning, 1);
}

#[test]
fn flags_dormant_tables() {
    let t = now();
    let mut m = make_test_metadata(t);
    m.table_name = "ns.old".into();
    m.snapshots[0].timestamp_ms = t - 120 * DAY_MS;
    let inputs = vec![FleetInput { table_name: m.table_name.clone(), metadata: m, report: report_with(Severity::Pass, 0, 0) }];
    let report = compute_fleet_report(inputs, 0, None);
    assert_eq!(report.dormant_tables.len(), 1);
    assert!(report.dormant_tables[0].days_since_last_commit >= 90);
}

#[test]
fn flags_v1_tables() {
    let mut m = make_test_metadata(now());
    m.table_name = "ns.v1".into();
    m.format_version = 1;
    let inputs = vec![FleetInput { table_name: m.table_name.clone(), metadata: m, report: report_with(Severity::Warning, 0, 1) }];
    let report = compute_fleet_report(inputs, 0, None);
    assert_eq!(report.format_v1_tables, vec!["ns.v1"]);
}

#[test]
fn fleet_rollups_at_a_fixed_instant() {
    let t = 1_750_000_000_000;
    let mut a = make_test_metadata(t);
    a.table_name = "prod.a".into();
    a.snapshots[0].timestamp_ms = t - 10 * DAY_MS;
    let mut b = make_test_metadata(t);
    b.table_name = "prod.b".into();
    b.snapshots[0].timestamp_ms = t - 40 * DAY_MS;
    let mut c = make_test_metadata(t);
    c.table_name = "plain".into();
    let inputs = vec![
        FleetInput { table_name: "prod.a".into(), metadata: a, report: report_with(Severity::Warning, 0, 3) },
        FleetInput { table_name: "prod.b".into(), metadata: b, report: report_with(Severity::Critical, 2, 1) },
        FleetInput { table_name: "plain".into(), metadata: c, report: report_with(Severity::Pass, 0, 0) },
    ];
    let r = compute_fleet_report_at(inputs, 4, Some(30), t);
    assert_eq!(r.tables_scanned, 3);
    assert_eq!(r.tables_unreadable, 4);
    assert_eq!(r.generated_at_ms, t);
    assert_eq!(r.dormant_tables.len(), 1);
    assert_eq!(r.dormant_tables[0].table_name, "prod.b");
    assert_eq!(r.dormant_tables[0].days_since_last_commit, 40);
    assert_eq!(r.unpartitioned_tables.len(), 3);
    assert_eq!(r.top_offenders[0].table_name, "prod.b");
    assert_eq!(r.top_offenders[1].table_name, "prod.a");
    assert_eq!(r.namespaces[0].namespace, "prod");
    assert_eq!(r.namespaces[0].table_count, 2);
    let count = |label: &str| r.by_severity.iter().find(|(l, _)| l == label).map(|(_, n)| *n).unwrap_or(0);
    assert_eq!(count("CRITICAL"), 1);
    assert_eq!(count("WARNING"), 1);
    assert_eq!(count("PASS"), 1);
    assert_eq!(namespace_name(&"a.b.c".to_string()), "a.b");
    assert_eq!(namespace_name(&"solo".to_string()), "<root>");
}

// ---- engine ----

#[test]
fn report_has_one_finding_per_check() {
    let t = now();
    let meta = make_test_metadata(t);
    let checks = all_checks();
    let r = check_table_at(&meta, &Thresholds::default(), &checks, t);
    assert_eq!(r.findings.len(), 15);
    assert_eq!(r.generated_at_ms, t);
    assert_eq!(r.table_name, "test_db.test_table");
    for (f, c) in r.findings.iter().zip(checks.iter()) {
        assert_eq!(f.check_id, c.id());
    }
    let total = r.overall.pass_count + r.overall.warning_count + r.overall.critical_count;
    assert_eq!(total, 15);
}

#[test]
fn filtered_report_runs_only_named_checks() {
    let meta = make_test_metadata(now());
    let r = check_table_filtered(&meta, &Thresholds::default(), &["format_v1", "small_files", "nope"]).unwrap();
    let ids: Vec<&str> = r.findings.iter().map(|f| f.check_id.as_str()).collect();
    assert_eq!(ids, vec!["small_files", "format_v1"]);
    assert_eq!(select_checks_by_id(&["freshness"]).len(), 1);
}

#[test]
fn filter_ignores_unknown_and_repeated_ids() {
    let meta = make_test_metadata(now());
    let r = check_table_filtered(&meta, &Thresholds::default(), &["nope"]).unwrap();
    assert!(r.findings.is_empty());
    assert_eq!(r.overall.severity, Severity::Pass);
    let r = check_table_filtered(&meta, &Thresholds::default(), &["small_files", "small_files"]).unwrap();
    assert_eq!(r.findings.len(), 1);
    assert_eq!(r.findings[0].check_id, "small_files");
}

#[test]
fn healthy_table_report_passes() {
    let meta = make_test_metadata(now());
    let r = check_table(&meta, &FrostConfig::default()).unwrap();
    assert_eq!(r.overall.critical_count, 0);
    assert!(r.overall.severity <= Severity::Warning);
}

#[test]
fn fleet_input_pairs_metadata_with_its_report() {
    let meta = make_test_metadata(now());
    let fi = FleetInput::from_metadata("test_db.test_table".to_string(), meta, &FrostConfig::default()).unwrap();
    assert_eq!(fi.report.findings.len(), 15);
    assert_eq!(fi.table_name, "test_db.test_table");
}

#[test]
fn cutoff_fixes_name_the_cutoff_instant() {
    let now = 10 * DAY_MS;
    let meta = make_test_metadata(now);
    let orphan = generate_fix_at(&meta, "orphan_files", now).unwrap();
    assert_eq!(
        orphan.command,
        "CALL catalog.system.remove_orphan_files(table => 'test_db.test_table', older_than => TIMESTAMP '1970-01-08 00:00:00')"
    );
    let expire = generate_fix_at(&meta, "snapshot_bloat", now).unwrap();
    assert_eq!(
        expire.command,
        "CALL catalog.system.expire_snapshots(table => 'test_db.test_table', older_than => TIMESTAMP '1970-01-04 00:00:00')"
    );
}

#[test]
fn unrepresentable_commit_times_read_as_the_epoch() {
    let s = Snapshot { timestamp_ms: i64::MAX, ..Default::default() };
    assert_eq!(s.timestamp(), 0);
    let s = Snapshot { timestamp_ms: 1_700_000_000_000, ..Default::default() };
    assert_eq!(s.timestamp(), 1_700_000_000_000);
}
