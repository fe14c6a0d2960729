use frost_core::checks::branch_health::BranchHealthCheck;
use frost_core::checks::delete_pressure::DeletePressureCheck;
use frost_core::checks::format_v1::FormatV1Check;
use frost_core::checks::freshness::FreshnessCheck;
use frost_core::checks::metadata_size::MetadataSizeCheck;
use frost_core::checks::orphan_files::OrphanFilesCheck;
use frost_core::checks::partition_skew::PartitionSkewCheck;
use frost_core::checks::partition_spec_evolution::PartitionSpecEvolutionCheck;
use frost_core::checks::properties_drift::{PropertiesDriftCheck, TARGET_SIZE_KEY};
use frost_core::checks::schema_history::SchemaHistoryCheck;
use frost_core::checks::small_files::SmallFilesCheck;
use frost_core::checks::snapshot_bloat::SnapshotBloatCheck;
use frost_core::checks::sort_compliance::SortComplianceCheck;
use frost_core::checks::stats_coverage::StatsCoverageCheck;
use frost_core::checks::{all_checks, HealthCheck};
use frost_core::config::Thresholds;
use frost_core::metadata::{
    DataFile, DeleteFile, DeleteType, Field, FileFormat, ManifestStats, PartitionField, PartitionSpec, Schema,
    Snapshot, SnapshotRef, SortField, SortOrder, TableMetadata,
};
use frost_core::report::{Detail, Severity};

const HOUR_MS: i64 = 3_600_000;
const DAY_MS: i64 = 86_400_000;

fn now() -> i64 {
    chrono::Utc::now().timestamp_millis()
}

fn fields() -> Vec<Field> {
    vec![
        Field { id: 1, name: "id".to_string(), field_type: "long".to_string(), required: true },
        Field { id: 2, name: "name".to_string(), field_type: "string".to_string(), required: false },
        Field { id: 3, name: "created_at".to_string(), field_type: "timestamp".to_string(), required: false },
    ]
}

/// A minimal valid table, collected at `now`, whose one snapshot was committed at `now`.
fn make_test_metadata(now: i64) -> TableMetadata {
    TableMetadata {
        table_name: "test_db.test_table".to_string(),
        location: "s3://test-bucket/warehouse/test_db/test_table".to_string(),
        current_schema: Schema { schema_id: 0, fields: fields() },
        schemas: vec![Schema { schema_id: 0, fields: fields() }],
        snapshots: vec![Snapshot {
            snapshot_id: 1,
            parent_snapshot_id: None,
            timestamp_ms: now,
            operation: Some("append".to_string()),
            summary: vec![],
            manifest_list: "s3://test-bucket/metadata/snap-1-manifest-list.avro".to_string(),
            schema_id: Some(0),
        }],
        current_snapshot_id: Some(1),
        partition_spec: PartitionSpec { spec_id: 0, fields: vec![] },
        partition_specs: vec![PartitionSpec { spec_id: 0, fields: vec![] }],
        sort_order: None,
        sort_orders: vec![],
        refs: vec![],
        format_version: 2,
        table_uuid: None,
        properties: vec![],
        data_files: vec![],
        delete_files: vec![],
        all_storage_paths: vec![],
        metadata_size_bytes: 1024 * 100,
        manifest_stats: ManifestStats::default(),
        collected_at_ms: now,
    }
}

fn detail<'a>(d: &'a Detail, key: &str) -> &'a Detail {
    match d {
        Detail::Object(entries) => &entries.iter().find(|(k, _)| k == key).expect("missing detail key").1,
        _ => panic!("details are not an object"),
    }
}

fn detail_u64(d: &Detail, key: &str) -> u64 {
    match detail(d, key) {
        Detail::UInt(v) => *v,
        Detail::Int(v) => *v as u64,
        other => panic!("not an integer: {:?}", other),
    }
}

fn branch_ref(snapshot_id: i64, ref_type: &str) -> SnapshotRef {
    SnapshotRef {
        snapshot_id,
        ref_type: ref_type.to_string(),
        max_ref_age_ms: None,
        max_snapshot_age_ms: None,
        min_snapshots_to_keep: None,
    }
}

fn file(path: String, size: u64, records: u64) -> DataFile {
    DataFile { file_path: path, file_size_bytes: size, record_count: records, file_format: FileFormat::Parquet, ..Default::default() }
}

// ---- branch health ----

#[test]
fn no_extra_refs_passes() {
    let t = now();
    let meta = make_test_metadata(t);
    let f = BranchHealthCheck.check(&meta, &Thresholds::default(), t);
    assert_eq!(f.severity, Severity::Pass);
    assert_eq!(f.message, "No branches or tags beyond `main`");
    match &f.details {
        Detail::Object(entries) => {
            assert_eq!(entries.len(), 1);
            assert_eq!(entries[0].0, "ref_count");
            assert!(matches!(entries[0].1, Detail::UInt(0)));
        }
        other => panic!("details are not an object: {:?}", other),
    }
}

#[test]
fn fresh_branch_passes() {
    let t = now();
    let mut meta = make_test_metadata(t);
    meta.snapshots = vec![Snapshot { snapshot_id: 99, timestamp_ms: t, ..Default::default() }];
    meta.refs.push(("audit".to_string(), branch_ref(99, "branch")));
    let f = BranchHealthCheck.check(&meta, &Thresholds::default(), t);
    assert_eq!(f.severity, Severity::Pass);
}

#[test]
fn stale_branch_warns() {
    let t = now();
    let mut meta = make_test_metadata(t);
    meta.snapshots = vec![Snapshot { snapshot_id: 50, timestamp_ms: t - 120 * DAY_MS, ..Default::default() }];
    meta.refs.push(("old-audit".to_string(), branch_ref(50, "branch")));
    let f = BranchHealthCheck.check(&meta, &Thresholds::default(), t);
    assert!(f.severity >= Severity::Warning);
}

#[test]
fn dangling_ref_is_critical() {
    let t = now();
    let mut meta = make_test_metadata(t);
    meta.snapshots = vec![];
    meta.refs.push(("ghost".to_string(), branch_ref(999, "tag")));
    let f = BranchHealthCheck.check(&meta, &Thresholds::default(), t);
    assert_eq!(f.severity, Severity::Critical);
}

#[test]
fn main_branch_alone_is_not_an_extra_ref() {
    let t = now();
    let mut meta = make_test_metadata(t);
    meta.refs.push(("main".to_string(), branch_ref(12345, "branch")));
    let f = BranchHealthCheck.check(&meta, &Thresholds::default(), t);
    assert_eq!(f.severity, Severity::Pass);
}

// ---- delete pressure ----

fn big_file(rows: u64) -> DataFile {
    file("s3://bucket/data/x.parquet".to_string(), 100 * 1024 * 1024, rows)
}

#[test]
fn no_deletes_passes() {
    let meta = make_test_metadata(now());
    let f = DeletePressureCheck.check(&meta, &Thresholds::default());
    assert_eq!(f.severity, Severity::Pass);
}

#[test]
fn equality_deletes_weighted_higher() {
    let mut meta = make_test_metadata(now());
    meta.data_files = vec![big_file(10_000_000)];
    meta.delete_files = (0..20)
        .map(|i| DeleteFile {
            file_path: format!("s3://bucket/deletes/{i}.parquet"),
            file_size_bytes: 1024,
            record_count: 100,
            delete_type: DeleteType::EqualityDelete,
            equality_ids: vec![1],
        })
        .collect();
    let f = DeletePressureCheck.check(&meta, &Thresholds::default());
    assert!(f.severity >= Severity::Warning);
    assert!(f.message.contains("equality"));
}

#[test]
fn high_row_shadow_is_critical() {
    let mut meta = make_test_metadata(now());
    meta.data_files = vec![big_file(1_000)];
    meta.delete_files = vec![DeleteFile {
        file_path: "s3://bucket/deletes/big.parquet".to_string(),
        file_size_bytes: 1024,
        record_count: 500,
        delete_type: DeleteType::PositionDelete,
        equality_ids: vec![],
    }];
    let f = DeletePressureCheck.check(&meta, &Thresholds::default());
    assert_eq!(f.severity, Severity::Critical);
}

// ---- format version ----

#[test]
fn v2_passes() {
    let mut meta = make_test_metadata(now());
    meta.format_version = 2;
    let f = FormatV1Check.check(&meta, &Thresholds::default());
    assert_eq!(f.severity, Severity::Pass);
}

#[test]
fn v1_warns() {
    let mut meta = make_test_metadata(now());
    meta.format_version = 1;
    let f = FormatV1Check.check(&meta, &Thresholds::default());
    assert_eq!(f.severity, Severity::Warning);
    assert!(f.fix_command.unwrap().contains("format-version"));
}

// ---- orphan files ----

fn one_file_table(t: i64) -> TableMetadata {
    let mut meta = make_test_metadata(t);
    meta.data_files = vec![file("s3://bucket/data/part-0.parquet".to_string(), 100 * 1024 * 1024, 1_000_000)];
    meta
}

#[test]
fn no_orphans_passes() {
    let t = now();
    let mut meta = one_file_table(t);
    meta.all_storage_paths = vec!["s3://bucket/data/part-0.parquet".to_string()];
    let finding = OrphanFilesCheck.check(&meta, &Thresholds::default(), t);
    assert_eq!(finding.severity, Severity::Pass);
}

#[test]
fn detects_orphans() {
    let t = now();
    let mut meta = one_file_table(t);
    meta.all_storage_paths = vec![
        "s3://bucket/data/part-0.parquet".to_string(),
        "s3://bucket/data/orphan-1.parquet".to_string(),
        "s3://bucket/data/orphan-2.parquet".to_string(),
    ];
    let finding = OrphanFilesCheck.check(&meta, &Thresholds::default(), t);
    assert_eq!(finding.severity, Severity::Warning);
    assert!(finding.message.contains("2 files"));
    let cmd = finding.fix_command.unwrap();
    assert!(cmd.contains("older_than"));
}

#[test]
fn orphan_sample_is_first_ten_sorted() {
    let t = now();
    let mut meta = one_file_table(t);
    meta.all_storage_paths = (0..150).rev().map(|i| format!("s3://bucket/data/orphan-{i:03}.parquet")).collect();
    meta.all_storage_paths.push("s3://bucket/data/part-0.parquet".to_string());
    let finding = OrphanFilesCheck.check(&meta, &Thresholds::default(), t);
    assert_eq!(finding.severity, Severity::Warning);
    assert_eq!(detail_u64(&finding.details, "orphan_count"), 150);
    let sample: Vec<String> = match detail(&finding.details, "sample_orphans") {
        Detail::List(items) => items
            .iter()
            .map(|d| match d {
                Detail::Text(s) => s.clone(),
                other => panic!("not a text: {:?}", other),
            })
            .collect(),
        other => panic!("not a list: {:?}", other),
    };
    let expected: Vec<String> = (0..10).map(|i| format!("s3://bucket/data/orphan-{i:03}.parquet")).collect();
    assert_eq!(sample, expected);
}

// ---- schema history ----

#[test]
fn many_breaking_schema_changes_only_warn() {
    let mut meta = make_test_metadata(now());
    let changed = vec![
        Field { id: 1, name: "id".to_string(), field_type: "string".to_string(), required: true },
        Field { id: 4, name: "extra".to_string(), field_type: "int".to_string(), required: false },
    ];
    let retyped = vec![
        Field { id: 1, name: "id".to_string(), field_type: "int".to_string(), required: true },
        Field { id: 4, name: "extra".to_string(), field_type: "long".to_string(), required: false },
    ];
    meta.schemas = vec![
        Schema { schema_id: 0, fields: fields() },
        Schema { schema_id: 1, fields: changed },
        Schema { schema_id: 2, fields: retyped },
    ];
    // 0 -> 1: `id` retyped, `name` and `created_at` dropped; 1 -> 2: both retyped.
    let f = SchemaHistoryCheck.check(&meta, &Thresholds::default());
    assert_eq!(f.severity, Severity::Warning);
    assert_eq!(f.message, "5 breaking schema changes detected across 3 versions");
}

// ---- partition skew ----

fn date_spec() -> PartitionSpec {
    PartitionSpec {
        spec_id: 0,
        fields: vec![PartitionField { source_id: 1, field_id: 1000, name: "date".to_string(), transform: "day".to_string() }],
    }
}

fn dated_file(path: String, date: String, size: u64) -> DataFile {
    DataFile {
        file_path: path,
        file_size_bytes: size,
        record_count: 1_000_000,
        partition: vec![("date".to_string(), date)],
        file_format: FileFormat::Parquet,
        ..Default::default()
    }
}

#[test]
fn balanced_partitions_pass() {
    let mut meta = make_test_metadata(now());
    meta.partition_spec = date_spec();
    meta.data_files = (0..30)
        .map(|i| dated_file(format!("s3://bucket/data/part-{i}.parquet"), format!("2026-01-{:02}", (i % 3) + 1), 100 * 1024 * 1024))
        .collect();
    let finding = PartitionSkewCheck.check(&meta, &Thresholds::default());
    assert_eq!(finding.severity, Severity::Pass);
}

#[test]
fn detects_byte_skew_even_with_balanced_file_count() {
    let mut meta = make_test_metadata(now());
    meta.partition_spec = date_spec();
    let mut files = Vec::new();
    for p in 0..3u64 {
        for i in 0..5 {
            let bytes = if p == 0 { 5 * 1024 * 1024 * 1024 } else { 50 * 1024 * 1024 };
            files.push(dated_file(format!("s3://bucket/data/part-{p}-{i}.parquet"), format!("2026-01-{:02}", p + 1), bytes));
        }
    }
    meta.data_files = files;
    let finding = PartitionSkewCheck.check(&meta, &Thresholds::default());
    assert!(finding.severity >= Severity::Warning);
    assert!(finding.message.contains("bytes") || finding.message.contains("by bytes"));
}

#[test]
fn detects_file_count_skew() {
    let mut meta = make_test_metadata(now());
    meta.partition_spec = date_spec();
    let mut files = Vec::new();
    for i in 0..30 {
        files.push(dated_file(format!("s3://bucket/data/part-{i}.parquet"), format!("2026-01-{:02}", (i % 3) + 1), 100 * 1024 * 1024));
    }
    for i in 30..230 {
        files.push(dated_file(format!("s3://bucket/data/part-{i}.parquet"), "2026-01-04".to_string(), 100 * 1024 * 1024));
    }
    meta.data_files = files;
    let finding = PartitionSkewCheck.check(&meta, &Thresholds::default());
    assert!(finding.severity >= Severity::Warning);
    assert!(finding.message.contains("2026-01-04"));
}

#[test]
fn unpartitioned_table_has_no_skew() {
    let mut meta = make_test_metadata(now());
    meta.data_files = (0..4).map(|i| file(format!("f{i}"), 1024, 10)).collect();
    let finding = PartitionSkewCheck.check(&meta, &Thresholds::default());
    assert_eq!(finding.severity, Severity::Pass);
}

// ---- partition spec evolution ----

#[test]
fn single_spec_passes() {
    let meta = make_test_metadata(now());
    let f = PartitionSpecEvolutionCheck.check(&meta, &Thresholds::default());
    assert_eq!(f.severity, Severity::Pass);
}

#[test]
fn flags_files_under_retired_spec() {
    let mut meta = make_test_metadata(now());
    meta.partition_specs = vec![PartitionSpec { spec_id: 0, fields: vec![] }, PartitionSpec { spec_id: 1, fields: vec![] }];
    meta.partition_spec = PartitionSpec { spec_id: 1, fields: vec![] };
    meta.data_files = vec![DataFile { spec_id: Some(0), ..file("x".to_string(), 1024, 100) }];
    let f = PartitionSpecEvolutionCheck.check(&meta, &Thresholds::default());
    assert!(f.severity >= Severity::Warning);
}

#[test]
fn flags_too_many_specs() {
    let mut meta = make_test_metadata(now());
    meta.partition_specs = (0..5).map(|i| PartitionSpec { spec_id: i, fields: vec![] }).collect();
    let f = PartitionSpecEvolutionCheck.check(&meta, &Thresholds::default());
    assert!(f.severity >= Severity::Warning);
}

// ---- properties drift ----

#[test]
fn no_property_passes() {
    let meta = make_test_metadata(now());
    let f = PropertiesDriftCheck.check(&meta, &Thresholds::default());
    assert_eq!(f.severity, Severity::Pass);
}

#[test]
fn aligned_size_passes() {
    let mut meta = make_test_metadata(now());
    meta.properties.push((TARGET_SIZE_KEY.into(), (256 * 1024 * 1024).to_string()));
    meta.data_files = (0..5).map(|_| file("x".to_string(), 260 * 1024 * 1024, 1000)).collect();
    let f = PropertiesDriftCheck.check(&meta, &Thresholds::default());
    assert_eq!(f.severity, Severity::Pass);
}

#[test]
fn large_drift_warns() {
    let mut meta = make_test_metadata(now());
    meta.properties.push((TARGET_SIZE_KEY.into(), (512 * 1024 * 1024).to_string()));
    meta.data_files = (0..5).map(|_| file("x".to_string(), 8 * 1024 * 1024, 1000)).collect();
    let f = PropertiesDriftCheck.check(&meta, &Thresholds::default());
    assert!(f.severity >= Severity::Warning);
}

// ---- small files ----

#[test]
fn healthy_table_passes() {
    let mut meta = make_test_metadata(now());
    meta.data_files = (0..10).map(|i| file(format!("s3://bucket/data/part-{i}.parquet"), 100 * 1024 * 1024, 1_000_000)).collect();
    let finding = SmallFilesCheck.check(&meta, &Thresholds::default());
    assert_eq!(finding.severity, Severity::Pass);
}

#[test]
fn detects_small_files_and_reports_bytes_trapped() {
    let mut meta = make_test_metadata(now());
    meta.data_files = (0..200)
        .map(|i| {
            file(
                format!("s3://bucket/data/part-{i}.parquet"),
                if i < 30 { 1024 * 100 } else { 100 * 1024 * 1024 },
                if i < 30 { 100 } else { 1_000_000 },
            )
        })
        .collect();
    let finding = SmallFilesCheck.check(&meta, &Thresholds::default());
    assert_eq!(finding.severity, Severity::Warning);
    assert!(finding.message.contains("30 files"));
    assert!(finding.message.contains("trapped"));
    assert_eq!(detail_u64(&finding.details, "small_file_count"), 30);
    assert!(detail_u64(&finding.details, "bytes_trapped") > 0);
}

#[test]
fn critical_when_many_small_files() {
    let mut meta = make_test_metadata(now());
    meta.data_files = (0..700)
        .map(|i| file(format!("s3://bucket/data/part-{i}.parquet"), if i < 600 { 1024 } else { 100 * 1024 * 1024 }, 100))
        .collect();
    let finding = SmallFilesCheck.check(&meta, &Thresholds::default());
    assert_eq!(finding.severity, Severity::Critical);
}

// ---- snapshot bloat ----

fn snapshots(t: i64, n: i64, gap_ms: i64) -> Vec<Snapshot> {
    (0..n)
        .map(|i| Snapshot {
            snapshot_id: i,
            timestamp_ms: t - i * gap_ms,
            summary: vec![],
            manifest_list: format!("s3://bucket/metadata/snap-{i}-manifest-list.avro"),
            ..Default::default()
        })
        .collect()
}

#[test]
fn few_recent_snapshots_pass() {
    let t = now();
    let mut meta = make_test_metadata(t);
    meta.snapshots = snapshots(t, 5, HOUR_MS);
    let finding = SnapshotBloatCheck.check(&meta, &Thresholds::default(), t);
    assert_eq!(finding.severity, Severity::Pass);
}

#[test]
fn many_old_snapshots_warn() {
    let t = now();
    let mut meta = make_test_metadata(t);
    meta.snapshots = snapshots(t, 150, DAY_MS);
    let finding = SnapshotBloatCheck.check(&meta, &Thresholds::default(), t);
    assert!(finding.severity >= Severity::Warning);
}

// ---- sort compliance ----

fn file_with_sort(sid: Option<i32>) -> DataFile {
    DataFile { sort_order_id: sid, ..file("x".to_string(), 1024, 100) }
}

fn meta_with_sort() -> TableMetadata {
    let mut meta = make_test_metadata(now());
    meta.sort_order = Some(SortOrder {
        order_id: 1,
        fields: vec![SortField {
            source_id: 1,
            transform: "identity".into(),
            direction: "asc".into(),
            null_order: "nulls-first".into(),
        }],
    });
    meta
}

#[test]
fn no_sort_declared_passes() {
    let meta = make_test_metadata(now());
    let f = SortComplianceCheck.check(&meta, &Thresholds::default());
    assert_eq!(f.severity, Severity::Pass);
}

#[test]
fn high_compliance_passes() {
    let mut meta = meta_with_sort();
    meta.data_files = (0..10).map(|_| file_with_sort(Some(1))).collect();
    let f = SortComplianceCheck.check(&meta, &Thresholds::default());
    assert_eq!(f.severity, Severity::Pass);
}

#[test]
fn low_compliance_warns() {
    let mut meta = meta_with_sort();
    meta.data_files = (0..10).map(|i| file_with_sort(if i < 2 { Some(1) } else { Some(0) })).collect();
    let f = SortComplianceCheck.check(&meta, &Thresholds::default());
    assert!(f.severity >= Severity::Warning);
}

// ---- stats coverage ----

#[test]
fn no_files_passes() {
    let meta = make_test_metadata(now());
    let f = StatsCoverageCheck.check(&meta, &Thresholds::default());
    assert_eq!(f.severity, Severity::Pass);
}

#[test]
fn high_coverage_passes() {
    let mut meta = make_test_metadata(now());
    meta.data_files = (0..10).map(|_| DataFile { value_counts: vec![(1, 100)], ..file("x".to_string(), 1024, 100) }).collect();
    let f = StatsCoverageCheck.check(&meta, &Thresholds::default());
    assert_eq!(f.severity, Severity::Pass);
}

#[test]
fn low_coverage_warns() {
    let mut meta = make_test_metadata(now());
    meta.data_files = (0..10).map(|_| file("x".to_string(), 1024, 100)).collect();
    let f = StatsCoverageCheck.check(&meta, &Thresholds::default());
    assert!(f.severity >= Severity::Warning);
}

// ---- freshness and metadata size ----

#[test]
fn recent_commit_is_fresh() {
    let t = now();
    let meta = make_test_metadata(t);
    let f = FreshnessCheck.check(&meta, &Thresholds::default(), t);
    assert_eq!(f.severity, Severity::Pass);
    assert_eq!(f.message, "Last commit 0 hours ago (threshold: 48 hours)");
}

#[test]
fn freshness_severity_follows_hours_since_commit() {
    let t = 1_750_000_000_000;
    let mut meta = make_test_metadata(t);
    meta.snapshots[0].timestamp_ms = t - 100 * HOUR_MS;
    let f = FreshnessCheck.check(&meta, &Thresholds::default(), t);
    assert_eq!(f.severity, Severity::Warning);
    assert_eq!(f.message, "Table is stale \u{2014} last commit 4 days ago (100 hours)");
    meta.snapshots[0].timestamp_ms = t - 400 * HOUR_MS;
    let f = FreshnessCheck.check(&meta, &Thresholds::default(), t);
    assert_eq!(f.severity, Severity::Warning);
    assert_eq!(f.message, "Table is stale \u{2014} last commit 16 days ago (400 hours)");
}

#[test]
fn table_without_snapshots_is_flagged() {
    let t = now();
    let mut meta = make_test_metadata(t);
    meta.snapshots = vec![];
    let f = FreshnessCheck.check(&meta, &Thresholds::default(), t);
    assert_eq!(f.severity, Severity::Warning);
    assert_eq!(f.message, "No snapshots \u{2014} table has never been written to");
}

#[test]
fn small_metadata_passes_with_sizes_in_mb() {
    let meta = make_test_metadata(now());
    let f = MetadataSizeCheck.check(&meta, &Thresholds::default());
    assert_eq!(f.severity, Severity::Pass);
    assert_eq!(f.message, "Metadata size 0.1 MB (threshold: 500 MB)");
}

#[test]
fn oversized_metadata_warns_then_goes_critical() {
    let mut meta = make_test_metadata(now());
    meta.metadata_size_bytes = 600 * 1024 * 1024;
    let f = MetadataSizeCheck.check(&meta, &Thresholds::default());
    assert_eq!(f.severity, Severity::Warning);
    assert_eq!(f.message, "Metadata size is 600.0 MB \u{2014} oversized");
    assert_eq!(f.fix_command.unwrap(), "CALL catalog.system.rewrite_manifests(table => 'test_db.test_table')");
    meta.metadata_size_bytes = 1600 * 1024 * 1024;
    let f = MetadataSizeCheck.check(&meta, &Thresholds::default());
    assert_eq!(f.severity, Severity::Critical);
}

// ---- the registry ----

#[test]
fn registry_lists_every_check_once() {
    let checks = all_checks();
    assert_eq!(checks.len(), 15);
    let mut ids: Vec<&str> = checks.iter().map(|c| c.id()).collect();
    ids.sort();
    ids.dedup();
    assert_eq!(ids.len(), 15);
}

#[test]
fn dispatch_matches_the_check_it_names() {
    let t = now();
    let mut meta = make_test_metadata(t);
    meta.format_version = 1;
    let th = Thresholds::default();
    let f = HealthCheck::FormatV1.check(&meta, &th, t);
    let g = FormatV1Check.check(&meta, &th);
    assert_eq!(f.check_id, "format_v1");
    assert_eq!(f.severity, g.severity);
    assert_eq!(f.message, g.message);
}
