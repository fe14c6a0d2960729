use apache_avro::types::{Record, Value};
use apache_avro::{Schema as AvroSchema, Writer};
use frost_core::metadata::{DeleteType, FileFormat};
use frost_core::parse::manifest::{
    manifest_stats_from_list, parse_file_format, parse_manifest_bytes, parse_manifest_list_bytes, push_entry,
    ManifestDataFile, ManifestEntry, ManifestListEntry, ManifestParseError,
};
use frost_core::parse::metadata_json::{
    build_table_metadata, RawField, RawFieldType, RawMetadata, RawPartitionField, RawPartitionSpec, RawSchema,
    RawSnapshot, RawSnapshotRef, RawSortField, RawSortOrder,
};

fn entry(path: &str, length: i64) -> ManifestListEntry {
    ManifestListEntry {
        manifest_path: path.into(),
        manifest_length: length,
        partition_spec_id: 0,
        content: 0,
        added_snapshot_id: 1,
        added_files_count: 0,
        existing_files_count: 0,
        deleted_files_count: 0,
        added_rows_count: 0,
        existing_rows_count: 0,
        deleted_rows_count: 0,
    }
}

#[test]
fn manifest_stats_handles_empty() {
    let stats = manifest_stats_from_list(&[]);
    assert_eq!(stats.manifest_count, 0);
    assert_eq!(stats.manifests_total_bytes, 0);
}

#[test]
fn manifest_stats_computes_distribution() {
    let entries = vec![entry("a", 100), entry("b", 200), entry("c", 1000)];
    let stats = manifest_stats_from_list(&entries);
    assert_eq!(stats.manifest_count, 3);
    assert_eq!(stats.manifests_total_bytes, 1300);
    assert_eq!(stats.median_manifest_bytes, 200);
    assert_eq!(stats.max_manifest_bytes, 1000);
}

#[test]
fn manifest_stats_median_is_upper_middle_and_ignores_order() {
    let entries = vec![entry("a", 40), entry("b", 10), entry("c", 30), entry("d", 20)];
    let stats = manifest_stats_from_list(&entries);
    assert_eq!(stats.median_manifest_bytes, 30);
    assert_eq!(stats.max_manifest_bytes, 40);
    assert_eq!(stats.manifests_total_bytes, 100);
}

#[test]
fn file_formats_are_read_case_insensitively() {
    assert_eq!(parse_file_format("PARQUET"), FileFormat::Parquet);
    assert_eq!(parse_file_format("avro"), FileFormat::Avro);
    assert_eq!(parse_file_format("Orc"), FileFormat::Orc);
    assert_eq!(parse_file_format("csv"), FileFormat::Parquet);
}

const LIST_SCHEMA: &str = r#"{
    "type": "record", "name": "manifest_file",
    "fields": [
        {"name": "manifest_path", "type": "string"},
        {"name": "manifest_length", "type": "long"},
        {"name": "partition_spec_id", "type": "int"},
        {"name": "added_snapshot_id", "type": "long"}
    ]
}"#;

fn avro_bytes(schema: &str, records: Vec<Vec<(&str, Value)>>) -> Vec<u8> {
    let schema = AvroSchema::parse_str(schema).unwrap();
    let mut writer = Writer::new(&schema, Vec::new()).unwrap();
    for fields in records {
        let mut r = Record::new(&schema).unwrap();
        for (k, v) in fields {
            r.put(k, v);
        }
        writer.append(r).unwrap();
    }
    writer.into_inner().unwrap()
}

#[test]
fn manifest_list_bytes_are_decoded() {
    let bytes = avro_bytes(
        LIST_SCHEMA,
        vec![
            vec![
                ("manifest_path", Value::String("s3://b/m1.avro".into())),
                ("manifest_length", Value::Long(4096)),
                ("partition_spec_id", Value::Int(2)),
                ("added_snapshot_id", Value::Long(77)),
            ],
            vec![
                ("manifest_path", Value::String("s3://b/m2.avro".into())),
                ("manifest_length", Value::Long(10)),
                ("partition_spec_id", Value::Int(0)),
                ("added_snapshot_id", Value::Long(78)),
            ],
        ],
    );
    let entries = parse_manifest_list_bytes(&bytes).ok().unwrap();
    assert_eq!(entries.len(), 2);
    assert_eq!(entries[0].manifest_path, "s3://b/m1.avro");
    assert_eq!(entries[0].manifest_length, 4096);
    assert_eq!(entries[0].partition_spec_id, 2);
    assert_eq!(entries[0].added_snapshot_id, 77);
    assert_eq!(entries[0].added_files_count, 0);
    assert_eq!(entries[1].manifest_length, 10);
}

#[test]
fn garbage_bytes_are_an_avro_error() {
    match parse_manifest_list_bytes(b"not avro at all") {
        Err(ManifestParseError::Avro(_)) => {}
        _ => panic!("expected an Avro error"),
    }
}

#[test]
fn missing_manifest_path_is_reported() {
    let schema = r#"{"type": "record", "name": "m", "fields": [{"name": "manifest_length", "type": "long"}]}"#;
    let bytes = avro_bytes(schema, vec![vec![("manifest_length", Value::Long(1))]]);
    match parse_manifest_list_bytes(&bytes) {
        Err(ManifestParseError::MissingField(k)) => assert_eq!(k, "manifest_path"),
        _ => panic!("expected a missing field"),
    }
}

const MANIFEST_SCHEMA: &str = r#"{
    "type": "record", "name": "manifest_entry",
    "fields": [
        {"name": "status", "type": "int"},
        {"name": "snapshot_id", "type": ["null", "long"]},
        {"name": "data_file", "type": {
            "type": "record", "name": "r2",
            "fields": [
                {"name": "content", "type": "int"},
                {"name": "file_path", "type": "string"},
                {"name": "file_format", "type": "string"},
                {"name": "partition", "type": {"type": "record", "name": "r102", "fields": [
                    {"name": "date", "type": ["null", "string"]}
                ]}},
                {"name": "record_count", "type": "long"},
                {"name": "file_size_in_bytes", "type": "long"},
                {"name": "equality_ids", "type": ["null", {"type": "array", "items": "int"}]}
            ]
        }}
    ]
}"#;

fn manifest_entry(status: i32, content: i32, path: &str, size: i64, rows: i64) -> Vec<(&'static str, Value)> {
    let data_file = Value::Record(vec![
        ("content".to_string(), Value::Int(content)),
        ("file_path".to_string(), Value::String(path.to_string())),
        ("file_format".to_string(), Value::String("PARQUET".to_string())),
        (
            "partition".to_string(),
            Value::Record(vec![("date".to_string(), Value::Union(1, Box::new(Value::String("2026-01-01".to_string()))))]),
        ),
        ("record_count".to_string(), Value::Long(rows)),
        ("file_size_in_bytes".to_string(), Value::Long(size)),
        (
            "equality_ids".to_string(),
            if content == 2 {
                Value::Union(1, Box::new(Value::Array(vec![Value::Int(1), Value::Int(3)])))
            } else {
                Value::Union(0, Box::new(Value::Null))
            },
        ),
    ]);
    vec![
        ("status", Value::Int(status)),
        ("snapshot_id", Value::Union(1, Box::new(Value::Long(5)))),
        ("data_file", data_file),
    ]
}

#[test]
fn manifest_entries_become_data_and_delete_files() {
    let bytes = avro_bytes(
        MANIFEST_SCHEMA,
        vec![
            manifest_entry(1, 0, "s3://b/data/a.parquet", 2048, 10),
            manifest_entry(2, 0, "s3://b/data/gone.parquet", 100, 1),
            manifest_entry(1, 1, "s3://b/del/p.parquet", 64, 3),
            manifest_entry(0, 2, "s3://b/del/e.parquet", 32, 4),
        ],
    );
    let (data, deletes) = parse_manifest_bytes(&bytes).ok().unwrap();
    assert_eq!(data.len(), 1);
    assert_eq!(data[0].file_path, "s3://b/data/a.parquet");
    assert_eq!(data[0].file_size_bytes, 2048);
    assert_eq!(data[0].record_count, 10);
    assert_eq!(data[0].partition, vec![("date".to_string(), "2026-01-01".to_string())]);
    assert_eq!(deletes.len(), 2);
    assert_eq!(deletes[0].delete_type, DeleteType::PositionDelete);
    assert_eq!(deletes[1].delete_type, DeleteType::EqualityDelete);
    assert_eq!(deletes[1].equality_ids, vec![1, 3]);
}

fn field(id: i32, name: &str, required: bool, ty: &str) -> RawField {
    RawField { id, name: name.into(), required, field_type: RawFieldType::Name(ty.into()) }
}

fn raw_snapshot(id: i64, parent: Option<i64>, ts: i64, op: Option<&str>, files: &str, list: &str) -> RawSnapshot {
    let mut summary = vec![];
    if let Some(op) = op {
        summary.push(("operation".to_string(), op.to_string()));
    }
    if !files.is_empty() {
        summary.push(("added-data-files".to_string(), files.to_string()));
    }
    RawSnapshot {
        snapshot_id: id,
        parent_snapshot_id: parent,
        timestamp_ms: ts,
        summary,
        manifest_list: Some(list.to_string()),
        schema_id: None,
    }
}

fn sample_v2() -> RawMetadata {
    RawMetadata {
        format_version: 2,
        table_uuid: Some("test-uuid-1234".into()),
        location: "s3://test-bucket/warehouse/db/events".into(),
        last_updated_ms: Some(1712700000000),
        properties: vec![
            ("write.target-file-size-bytes".into(), "536870912".into()),
            ("write.distribution-mode".into(), "hash".into()),
        ],
        schemas: vec![
            RawSchema { schema_id: Some(0), fields: vec![field(1, "id", true, "long"), field(2, "data", false, "string")] },
            RawSchema {
                schema_id: Some(1),
                fields: vec![field(1, "id", true, "long"), field(2, "data", false, "string"), field(3, "ts", true, "timestamp")],
            },
        ],
        schema: None,
        current_schema_id: Some(1),
        partition_specs: vec![
            RawPartitionSpec {
                spec_id: 0,
                fields: vec![RawPartitionField { source_id: 3, field_id: Some(1000), name: "ts_day".into(), transform: "day".into() }],
            },
            RawPartitionSpec {
                spec_id: 1,
                fields: vec![RawPartitionField { source_id: 3, field_id: Some(1000), name: "ts_hour".into(), transform: "hour".into() }],
            },
        ],
        partition_spec: None,
        default_spec_id: Some(1),
        sort_orders: vec![RawSortOrder {
            order_id: 1,
            fields: vec![RawSortField {
                source_id: 1,
                transform: "identity".into(),
                direction: "asc".into(),
                null_order: "nulls-first".into(),
            }],
        }],
        default_sort_order_id: Some(1),
        snapshots: vec![
            raw_snapshot(100, None, 1712600000000, Some("append"), "5", "s3://test-bucket/metadata/snap-100-m0.avro"),
            raw_snapshot(200, Some(100), 1712700000000, Some("overwrite"), "3", "s3://test-bucket/metadata/snap-200-m0.avro"),
        ],
        current_snapshot_id: Some(200),
        refs: vec![
            (
                "main".into(),
                RawSnapshotRef { snapshot_id: 200, ref_type: "branch".into(), max_ref_age_ms: None, max_snapshot_age_ms: None, min_snapshots_to_keep: None },
            ),
            (
                "audit".into(),
                RawSnapshotRef {
                    snapshot_id: 100,
                    ref_type: "branch".into(),
                    max_ref_age_ms: Some(604800000),
                    max_snapshot_age_ms: None,
                    min_snapshots_to_keep: None,
                },
            ),
        ],
    }
}

#[test]
fn parse_v2_metadata() {
    let meta = build_table_metadata(sample_v2(), "db.events", 2048, 1_750_000_000_000);
    assert_eq!(meta.table_name, "db.events");
    assert_eq!(meta.format_version, 2);
    assert_eq!(meta.table_uuid.as_deref(), Some("test-uuid-1234"));
    assert_eq!(meta.location, "s3://test-bucket/warehouse/db/events");
    assert_eq!(meta.schemas.len(), 2);
    assert_eq!(meta.current_schema.schema_id, 1);
    assert_eq!(meta.current_schema.fields.len(), 3);
    assert_eq!(meta.snapshots.len(), 2);
    assert_eq!(meta.current_snapshot_id, Some(200));
    assert_eq!(meta.partition_spec.fields.len(), 1);
    assert_eq!(meta.partition_spec.fields[0].name, "ts_hour");
    assert_eq!(meta.partition_specs.len(), 2);
    assert!(meta.sort_order.is_some());
    assert_eq!(meta.sort_order.as_ref().unwrap().fields.len(), 1);
    let prop = meta.properties.iter().find(|(k, _)| k == "write.target-file-size-bytes").map(|(_, v)| v.as_str());
    assert_eq!(prop, Some("536870912"));
    assert_eq!(meta.refs.len(), 2);
    let get_ref = |name: &str| &meta.refs.iter().find(|(k, _)| k == name).unwrap().1;
    assert_eq!(get_ref("main").snapshot_id, 200);
    assert_eq!(get_ref("audit").ref_type, "branch");
    let latest = meta.snapshots.iter().max_by_key(|s| s.timestamp_ms).unwrap();
    assert_eq!(latest.operation.as_deref(), Some("overwrite"));
    assert_eq!(latest.parent_snapshot_id, Some(100));
    assert_eq!(meta.metadata_size_bytes, 2048);
    assert_eq!(meta.collected_at_ms, 1_750_000_000_000);
}

#[test]
fn parse_v1_metadata() {
    let raw = RawMetadata {
        format_version: 1,
        table_uuid: None,
        location: "s3://bucket/table".into(),
        last_updated_ms: None,
        properties: vec![],
        schemas: vec![],
        schema: Some(RawSchema { schema_id: None, fields: vec![field(1, "col1", true, "int")] }),
        current_schema_id: None,
        partition_specs: vec![],
        partition_spec: Some(vec![RawPartitionField { source_id: 1, field_id: None, name: "col1_bucket".into(), transform: "bucket[16]".into() }]),
        default_spec_id: None,
        sort_orders: vec![],
        default_sort_order_id: None,
        snapshots: vec![raw_snapshot(1, None, 1700000000000, None, "", "s3://bucket/metadata/snap-1-m0.avro")],
        current_snapshot_id: Some(1),
        refs: vec![],
    };
    let meta = build_table_metadata(raw, "test.table", 500, 0);
    assert_eq!(meta.format_version, 1);
    assert_eq!(meta.schemas.len(), 1);
    assert_eq!(meta.schemas[0].fields[0].name, "col1");
    assert_eq!(meta.partition_spec.fields[0].transform, "bucket[16]");
    assert_eq!(meta.partition_spec.fields[0].field_id, 1001);
    assert_eq!(meta.partition_specs.len(), 1);
    assert_eq!(meta.snapshots.len(), 1);
    assert!(meta.refs.is_empty());
}

fn entry_with(status: i32, content: i32) -> ManifestEntry {
    ManifestEntry {
        status,
        snapshot_id: None,
        data_file: ManifestDataFile {
            content,
            file_path: "s3://b/data/f.parquet".to_string(),
            file_format: "PARQUET".to_string(),
            record_count: 10,
            file_size_in_bytes: 100,
            partition: vec![],
            column_sizes: vec![],
            value_counts: vec![],
            null_value_counts: vec![],
            sort_order_id: None,
            spec_id: None,
            equality_ids: vec![],
        },
    }
}

#[test]
fn only_existing_and_added_entries_are_kept() {
    let mut data = Vec::new();
    let mut deletes = Vec::new();
    for status in [2, 3, -1] {
        push_entry(entry_with(status, 0), &mut data, &mut deletes);
        push_entry(entry_with(status, 1), &mut data, &mut deletes);
    }
    assert!(data.is_empty() && deletes.is_empty());
    push_entry(entry_with(0, 0), &mut data, &mut deletes);
    push_entry(entry_with(1, 2), &mut data, &mut deletes);
    assert_eq!(data.len(), 1);
    assert_eq!(deletes.len(), 1);
    assert!(matches!(deletes[0].delete_type, DeleteType::EqualityDelete));
}
