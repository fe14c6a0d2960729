use frost_core::cost::cost_counts;
use frost_core::metadata::{
    DataFile, DeleteFile, DeleteType, FileFormat, ManifestStats, PartitionSpec, Schema, Snapshot, TableMetadata,
};
use frost_core::partition::group_data_files;

fn table(data: Vec<DataFile>, deletes: Vec<DeleteFile>, paths: usize, snapshots: usize) -> TableMetadata {
    TableMetadata {
        table_name: "db.t".to_string(),
        location: "s3://b/db/t".to_string(),
        format_version: 2,
        table_uuid: None,
        properties: vec![],
        current_schema: Schema { schema_id: 0, fields: vec![] },
        schemas: vec![],
        snapshots: (0..snapshots as i64).map(|i| Snapshot { snapshot_id: i, ..Default::default() }).collect(),
        current_snapshot_id: None,
        partition_spec: PartitionSpec { spec_id: 0, fields: vec![] },
        partition_specs: vec![],
        sort_order: None,
        sort_orders: vec![],
        refs: vec![],
        data_files: data,
        delete_files: deletes,
        all_storage_paths: (0..paths).map(|i| format!("s3://b/db/t/data/{i}.parquet")).collect(),
        metadata_size_bytes: 0,
        manifest_stats: ManifestStats::default(),
        collected_at_ms: 0,
    }
}

fn data(size: u64, rows: u64, date: &str) -> DataFile {
    DataFile {
        file_path: "x".to_string(),
        file_size_bytes: size,
        record_count: rows,
        partition: vec![("date".to_string(), date.to_string())],
        file_format: FileFormat::Parquet,
        ..Default::default()
    }
}

fn delete(t: DeleteType) -> DeleteFile {
    DeleteFile { file_path: "d".to_string(), file_size_bytes: 10, record_count: 1, delete_type: t, equality_ids: vec![] }
}

#[test]
fn cost_counts_of_a_table() {
    let m = table(
        vec![data(1024, 1, "a"), data(100 * 1024 * 1024, 5, "b"), data(2048, 1, "a")],
        vec![delete(DeleteType::PositionDelete), delete(DeleteType::EqualityDelete), delete(DeleteType::EqualityDelete)],
        10,
        130,
    );
    let c = cost_counts(&m);
    assert_eq!(c.orphan_count, 4);
    assert_eq!(c.avg_file_bytes, (1024 + 100 * 1024 * 1024 + 2048) / 3);
    assert_eq!(c.excess_snapshots, 30);
    assert_eq!(c.small_files, 2);
    assert_eq!((c.position_deletes, c.equality_deletes), (1, 2));
}

#[test]
fn cost_counts_of_an_empty_table() {
    let c = cost_counts(&table(vec![], vec![], 0, 3));
    assert_eq!(c.orphan_count, 0);
    assert_eq!(c.avg_file_bytes, 128 * 1024 * 1024);
    assert_eq!(c.excess_snapshots, 0);
}

#[test]
fn grouping_keeps_the_totals() {
    let files = vec![data(10, 1, "a"), data(20, 2, "b"), data(30, 3, "a"), data(40, 4, "c")];
    let groups = group_data_files(&files, false, None);
    assert_eq!(groups.len(), 3);
    assert_eq!(groups.iter().map(|g| g.total_bytes).sum::<u64>(), 100);
    assert_eq!(groups.iter().map(|g| g.total_rows).sum::<u64>(), 10);
    assert_eq!(groups.iter().map(|g| g.file_count).sum::<u64>(), 4);
    assert_eq!(groups[0].key, "date=a");
    assert_eq!(groups[0].file_count, 2);
}
