use frost_core::catalog::glue::{glue_table_identifier, GlueCatalog};
use frost_core::catalog::rest::{encode_namespace, listed_table_name, parse_table_identifier, RestCatalog};
use frost_core::catalog::{
    current_snapshot, extract_version, file_name, hinted_metadata_name, latest_metadata_index, resolve_candidates,
    CatalogError, FilesystemCatalog,
};
use frost_core::metadata::{ManifestStats, PartitionSpec, Schema, Snapshot, TableMetadata};

#[test]
fn parse_table_identifier_simple() {
    let (ns, table) = parse_table_identifier("db.events").ok().unwrap();
    assert_eq!(ns, "db");
    assert_eq!(table, "events");
}

#[test]
fn parse_table_identifier_nested_namespace() {
    let (ns, table) = parse_table_identifier("catalog.db.events").ok().unwrap();
    assert_eq!(ns, "catalog.db");
    assert_eq!(table, "events");
}

#[test]
fn parse_table_identifier_no_namespace() {
    assert!(parse_table_identifier("events").is_err());
}

#[test]
fn encode_namespace_simple() {
    assert_eq!(encode_namespace("db"), "db");
}

#[test]
fn encode_namespace_nested() {
    assert_eq!(encode_namespace("catalog.db"), "catalog%1Fdb");
}

#[test]
fn api_base_no_prefix() {
    let cat = RestCatalog::new("http://localhost:8181".to_string(), None, None);
    assert_eq!(cat.api_base(), "http://localhost:8181/v1");
}

#[test]
fn api_base_with_prefix() {
    let cat = RestCatalog::new("http://localhost:8181".to_string(), Some("my_catalog".to_string()), None);
    assert_eq!(cat.api_base(), "http://localhost:8181/v1/my_catalog");
}

#[test]
fn api_base_strips_trailing_slash() {
    let cat = RestCatalog::new("http://localhost:8181/".to_string(), None, None);
    assert_eq!(cat.api_base(), "http://localhost:8181/v1");
}

#[test]
fn rest_endpoints_follow_the_spec_paths() {
    let cat = RestCatalog::new("http://host//".to_string(), Some("/wh/".to_string()), Some("tok".to_string()));
    assert_eq!(cat.api_base(), "http://host/v1/wh");
    assert_eq!(cat.namespaces_url(), "http://host/v1/wh/namespaces");
    assert_eq!(cat.tables_url("a.b"), "http://host/v1/wh/namespaces/a%1Fb/tables");
    assert_eq!(cat.table_url("a.b.events").ok().unwrap(), "http://host/v1/wh/namespaces/a%1Fb/tables/events");
    match cat.table_url("events") {
        Err(CatalogError::Parse(m)) => assert_eq!(m, "invalid table identifier 'events': expected 'namespace.table'"),
        _ => panic!("expected a parse error"),
    }
    assert_eq!(listed_table_name(&vec!["a".to_string(), "b".to_string()], "t"), "a.b.t");
}

#[test]
fn glue_identifier_splits_at_the_first_dot() {
    let (db, t) = glue_table_identifier("sales.orders.v2").ok().unwrap();
    assert_eq!(db, "sales");
    assert_eq!(t, "orders.v2");
    match glue_table_identifier("orders") {
        Err(CatalogError::Parse(m)) => assert_eq!(m, "Invalid table identifier 'orders': expected 'database.table'"),
        _ => panic!("expected a parse error"),
    }
    let g = GlueCatalog::new(Some("eu-west-1".to_string()), "s3://wh".to_string());
    assert_eq!(g.region.as_deref(), Some("eu-west-1"));
}

#[test]
fn table_path_joins_identifier_parts() {
    let cat = FilesystemCatalog::new("/data/wh".to_string());
    assert_eq!(cat.resolve_table_path("db.events"), "/data/wh/db/events");
    let cat = FilesystemCatalog::new("/data/wh/".to_string());
    assert_eq!(cat.resolve_table_path("events"), "/data/wh/events");
}

#[test]
fn metadata_versions_come_from_file_names() {
    assert_eq!(extract_version("/wh/t/metadata/v3.metadata.json"), 3);
    assert_eq!(extract_version("v12.metadata.json"), 12);
    assert_eq!(extract_version("/wh/t/metadata/00001-abc.metadata.json"), 0);
    assert_eq!(extract_version("/wh/t/metadata/"), 0);
    assert_eq!(file_name("/a/b/c.txt").as_deref(), Some("c.txt"));
    assert_eq!(file_name("/a/b/").as_deref(), Some("b"));
    assert_eq!(file_name("/"), None);
}

#[test]
fn latest_metadata_is_highest_version_last_on_ties() {
    let paths = vec![
        "m/v2.metadata.json".to_string(),
        "m/v10.metadata.json".to_string(),
        "m/v9.metadata.json".to_string(),
        "n/v10.metadata.json".to_string(),
    ];
    assert_eq!(latest_metadata_index(&paths), Some(3));
    assert_eq!(latest_metadata_index(&vec![]), None);
}

#[test]
fn version_hint_names_a_metadata_file() {
    assert_eq!(hinted_metadata_name(" 7\n").ok().unwrap(), "v7.metadata.json");
    match hinted_metadata_name("seven") {
        Err(CatalogError::Parse(m)) => assert_eq!(m, "invalid version hint: seven"),
        _ => panic!("expected a parse error"),
    }
}

#[test]
fn file_candidates_are_tried_in_order() {
    let c = resolve_candidates("s3://bucket/wh/db/t/metadata/snap.avro", &"/wh/db/t".to_string(), &"/wh".to_string());
    assert_eq!(
        c,
        vec![
            "/wh/wh/db/t/metadata/snap.avro".to_string(),
            "/wh/db/t/metadata/snap.avro".to_string(),
            "/wh/db/t/s3://bucket/wh/db/t/metadata/snap.avro".to_string(),
            "/wh/db/t/metadata/snap.avro".to_string(),
        ]
    );
    let c = resolve_candidates("/abs/m.avro", &"/wh/t".to_string(), &"/wh".to_string());
    assert_eq!(c, vec!["/abs/m.avro".to_string(), "/abs/m.avro".to_string(), "/wh/t/metadata/m.avro".to_string()]);
}

fn table_with(snapshots: Vec<Snapshot>, current: Option<i64>) -> TableMetadata {
    TableMetadata {
        table_name: "a.b".to_string(),
        location: String::new(),
        format_version: 2,
        table_uuid: None,
        properties: vec![],
        current_schema: Schema { schema_id: 0, fields: vec![] },
        schemas: vec![],
        snapshots,
        current_snapshot_id: current,
        partition_spec: PartitionSpec { spec_id: 0, fields: vec![] },
        partition_specs: vec![],
        sort_order: None,
        sort_orders: vec![],
        refs: vec![],
        data_files: vec![],
        delete_files: vec![],
        all_storage_paths: vec![],
        metadata_size_bytes: 0,
        manifest_stats: ManifestStats::default(),
        collected_at_ms: 0,
    }
}

#[test]
fn current_snapshot_falls_back_to_the_last() {
    let snaps = || vec![
        Snapshot { snapshot_id: 1, ..Default::default() },
        Snapshot { snapshot_id: 2, ..Default::default() },
        Snapshot { snapshot_id: 3, ..Default::default() },
    ];
    assert_eq!(current_snapshot(&table_with(snaps(), Some(2))).unwrap().snapshot_id, 2);
    assert_eq!(current_snapshot(&table_with(snaps(), Some(9))).unwrap().snapshot_id, 3);
    assert_eq!(current_snapshot(&table_with(snaps(), None)).unwrap().snapshot_id, 3);
    assert!(current_snapshot(&table_with(vec![], Some(1))).is_none());
}

#[test]
fn catalog_errors_display_their_kind() {
    assert_eq!(CatalogError::TableNotFound("x".to_string()).message(), "table not found: x");
    assert_eq!(CatalogError::Parse("bad".to_string()).message(), "metadata parse error: bad");
}
