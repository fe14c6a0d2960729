//! Synthetic metadata for trying frost without a catalog: a day-partitioned
//! events table with a run of small files, three orphans and more
//! snapshots than the default retention allows.

use vstd::prelude::*;
use crate::clock::{chrono_ms_in_range, now_ms};
use crate::metadata::{
    keys_unique, DataFile, Field, FileFormat, ManifestStats, PartitionField, PartitionSpec, Schema, Snapshot,
    TableMetadata,
};
use crate::text::{dec, u64_text, zero_pad, zero_pad_text};

verus! {

/// Number of regular (128 MiB) files in the demo table.
pub const DEMO_LARGE_FILES: u64 = 50;

/// Number of data files in the demo table; the last ones are small.
pub const DEMO_FILES: u64 = 75;

/// Number of snapshots in the demo table, two hours apart.
pub const DEMO_SNAPSHOTS: u64 = 120;

/// Milliseconds between two demo snapshots.
pub const DEMO_SNAPSHOT_GAP_MS: i64 = 7_200_000;

/// The table location prefix of the demo warehouse.
pub open spec fn demo_root(t: Seq<char>) -> Seq<char> {
    "s3://demo-bucket/warehouse/"@ + t
}

/// The partition date of demo file `i`: a March day cycling over 28 days
/// for the regular files, April 1st for the small ones.
pub open spec fn demo_date(i: nat) -> Seq<char> {
    if i < 50 {
        "2026-03-"@ + zero_pad(dec((i % 28) + 1), 2)
    } else {
        "2026-04-01"@
    }
}

/// The path of demo data file `i`.
pub open spec fn demo_file_path(t: Seq<char>, i: nat) -> Seq<char> {
    demo_root(t) + "/data/date="@ + demo_date(i) + "/part-"@ + zero_pad(dec(i), 5) + ".parquet"@
}

/// The path of the `k`-th orphan file.
pub open spec fn demo_orphan_path(t: Seq<char>, k: nat) -> Seq<char> {
    demo_root(t) + "/data/orphan-"@ + zero_pad(dec(k), 3) + ".parquet"@
}

/// The manifest list of demo snapshot `id`.
pub open spec fn demo_manifest_list(t: Seq<char>, id: nat) -> Seq<char> {
    demo_root(t) + "/metadata/snap-"@ + dec(id) + "-manifest-list.avro"@
}

/// `f` is demo data file `i`: 128 MiB and 1.5M rows for the first 50,
/// 512 KiB and 500 rows after; Parquet, one `date` partition value, no
/// column statistics.
pub open spec fn is_demo_data_file(f: DataFile, t: Seq<char>, i: nat) -> bool {
    &&& f.file_path@ == demo_file_path(t, i)
    &&& f.file_size_bytes == if i < 50 { 134_217_728u64 } else { 524_288u64 }
    &&& f.record_count == if i < 50 { 1_500_000u64 } else { 500u64 }
    &&& f.partition@.len() == 1
    &&& f.partition@[0].0@ == "date"@
    &&& f.partition@[0].1@ == demo_date(i)
    &&& f.file_format == FileFormat::Parquet
    &&& f.column_sizes@.len() == 0
    &&& f.value_counts@.len() == 0
    &&& f.null_value_counts@.len() == 0
    &&& f.sort_order_id is None
    &&& f.spec_id is None
}

/// `s` is demo snapshot `i`: ID `i + 1`, child of snapshot `i`, committed
/// `2i` hours before `now`, an append under schema 1.
pub open spec fn is_demo_snapshot(s: Snapshot, t: Seq<char>, i: nat, now: i64) -> bool {
    &&& s.snapshot_id == i + 1
    &&& s.parent_snapshot_id == if i == 0 { None } else { Some(i as i64) }
    &&& s.timestamp_ms == now - i * 7_200_000
    &&& s.operation matches Some(op) && op@ == "append"@
    &&& s.summary@.len() == 0
    &&& s.manifest_list@ == demo_manifest_list(t, i + 1)
    &&& s.schema_id == Some(1i32)
}

/// A field with the given ID, name, type and requiredness.
pub open spec fn field_is(f: Field, id: i32, name: Seq<char>, ty: Seq<char>, required: bool) -> bool {
    f.id == id && f.name@ == name && f.field_type@ == ty && f.required == required
}

/// The demo schema: `id`, `user_id`, `event_type`, then (in schema 1)
/// `payload`, then `created_at`.
pub open spec fn is_demo_schema(s: Schema, with_payload: bool) -> bool {
    let fs = s.fields@;
    &&& field_is(fs[0], 1, "id"@, "long"@, true)
    &&& field_is(fs[1], 2, "user_id"@, "long"@, true)
    &&& field_is(fs[2], 3, "event_type"@, "string"@, true)
    &&& if with_payload {
        &&& s.schema_id == 1
        &&& fs.len() == 5
        &&& field_is(fs[3], 4, "payload"@, "string"@, false)
        &&& field_is(fs[4], 5, "created_at"@, "timestamp"@, true)
    } else {
        &&& s.schema_id == 0
        &&& fs.len() == 4
        &&& field_is(fs[3], 4, "created_at"@, "timestamp"@, true)
    }
}

/// The demo partition spec: spec 0, partitioned by day of `created_at`.
pub open spec fn is_demo_spec(p: PartitionSpec) -> bool {
    &&& p.spec_id == 0
    &&& p.fields@.len() == 1
    &&& p.fields@[0].source_id == 5
    &&& p.fields@[0].field_id == 1000
    &&& p.fields@[0].name@ == "date"@
    &&& p.fields@[0].transform@ == "day"@
}

/// `m` is the demo table `t` as collected at `now`.
pub open spec fn is_demo_metadata(m: TableMetadata, t: Seq<char>, now: i64) -> bool {
    &&& m.table_name@ == t
    &&& m.location@ == demo_root(t)
    &&& m.format_version == 2
    &&& m.table_uuid matches Some(u) && u@ == "demo-uuid-0001"@
    &&& m.properties@.len() == 2
    &&& m.properties@[0].0@ == "write.target-file-size-bytes"@
    &&& m.properties@[0].1@ == "536870912"@
    &&& m.properties@[1].0@ == "write.distribution-mode"@
    &&& m.properties@[1].1@ == "hash"@
    &&& is_demo_schema(m.current_schema, true)
    &&& m.schemas@.len() == 2
    &&& is_demo_schema(m.schemas@[0], false)
    &&& is_demo_schema(m.schemas@[1], true)
    &&& m.snapshots@.len() == 120
    &&& forall|i: int| 0 <= i < 120 ==> is_demo_snapshot(#[trigger] m.snapshots@[i], t, i as nat, now)
    &&& m.current_snapshot_id == Some(120i64)
    &&& is_demo_spec(m.partition_spec)
    &&& m.partition_specs@.len() == 1
    &&& is_demo_spec(m.partition_specs@[0])
    &&& m.sort_order is None
    &&& m.sort_orders@.len() == 0
    &&& m.refs@.len() == 0
    &&& m.data_files@.len() == 75
    &&& forall|i: int| 0 <= i < 75 ==> is_demo_data_file(#[trigger] m.data_files@[i], t, i as nat)
    &&& m.delete_files@.len() == 0
    &&& m.all_storage_paths@.len() == 78
    &&& forall|i: int| 0 <= i < 75 ==> (#[trigger] m.all_storage_paths@[i])@ == demo_file_path(t, i as nat)
    &&& forall|k: int| 0 <= k < 3 ==> (#[trigger] m.all_storage_paths@[75 + k])@ == demo_orphan_path(t, k as nat)
    &&& m.metadata_size_bytes == 45 * 1024 * 1024
    &&& m.manifest_stats == (ManifestStats {
        manifest_count: 0,
        manifests_total_bytes: 0,
        median_manifest_bytes: 0,
        max_manifest_bytes: 0,
    })
    &&& m.collected_at_ms == now
}

fn lit(s: &str) -> (r: String)
    ensures
        r@ == s@,
{
    String::from_str(s)
}

fn padded(n: u64, width: u32) -> (s: String)
    ensures
        s@ == zero_pad(dec(n as nat), width as nat),
{
    zero_pad_text(u64_text(n), width)
}

fn root_text(t: &str) -> (s: String)
    ensures
        s@ == demo_root(t@),
{
    let mut s = lit("s3://demo-bucket/warehouse/");
    s.append(t);
    s
}

fn date_text(i: u64) -> (s: String)
    ensures
        s@ == demo_date(i as nat),
{
    if i < 50 {
        let mut s = lit("2026-03-");
        let d = padded((i % 28) + 1, 2);
        s.append(d.as_str());
        s
    } else {
        lit("2026-04-01")
    }
}

fn demo_data_file(t: &str, i: u64) -> (f: DataFile)
    requires
        i < 75,
    ensures
        is_demo_data_file(f, t@, i as nat),
{
    let date = date_text(i);
    let mut path = root_text(t);
    path.append("/data/date=");
    path.append(date.as_str());
    path.append("/part-");
    let num = padded(i, 5);
    path.append(num.as_str());
    path.append(".parquet");
    let mut partition: Vec<(String, String)> = Vec::new();
    partition.push((lit("date"), date));
    let small = i >= 50;
    DataFile {
        file_path: path,
        file_size_bytes: if small { 512 * 1024 } else { 128 * 1024 * 1024 },
        record_count: if small { 500 } else { 1_500_000 },
        partition,
        file_format: FileFormat::Parquet,
        column_sizes: Vec::new(),
        value_counts: Vec::new(),
        null_value_counts: Vec::new(),
        sort_order_id: None,
        spec_id: None,
    }
}

fn orphan_path(t: &str, k: u64) -> (s: String)
    ensures
        s@ == demo_orphan_path(t@, k as nat),
{
    let mut s = root_text(t);
    s.append("/data/orphan-");
    let num = padded(k, 3);
    s.append(num.as_str());
    s.append(".parquet");
    s
}

fn demo_snapshot(t: &str, i: u64, now: i64) -> (s: Snapshot)
    requires
        i < 120,
        chrono_ms_in_range(now - 856_800_000),
    ensures
        is_demo_snapshot(s, t@, i as nat, now),
{
    let mut list = root_text(t);
    list.append("/metadata/snap-");
    let id = u64_text(i + 1);
    list.append(id.as_str());
    list.append("-manifest-list.avro");
    let offset: i64 = (i as i64) * DEMO_SNAPSHOT_GAP_MS;
    Snapshot {
        snapshot_id: (i + 1) as i64,
        parent_snapshot_id: if i == 0 { None } else { Some(i as i64) },
        timestamp_ms: now - offset,
        operation: Some(lit("append")),
        summary: Vec::new(),
        manifest_list: list,
        schema_id: Some(1),
    }
}

fn field(id: i32, name: &str, ty: &str, required: bool) -> (f: Field)
    ensures
        field_is(f, id, name@, ty@, required),
{
    Field { id, name: lit(name), field_type: lit(ty), required }
}

fn demo_schema(with_payload: bool) -> (s: Schema)
    ensures
        is_demo_schema(s, with_payload),
{
    let mut fields: Vec<Field> = Vec::new();
    fields.push(field(1, "id", "long", true));
    fields.push(field(2, "user_id", "long", true));
    fields.push(field(3, "event_type", "string", true));
    if with_payload {
        fields.push(field(4, "payload", "string", false));
        fields.push(field(5, "created_at", "timestamp", true));
        Schema { schema_id: 1, fields }
    } else {
        fields.push(field(4, "created_at", "timestamp", true));
        Schema { schema_id: 0, fields }
    }
}

fn demo_spec() -> (p: PartitionSpec)
    ensures
        is_demo_spec(p),
{
    let mut fields: Vec<PartitionField> = Vec::new();
    fields.push(PartitionField { source_id: 5, field_id: 1000, name: lit("date"), transform: lit("day") });
    PartitionSpec { spec_id: 0, fields }
}

/// The demo table `table_identifier` as collected at `now`.
pub fn demo_metadata_at(table_identifier: &str, now: i64) -> (m: TableMetadata)
    requires
        chrono_ms_in_range(now as int),
        chrono_ms_in_range(now - 856_800_000),
    ensures
        is_demo_metadata(m, table_identifier@, now),
{
    let t = table_identifier;
    let mut data_files: Vec<DataFile> = Vec::new();
    let mut paths: Vec<String> = Vec::new();
    let mut i: u64 = 0;
    while i < DEMO_FILES
        invariant
            i <= 75,
            data_files@.len() == i,
            paths@.len() == i,
            forall|j: int| 0 <= j < i ==> is_demo_data_file(#[trigger] data_files@[j], t@, j as nat),
            forall|j: int| 0 <= j < i ==> (#[trigger] paths@[j])@ == demo_file_path(t@, j as nat),
        decreases 75 - i,
    {
        let f = demo_data_file(t, i);
        paths.push(f.file_path.clone());
        data_files.push(f);
        i = i + 1;
    }
    let mut k: u64 = 0;
    while k < 3
        invariant
            k <= 3,
            paths@.len() == 75 + k,
            forall|j: int| 0 <= j < 75 ==> (#[trigger] paths@[j])@ == demo_file_path(t@, j as nat),
            forall|j: int| 0 <= j < k ==> (#[trigger] paths@[75 + j])@ == demo_orphan_path(t@, j as nat),
        decreases 3 - k,
    {
        let p = orphan_path(t, k);
        paths.push(p);
        proof {
            assert(paths@[75 + k as int] == p);
        }
        k = k + 1;
    }
    let mut snapshots: Vec<Snapshot> = Vec::new();
    let mut s: u64 = 0;
    while s < DEMO_SNAPSHOTS
        invariant
            s <= 120,
            chrono_ms_in_range(now - 856_800_000),
            snapshots@.len() == s,
            forall|j: int| 0 <= j < s ==> is_demo_snapshot(#[trigger] snapshots@[j], t@, j as nat, now),
        decreases 120 - s,
    {
        snapshots.push(demo_snapshot(t, s, now));
        s = s + 1;
    }
    let mut properties: Vec<(String, String)> = Vec::new();
    properties.push((lit("write.target-file-size-bytes"), lit("536870912")));
    properties.push((lit("write.distribution-mode"), lit("hash")));
    let mut schemas: Vec<Schema> = Vec::new();
    schemas.push(demo_schema(false));
    schemas.push(demo_schema(true));
    let mut specs: Vec<PartitionSpec> = Vec::new();
    specs.push(demo_spec());
    TableMetadata {
        table_name: lit(t),
        location: root_text(t),
        format_version: 2,
        table_uuid: Some(lit("demo-uuid-0001")),
        properties,
        current_schema: demo_schema(true),
        schemas,
        snapshots,
        current_snapshot_id: Some(120),
        partition_spec: demo_spec(),
        partition_specs: specs,
        sort_order: None,
        sort_orders: Vec::new(),
        refs: Vec::new(),
        data_files,
        delete_files: Vec::new(),
        all_storage_paths: paths,
        metadata_size_bytes: 45 * 1024 * 1024,
        manifest_stats: ManifestStats {
            manifest_count: 0,
            manifests_total_bytes: 0,
            median_manifest_bytes: 0,
            max_manifest_bytes: 0,
        },
        collected_at_ms: now,
    }
}

/// The demo table's maps are well formed: two distinct properties, no
/// refs, one partition value per file.
pub proof fn law_demo_maps_well_formed(m: TableMetadata, t: Seq<char>, now: i64)
    requires
        is_demo_metadata(m, t, now),
    ensures
        m.maps_well_formed(),
{
    reveal_strlit("write.target-file-size-bytes");
    reveal_strlit("write.distribution-mode");
    assert(m.properties@[0].0@.len() != m.properties@[1].0@.len());
    assert forall|i: int| 0 <= i < m.data_files@.len() implies keys_unique((#[trigger] m.data_files@[i]).partition@) by {
        assert(is_demo_data_file(m.data_files@[i], t, i as nat));
    }
}

/// The demo table `table_identifier` as collected now.
pub fn generate_demo_metadata(table_identifier: &str) -> (m: TableMetadata)
    ensures
        0 <= m.collected_at_ms,
        m.maps_well_formed(),
        is_demo_metadata(m, table_identifier@, m.collected_at_ms),
{
    let now = now_ms();
    let m = demo_metadata_at(table_identifier, now);
    proof {
        law_demo_maps_well_formed(m, table_identifier@, now);
    }
    m
}

} // verus!
