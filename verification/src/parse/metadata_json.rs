//! Iceberg table metadata (format-version 1 and 2) into `TableMetadata`.
//!
//! The application deserializes a `v*.metadata.json` document into the raw
//! types below; `build_table_metadata` resolves it: schema history and the
//! current schema, partition-spec history and the default spec, sort orders
//! and the default one, snapshots in commit order, refs.

use vstd::prelude::*;
use crate::metadata::{
    Field, ManifestStats, PartitionField, PartitionSpec, Schema, Snapshot, SnapshotRef, SortField, SortOrder,
    TableMetadata, keys_unique,
};
use crate::parse::manifest::pair_views;

verus! {

/// A column type: a primitive type's name, or a nested type as JSON text.
pub enum RawFieldType {
    Name(String),
    Nested(String),
}

pub struct RawField {
    pub id: i32,
    pub name: String,
    pub required: bool,
    pub field_type: RawFieldType,
}

pub struct RawSchema {
    pub schema_id: Option<i32>,
    pub fields: Vec<RawField>,
}

pub struct RawPartitionField {
    pub source_id: i32,
    pub field_id: Option<i32>,
    pub name: String,
    pub transform: String,
}

pub struct RawPartitionSpec {
    pub spec_id: i32,
    pub fields: Vec<RawPartitionField>,
}

pub struct RawSortField {
    pub source_id: i32,
    pub transform: String,
    pub direction: String,
    pub null_order: String,
}

pub struct RawSortOrder {
    pub order_id: i32,
    pub fields: Vec<RawSortField>,
}

pub struct RawSnapshot {
    pub snapshot_id: i64,
    pub parent_snapshot_id: Option<i64>,
    pub timestamp_ms: i64,
    pub summary: Vec<(String, String)>,
    pub manifest_list: Option<String>,
    pub schema_id: Option<i32>,
}

pub struct RawSnapshotRef {
    pub snapshot_id: i64,
    pub ref_type: String,
    pub max_ref_age_ms: Option<i64>,
    pub max_snapshot_age_ms: Option<i64>,
    pub min_snapshots_to_keep: Option<i32>,
}

/// The metadata document as deserialized (absent lists are empty).
pub struct RawMetadata {
    pub format_version: i32,
    pub table_uuid: Option<String>,
    pub location: String,
    pub last_updated_ms: Option<i64>,
    pub properties: Vec<(String, String)>,
    pub schemas: Vec<RawSchema>,
    pub schema: Option<RawSchema>,
    pub current_schema_id: Option<i32>,
    pub partition_specs: Vec<RawPartitionSpec>,
    pub partition_spec: Option<Vec<RawPartitionField>>,
    pub default_spec_id: Option<i32>,
    pub sort_orders: Vec<RawSortOrder>,
    pub default_sort_order_id: Option<i32>,
    pub snapshots: Vec<RawSnapshot>,
    pub current_snapshot_id: Option<i64>,
    pub refs: Vec<(String, RawSnapshotRef)>,
}

pub enum MetadataParseError {
    /// The document is not valid metadata JSON.
    JsonParse(String),
    /// A required field is missing.
    MissingField(String),
}

// ---------------------------------------------------------------------------
// Element conversions
// ---------------------------------------------------------------------------

pub open spec fn type_text(t: RawFieldType) -> Seq<char> {
    match t {
        RawFieldType::Name(s) => s@,
        RawFieldType::Nested(j) => j@,
    }
}

pub open spec fn field_from_raw(f: Field, r: RawField) -> bool {
    f.id == r.id && f.name@ == r.name@ && f.field_type@ == type_text(r.field_type) && f.required == r.required
}

/// The schema converted from `r`: its ID (0 when absent) and its fields.
pub open spec fn schema_from_raw(s: Schema, r: RawSchema) -> bool {
    &&& s.schema_id == match r.schema_id { Some(i) => i, None => 0 }
    &&& s.fields@.len() == r.fields@.len()
    &&& forall|k: int| 0 <= k < s.fields@.len() ==> field_from_raw(#[trigger] s.fields@[k], r.fields@[k])
}

/// A partition field; without a field ID, 1000 plus the source ID.
pub open spec fn partition_field_from_raw(f: PartitionField, r: RawPartitionField) -> bool {
    &&& f.source_id == r.source_id
    &&& f.field_id == match r.field_id { Some(i) => i as int, None => 1000 + r.source_id }
    &&& f.name@ == r.name@
    &&& f.transform@ == r.transform@
}

pub open spec fn spec_from_raw(s: PartitionSpec, id: i32, fields: Seq<RawPartitionField>) -> bool {
    &&& s.spec_id == id
    &&& s.fields@.len() == fields.len()
    &&& forall|k: int| 0 <= k < fields.len() ==> partition_field_from_raw(#[trigger] s.fields@[k], fields[k])
}

pub open spec fn sort_order_from_raw(o: SortOrder, r: RawSortOrder) -> bool {
    &&& o.order_id == r.order_id
    &&& o.fields@.len() == r.fields@.len()
    &&& forall|k: int| 0 <= k < r.fields@.len() ==> {
        let f = #[trigger] o.fields@[k];
        let g = r.fields@[k];
        f.source_id == g.source_id && f.transform@ == g.transform@ && f.direction@ == g.direction@
            && f.null_order@ == g.null_order@
    }
}

/// The value of the first summary pair keyed `key`.
pub open spec fn summary_value(summary: Seq<(String, String)>, key: Seq<char>) -> Option<Seq<char>> {
    crate::metadata::property(summary, key)
}

/// A snapshot: its operation is the summary's `operation` entry; without a
/// manifest list, the empty text.
pub open spec fn snapshot_from_raw(s: Snapshot, r: RawSnapshot) -> bool {
    &&& s.snapshot_id == r.snapshot_id
    &&& s.parent_snapshot_id == r.parent_snapshot_id
    &&& s.timestamp_ms == r.timestamp_ms
    &&& (match s.operation { Some(o) => Some(o@), None => None }) == summary_value(r.summary@, "operation"@)
    &&& pair_views(s.summary@) == pair_views(r.summary@)
    &&& s.manifest_list@ == match r.manifest_list { Some(m) => m@, None => Seq::empty() }
    &&& s.schema_id == r.schema_id
}

pub open spec fn ref_from_raw(s: (String, SnapshotRef), r: (String, RawSnapshotRef)) -> bool {
    &&& s.0@ == r.0@
    &&& s.1.snapshot_id == r.1.snapshot_id
    &&& s.1.ref_type@ == r.1.ref_type@
    &&& s.1.max_ref_age_ms == r.1.max_ref_age_ms
    &&& s.1.max_snapshot_age_ms == r.1.max_snapshot_age_ms
    &&& s.1.min_snapshots_to_keep == r.1.min_snapshots_to_keep
}

// ---------------------------------------------------------------------------
// Resolution
// ---------------------------------------------------------------------------

/// The schema history: `schemas` when present, otherwise the single v1 `schema`.
pub open spec fn schema_sources(raw: RawMetadata) -> Seq<RawSchema> {
    if raw.schemas@.len() > 0 {
        raw.schemas@
    } else {
        match raw.schema {
            Some(s) => seq![s],
            None => Seq::empty(),
        }
    }
}

/// Index of the first schema whose ID (0 when absent) is `id`, or -1.
pub open spec fn first_schema_with(srcs: Seq<RawSchema>, id: i32) -> int
    decreases srcs.len(),
{
    if srcs.len() == 0 {
        -1
    } else {
        let j = first_schema_with(srcs.drop_last(), id);
        if j >= 0 {
            j
        } else if (match srcs.last().schema_id { Some(i) => i, None => 0 }) == id {
            srcs.len() - 1
        } else {
            -1
        }
    }
}

/// Index of the current schema among the sources: the one with the current
/// schema ID (0 when absent), else the first; -1 without schemas.
pub open spec fn current_schema_index(raw: RawMetadata) -> int {
    let srcs = schema_sources(raw);
    let j = first_schema_with(srcs, match raw.current_schema_id { Some(i) => i, None => 0 });
    if j >= 0 { j } else if srcs.len() > 0 { 0 } else { -1 }
}

/// The spec history: `partition-specs` when present, otherwise the v1
/// `partition-spec` as spec 0.
pub open spec fn spec_sources(raw: RawMetadata) -> Seq<(i32, Seq<RawPartitionField>)> {
    if raw.partition_specs@.len() > 0 {
        Seq::new(raw.partition_specs@.len(), |i: int| (raw.partition_specs@[i].spec_id, raw.partition_specs@[i].fields@))
    } else {
        match raw.partition_spec {
            Some(fs) => seq![(0i32, fs@)],
            None => Seq::empty(),
        }
    }
}

pub open spec fn first_spec_with(srcs: Seq<(i32, Seq<RawPartitionField>)>, id: i32) -> int
    decreases srcs.len(),
{
    if srcs.len() == 0 {
        -1
    } else {
        let j = first_spec_with(srcs.drop_last(), id);
        if j >= 0 { j } else if srcs.last().0 == id { srcs.len() - 1 } else { -1 }
    }
}

/// Index of the default spec: the one with the default spec ID (0 when
/// absent), else the first; -1 without specs.
pub open spec fn default_spec_index(raw: RawMetadata) -> int {
    let srcs = spec_sources(raw);
    let j = first_spec_with(srcs, match raw.default_spec_id { Some(i) => i, None => 0 });
    if j >= 0 { j } else if srcs.len() > 0 { 0 } else { -1 }
}

pub open spec fn first_order_with(orders: Seq<RawSortOrder>, id: i32) -> int
    decreases orders.len(),
{
    if orders.len() == 0 {
        -1
    } else {
        let j = first_order_with(orders.drop_last(), id);
        if j >= 0 { j } else if orders.last().order_id == id { orders.len() - 1 } else { -1 }
    }
}

/// Index of the default sort order: the first with the default order ID (0
/// when absent), when that order has fields; -1 otherwise.
pub open spec fn default_order_index(raw: RawMetadata) -> int {
    let j = first_order_with(raw.sort_orders@, match raw.default_sort_order_id { Some(i) => i, None => 0 });
    if j >= 0 && raw.sort_orders@[j].fields@.len() > 0 { j } else { -1 }
}

/// `x` inserted after every snapshot committed no later.
pub open spec fn insert_by_time(s: Seq<RawSnapshot>, x: RawSnapshot) -> Seq<RawSnapshot>
    decreases s.len(),
{
    if s.len() == 0 {
        seq![x]
    } else if s.last().timestamp_ms <= x.timestamp_ms {
        s.push(x)
    } else {
        insert_by_time(s.drop_last(), x).push(s.last())
    }
}

/// Snapshots stably sorted by commit time.
pub open spec fn sort_by_time(s: Seq<RawSnapshot>) -> Seq<RawSnapshot>
    decreases s.len(),
{
    if s.len() == 0 { s } else { insert_by_time(sort_by_time(s.drop_last()), s.last()) }
}

/// Partition fields without a field ID get 1000 plus the source ID; that
/// sum must fit in 32 bits.
pub open spec fn field_ids_fit(raw: RawMetadata) -> bool {
    forall|i: int, k: int| 0 <= i < spec_sources(raw).len() && 0 <= k < spec_sources(raw)[i].1.len()
        ==> (#[trigger] spec_sources(raw)[i].1[k]).field_id is None ==> spec_sources(raw)[i].1[k].source_id <= i32::MAX - 1000
}

/// `m` is the table metadata resolved from `raw`.
pub open spec fn is_resolved(m: TableMetadata, raw: RawMetadata, table_name: Seq<char>, json_len: u64, collected_at_ms: i64) -> bool {
    let srcs = schema_sources(raw);
    let specs = spec_sources(raw);
    let ci = current_schema_index(raw);
    let di = default_spec_index(raw);
    let oi = default_order_index(raw);
    let snaps = sort_by_time(raw.snapshots@);
    &&& m.table_name@ == table_name
    &&& m.location@ == raw.location@
    &&& m.format_version == raw.format_version
    &&& (match m.table_uuid { Some(u) => Some(u@), None => None }) == (match raw.table_uuid { Some(u) => Some(u@), None => None })
    &&& pair_views(m.properties@) == pair_views(raw.properties@)
    &&& m.schemas@.len() == srcs.len()
    &&& forall|k: int| 0 <= k < srcs.len() ==> schema_from_raw(#[trigger] m.schemas@[k], srcs[k])
    &&& ci >= 0 ==> schema_from_raw(m.current_schema, srcs[ci])
    &&& ci < 0 ==> m.current_schema.schema_id == 0 && m.current_schema.fields@.len() == 0
    &&& m.partition_specs@.len() == specs.len()
    &&& forall|k: int| 0 <= k < specs.len() ==> spec_from_raw(#[trigger] m.partition_specs@[k], specs[k].0, specs[k].1)
    &&& di >= 0 ==> spec_from_raw(m.partition_spec, specs[di].0, specs[di].1)
    &&& di < 0 ==> m.partition_spec.spec_id == 0 && m.partition_spec.fields@.len() == 0
    &&& m.sort_orders@.len() == raw.sort_orders@.len()
    &&& forall|k: int| 0 <= k < raw.sort_orders@.len() ==> sort_order_from_raw(#[trigger] m.sort_orders@[k], raw.sort_orders@[k])
    &&& oi >= 0 ==> (m.sort_order matches Some(o) && sort_order_from_raw(o, raw.sort_orders@[oi]))
    &&& oi < 0 ==> m.sort_order is None
    &&& m.snapshots@.len() == snaps.len()
    &&& forall|k: int| 0 <= k < snaps.len() ==> snapshot_from_raw(#[trigger] m.snapshots@[k], snaps[k])
    &&& m.current_snapshot_id == raw.current_snapshot_id
    &&& m.refs@.len() == raw.refs@.len()
    &&& forall|k: int| 0 <= k < raw.refs@.len() ==> ref_from_raw(#[trigger] m.refs@[k], raw.refs@[k])
    &&& m.data_files@.len() == 0
    &&& m.delete_files@.len() == 0
    &&& m.all_storage_paths@.len() == 0
    &&& m.metadata_size_bytes == json_len
    &&& m.manifest_stats == ManifestStats { manifest_count: 0, manifests_total_bytes: 0, median_manifest_bytes: 0, max_manifest_bytes: 0 }
    &&& m.collected_at_ms == collected_at_ms
}

// ---------------------------------------------------------------------------
// Executable conversions
// ---------------------------------------------------------------------------

fn copy_pairs(v: &Vec<(String, String)>) -> (r: Vec<(String, String)>)
    ensures
        pair_views(r@) == pair_views(v@),
{
    let mut r: Vec<(String, String)> = Vec::new();
    let mut i: usize = 0;
    while i < v.len()
        invariant
            i <= v@.len(),
            r@.len() == i,
            forall|k: int| 0 <= k < i ==> (#[trigger] r@[k]).0@ == v@[k].0@ && r@[k].1@ == v@[k].1@,
        decreases v@.len() - i,
    {
        let a = v[i].0.clone();
        let b = v[i].1.clone();
        r.push((a, b));
        i = i + 1;
    }
    proof {
        assert(pair_views(r@) =~= pair_views(v@));
    }
    r
}

fn convert_field(r: &RawField) -> (f: Field)
    ensures
        field_from_raw(f, *r),
{
    let field_type = match &r.field_type {
        RawFieldType::Name(s) => s.clone(),
        RawFieldType::Nested(j) => j.clone(),
    };
    Field { id: r.id, name: r.name.clone(), field_type, required: r.required }
}

pub fn convert_schema(r: &RawSchema) -> (s: Schema)
    ensures
        schema_from_raw(s, *r),
{
    let mut fields: Vec<Field> = Vec::new();
    let mut i: usize = 0;
    while i < r.fields.len()
        invariant
            i <= r.fields@.len(),
            fields@.len() == i,
            forall|k: int| 0 <= k < i ==> field_from_raw(#[trigger] fields@[k], r.fields@[k]),
        decreases r.fields@.len() - i,
    {
        fields.push(convert_field(&r.fields[i]));
        i = i + 1;
    }
    Schema {
        schema_id: match r.schema_id {
            Some(i) => i,
            None => 0,
        },
        fields,
    }
}

pub fn convert_partition_field(r: &RawPartitionField) -> (f: PartitionField)
    requires
        r.field_id is None ==> r.source_id <= i32::MAX - 1000,
    ensures
        partition_field_from_raw(f, *r),
{
    PartitionField {
        source_id: r.source_id,
        field_id: match r.field_id {
            Some(i) => i,
            None => 1000 + r.source_id,
        },
        name: r.name.clone(),
        transform: r.transform.clone(),
    }
}

fn convert_fields(fields: &Vec<RawPartitionField>) -> (r: Vec<PartitionField>)
    requires
        forall|k: int| 0 <= k < fields@.len() ==> (#[trigger] fields@[k]).field_id is None ==> fields@[k].source_id <= i32::MAX - 1000,
    ensures
        r@.len() == fields@.len(),
        forall|k: int| 0 <= k < fields@.len() ==> partition_field_from_raw(#[trigger] r@[k], fields@[k]),
{
    let mut r: Vec<PartitionField> = Vec::new();
    let mut i: usize = 0;
    while i < fields.len()
        invariant
            i <= fields@.len(),
            forall|k: int| 0 <= k < fields@.len() ==> (#[trigger] fields@[k]).field_id is None ==> fields@[k].source_id <= i32::MAX - 1000,
            r@.len() == i,
            forall|k: int| 0 <= k < i ==> partition_field_from_raw(#[trigger] r@[k], fields@[k]),
        decreases fields@.len() - i,
    {
        r.push(convert_partition_field(&fields[i]));
        i = i + 1;
    }
    r
}

pub fn convert_partition_spec(id: i32, fields: &Vec<RawPartitionField>) -> (s: PartitionSpec)
    requires
        forall|k: int| 0 <= k < fields@.len() ==> (#[trigger] fields@[k]).field_id is None ==> fields@[k].source_id <= i32::MAX - 1000,
    ensures
        spec_from_raw(s, id, fields@),
{
    PartitionSpec { spec_id: id, fields: convert_fields(fields) }
}

pub fn convert_sort_order(r: &RawSortOrder) -> (o: SortOrder)
    ensures
        sort_order_from_raw(o, *r),
{
    let mut fields: Vec<SortField> = Vec::new();
    let mut i: usize = 0;
    while i < r.fields.len()
        invariant
            i <= r.fields@.len(),
            fields@.len() == i,
            forall|k: int| 0 <= k < i ==> {
                let f = #[trigger] fields@[k];
                let g = r.fields@[k];
                f.source_id == g.source_id && f.transform@ == g.transform@ && f.direction@ == g.direction@
                    && f.null_order@ == g.null_order@
            },
        decreases r.fields@.len() - i,
    {
        let g = &r.fields[i];
        fields.push(SortField {
            source_id: g.source_id,
            transform: g.transform.clone(),
            direction: g.direction.clone(),
            null_order: g.null_order.clone(),
        });
        i = i + 1;
    }
    SortOrder { order_id: r.order_id, fields }
}

pub fn convert_snapshot(r: &RawSnapshot) -> (s: Snapshot)
    ensures
        snapshot_from_raw(s, *r),
{
    let operation = match crate::metadata::get_property(&r.summary, "operation") {
        Some(o) => Some(o.clone()),
        None => None,
    };
    Snapshot {
        snapshot_id: r.snapshot_id,
        parent_snapshot_id: r.parent_snapshot_id,
        timestamp_ms: r.timestamp_ms,
        operation,
        summary: copy_pairs(&r.summary),
        manifest_list: match &r.manifest_list {
            Some(m) => m.clone(),
            None => String::new(),
        },
        schema_id: r.schema_id,
    }
}

fn insert_snapshot(out: &mut Vec<RawSnapshot>, x: RawSnapshot)
    ensures
        final(out)@ == insert_by_time(old(out)@, x),
    decreases old(out)@.len(),
{
    let ghost old_v = out@;
    let n = out.len();
    if n == 0 {
        out.push(x);
        proof {
            assert(out@ =~= seq![x]);
        }
    } else if out[n - 1].timestamp_ms <= x.timestamp_ms {
        out.push(x);
    } else {
        let last = out.pop().unwrap();
        proof {
            assert(out@ =~= old_v.drop_last());
        }
        insert_snapshot(out, x);
        out.push(last);
    }
}

/// Snapshots stably sorted by commit time.
pub fn sort_snapshots_by_time(snaps: Vec<RawSnapshot>) -> (r: Vec<RawSnapshot>)
    ensures
        r@ == sort_by_time(snaps@),
{
    let ghost all = snaps@;
    let mut rest = snaps;
    let mut out: Vec<RawSnapshot> = Vec::new();
    let ghost mut taken: int = 0;
    while rest.len() > 0
        invariant
            0 <= taken <= all.len(),
            rest@ == all.skip(taken),
            out@ == sort_by_time(all.take(taken)),
        decreases rest@.len(),
    {
        let ghost before = rest@;
        let x = rest.remove(0);
        proof {
            assert(x == all[taken]);
            assert(rest@ =~= all.skip(taken + 1));
            assert(all.take(taken + 1).drop_last() =~= all.take(taken));
        }
        insert_snapshot(&mut out, x);
        proof {
            taken = taken + 1;
        }
    }
    proof {
        assert(all.take(taken) =~= all);
    }
    out
}

fn find_schema_index(srcs: &Vec<RawSchema>, id: i32) -> (r: Option<usize>)
    ensures
        r matches Some(j) ==> j == first_schema_with(srcs@, id) && j < srcs@.len(),
        r is None ==> first_schema_with(srcs@, id) == -1,
{
    let mut i: usize = 0;
    while i < srcs.len()
        invariant
            i <= srcs@.len(),
            first_schema_with(srcs@.take(i as int), id) == -1,
        decreases srcs@.len() - i,
    {
        proof {
            assert(srcs@.take(i + 1).drop_last() =~= srcs@.take(i as int));
        }
        let sid = match srcs[i].schema_id {
            Some(x) => x,
            None => 0,
        };
        if sid == id {
            proof {
                lemma_first_schema_prefix(srcs@, i as int, id);
            }
            return Some(i);
        }
        i = i + 1;
    }
    proof {
        assert(srcs@.take(srcs@.len() as int) =~= srcs@);
    }
    None
}

proof fn lemma_first_schema_prefix(srcs: Seq<RawSchema>, i: int, id: i32)
    requires
        0 <= i < srcs.len(),
        first_schema_with(srcs.take(i), id) == -1,
        (match srcs[i].schema_id { Some(x) => x, None => 0 }) == id,
    ensures
        first_schema_with(srcs, id) == i,
    decreases srcs.len(),
{
    if srcs.len() - 1 > i {
        assert(srcs.drop_last().take(i) =~= srcs.take(i));
        lemma_first_schema_prefix(srcs.drop_last(), i, id);
    } else {
        assert(srcs.drop_last() =~= srcs.take(i));
    }
}

proof fn lemma_first_schema_bounds(srcs: Seq<RawSchema>, id: i32)
    ensures
        -1 <= first_schema_with(srcs, id) < srcs.len(),
    decreases srcs.len(),
{
    if srcs.len() > 0 {
        lemma_first_schema_bounds(srcs.drop_last(), id);
    }
}

proof fn lemma_first_spec_bounds(srcs: Seq<(i32, Seq<RawPartitionField>)>, id: i32)
    ensures
        -1 <= first_spec_with(srcs, id) < srcs.len(),
    decreases srcs.len(),
{
    if srcs.len() > 0 {
        lemma_first_spec_bounds(srcs.drop_last(), id);
    }
}

proof fn lemma_first_order_bounds(orders: Seq<RawSortOrder>, id: i32)
    ensures
        -1 <= first_order_with(orders, id) < orders.len(),
    decreases orders.len(),
{
    if orders.len() > 0 {
        lemma_first_order_bounds(orders.drop_last(), id);
    }
}

fn find_spec_index(specs: &Vec<(i32, &Vec<RawPartitionField>)>, id: i32) -> (r: Option<usize>)
    ensures
        r matches Some(j) ==> j == first_spec_with(spec_pairs(specs@), id) && j < specs@.len(),
        r is None ==> first_spec_with(spec_pairs(specs@), id) == -1,
{
    let ghost sp = spec_pairs(specs@);
    let mut i: usize = 0;
    while i < specs.len()
        invariant
            i <= specs@.len(),
            sp == spec_pairs(specs@),
            first_spec_with(sp.take(i as int), id) == -1,
        decreases specs@.len() - i,
    {
        proof {
            assert(sp.take(i + 1).drop_last() =~= sp.take(i as int));
        }
        if specs[i].0 == id {
            proof {
                lemma_first_spec_prefix(sp, i as int, id);
            }
            return Some(i);
        }
        i = i + 1;
    }
    proof {
        assert(sp.take(specs@.len() as int) =~= sp);
    }
    None
}

proof fn lemma_first_spec_prefix(srcs: Seq<(i32, Seq<RawPartitionField>)>, i: int, id: i32)
    requires
        0 <= i < srcs.len(),
        first_spec_with(srcs.take(i), id) == -1,
        srcs[i].0 == id,
    ensures
        first_spec_with(srcs, id) == i,
    decreases srcs.len(),
{
    if srcs.len() - 1 > i {
        assert(srcs.drop_last().take(i) =~= srcs.take(i));
        lemma_first_spec_prefix(srcs.drop_last(), i, id);
    } else {
        assert(srcs.drop_last() =~= srcs.take(i));
    }
}

pub open spec fn spec_pairs(v: Seq<(i32, &Vec<RawPartitionField>)>) -> Seq<(i32, Seq<RawPartitionField>)> {
    Seq::new(v.len(), |i: int| (v[i].0, v[i].1@))
}

fn find_order_index(orders: &Vec<RawSortOrder>, id: i32) -> (r: Option<usize>)
    ensures
        r matches Some(j) ==> j == first_order_with(orders@, id) && j < orders@.len(),
        r is None ==> first_order_with(orders@, id) == -1,
{
    let mut i: usize = 0;
    while i < orders.len()
        invariant
            i <= orders@.len(),
            first_order_with(orders@.take(i as int), id) == -1,
        decreases orders@.len() - i,
    {
        proof {
            assert(orders@.take(i + 1).drop_last() =~= orders@.take(i as int));
        }
        if orders[i].order_id == id {
            proof {
                lemma_first_order_prefix(orders@, i as int, id);
            }
            return Some(i);
        }
        i = i + 1;
    }
    proof {
        assert(orders@.take(orders@.len() as int) =~= orders@);
    }
    None
}

proof fn lemma_first_order_prefix(orders: Seq<RawSortOrder>, i: int, id: i32)
    requires
        0 <= i < orders.len(),
        first_order_with(orders.take(i), id) == -1,
        orders[i].order_id == id,
    ensures
        first_order_with(orders, id) == i,
    decreases orders.len(),
{
    if orders.len() - 1 > i {
        assert(orders.drop_last().take(i) =~= orders.take(i));
        lemma_first_order_prefix(orders.drop_last(), i, id);
    } else {
        assert(orders.drop_last() =~= orders.take(i));
    }
}

/// Resolving a document keeps its maps maps: properties and refs read
/// with distinct keys stay with distinct keys, and the resolved table has
/// no data files yet, so its maps are well formed.
pub proof fn law_resolve_keeps_keys_unique(m: TableMetadata, raw: RawMetadata, table_name: Seq<char>, json_len: u64, collected_at_ms: i64)
    requires
        is_resolved(m, raw, table_name, json_len, collected_at_ms),
        keys_unique(raw.properties@),
        keys_unique(raw.refs@),
    ensures
        keys_unique(m.properties@),
        keys_unique(m.refs@),
        m.maps_well_formed(),
{
    assert(pair_views(m.properties@).len() == m.properties@.len());
    assert(pair_views(raw.properties@).len() == raw.properties@.len());
    assert forall|i: int, j: int| 0 <= i < j < m.properties@.len() implies (#[trigger] m.properties@[i]).0@ != (#[trigger] m.properties@[j]).0@ by {
        assert(pair_views(m.properties@)[i] == pair_views(raw.properties@)[i]);
        assert(pair_views(m.properties@)[j] == pair_views(raw.properties@)[j]);
        assert(raw.properties@[i].0@ != raw.properties@[j].0@);
    }
    assert forall|i: int, j: int| 0 <= i < j < m.refs@.len() implies (#[trigger] m.refs@[i]).0@ != (#[trigger] m.refs@[j]).0@ by {
        assert(ref_from_raw(m.refs@[i], raw.refs@[i]));
        assert(ref_from_raw(m.refs@[j], raw.refs@[j]));
        assert(raw.refs@[i].0@ != raw.refs@[j].0@);
    }
}

/// Resolves a deserialized metadata document for table `table_name`: the
/// document was `json_len` bytes long and is read at instant
/// `collected_at_ms`. Data files, delete files and storage paths come from
/// the manifests and the object store, and are left empty.
pub fn build_table_metadata(raw: RawMetadata, table_name: &str, json_len: u64, collected_at_ms: i64) -> (m: TableMetadata)
    requires
        field_ids_fit(raw),
    ensures
        is_resolved(m, raw, table_name@, json_len, collected_at_ms),
{
    // Schemas.
    let ghost srcs = schema_sources(raw);
    let mut schemas: Vec<Schema> = Vec::new();
    let use_list = raw.schemas.len() > 0;
    let n_schemas: usize = if use_list { raw.schemas.len() } else if raw.schema.is_some() { 1 } else { 0 };
    let mut i: usize = 0;
    while i < n_schemas
        invariant
            srcs == schema_sources(raw),
            n_schemas == srcs.len(),
            use_list == (raw.schemas@.len() > 0),
            i <= n_schemas,
            schemas@.len() == i,
            forall|k: int| 0 <= k < i ==> schema_from_raw(#[trigger] schemas@[k], srcs[k]),
        decreases n_schemas - i,
    {
        let s = if use_list {
            convert_schema(&raw.schemas[i])
        } else {
            match &raw.schema {
                Some(s) => convert_schema(s),
                None => Schema { schema_id: 0, fields: Vec::new() },
            }
        };
        schemas.push(s);
        i = i + 1;
    }
    let current_id = match raw.current_schema_id {
        Some(x) => x,
        None => 0,
    };
    let found = if use_list {
        find_schema_index(&raw.schemas, current_id)
    } else {
        match &raw.schema {
            Some(s) => {
                let sid = match s.schema_id {
                    Some(x) => x,
                    None => 0,
                };
                proof {
                    assert(srcs == seq![*s]);
                    assert(srcs.drop_last() =~= Seq::<RawSchema>::empty());
                }
                if sid == current_id { Some(0) } else { None }
            },
            None => None,
        }
    };
    proof {
        lemma_first_schema_bounds(srcs, current_id);
    }
    let current_schema = match found {
        Some(j) => {
            if use_list { convert_schema(&raw.schemas[j]) } else {
                match &raw.schema {
                    Some(s) => convert_schema(s),
                    None => Schema { schema_id: 0, fields: Vec::new() },
                }
            }
        },
        None => {
            if n_schemas > 0 {
                if use_list { convert_schema(&raw.schemas[0]) } else {
                    match &raw.schema {
                        Some(s) => convert_schema(s),
                        None => Schema { schema_id: 0, fields: Vec::new() },
                    }
                }
            } else {
                Schema { schema_id: 0, fields: Vec::new() }
            }
        },
    };

    // Partition specs.
    let mut spec_refs: Vec<(i32, &Vec<RawPartitionField>)> = Vec::new();
    if raw.partition_specs.len() > 0 {
        let mut k: usize = 0;
        while k < raw.partition_specs.len()
            invariant
                k <= raw.partition_specs@.len(),
                spec_refs@.len() == k,
                forall|j: int| 0 <= j < k ==> (#[trigger] spec_refs@[j]).0 == raw.partition_specs@[j].spec_id
                    && spec_refs@[j].1@ == raw.partition_specs@[j].fields@,
            decreases raw.partition_specs@.len() - k,
        {
            spec_refs.push((raw.partition_specs[k].spec_id, &raw.partition_specs[k].fields));
            k = k + 1;
        }
    } else {
        match &raw.partition_spec {
            Some(fs) => spec_refs.push((0, fs)),
            None => {},
        }
    }
    proof {
        assert(spec_pairs(spec_refs@) =~= spec_sources(raw));
    }
    let ghost specs = spec_sources(raw);
    let mut partition_specs: Vec<PartitionSpec> = Vec::new();
    let mut k: usize = 0;
    while k < spec_refs.len()
        invariant
            specs == spec_sources(raw),
            spec_pairs(spec_refs@) == specs,
            field_ids_fit(raw),
            k <= spec_refs@.len(),
            partition_specs@.len() == k,
            forall|j: int| 0 <= j < k ==> spec_from_raw(#[trigger] partition_specs@[j], specs[j].0, specs[j].1),
        decreases spec_refs@.len() - k,
    {
        proof {
            assert(spec_pairs(spec_refs@)[k as int] == (spec_refs@[k as int].0, spec_refs@[k as int].1@));
            assert forall|q: int| 0 <= q < spec_refs@[k as int].1@.len()
                && (#[trigger] spec_refs@[k as int].1@[q]).field_id is None implies spec_refs@[k as int].1@[q].source_id <= i32::MAX - 1000 by {
                assert(specs[k as int].1[q] == spec_refs@[k as int].1@[q]);
            }
        }
        partition_specs.push(convert_partition_spec(spec_refs[k].0, spec_refs[k].1));
        k = k + 1;
    }
    let default_id = match raw.default_spec_id {
        Some(x) => x,
        None => 0,
    };
    proof {
        lemma_first_spec_bounds(specs, default_id);
    }
    let spec_index: Option<usize> = match find_spec_index(&spec_refs, default_id) {
        Some(j) => Some(j),
        None => if spec_refs.len() > 0 { Some(0) } else { None },
    };
    let partition_spec = match spec_index {
        Some(j) => {
            proof {
                assert(spec_pairs(spec_refs@)[j as int] == (spec_refs@[j as int].0, spec_refs@[j as int].1@));
                assert forall|q: int| 0 <= q < spec_refs@[j as int].1@.len()
                    && (#[trigger] spec_refs@[j as int].1@[q]).field_id is None implies spec_refs@[j as int].1@[q].source_id <= i32::MAX - 1000 by {
                    assert(specs[j as int].1[q] == spec_refs@[j as int].1@[q]);
                }
            }
            convert_partition_spec(spec_refs[j].0, spec_refs[j].1)
        },
        None => PartitionSpec { spec_id: 0, fields: Vec::new() },
    };

    // Sort orders.
    let mut sort_orders: Vec<SortOrder> = Vec::new();
    let mut k: usize = 0;
    while k < raw.sort_orders.len()
        invariant
            k <= raw.sort_orders@.len(),
            sort_orders@.len() == k,
            forall|j: int| 0 <= j < k ==> sort_order_from_raw(#[trigger] sort_orders@[j], raw.sort_orders@[j]),
        decreases raw.sort_orders@.len() - k,
    {
        sort_orders.push(convert_sort_order(&raw.sort_orders[k]));
        k = k + 1;
    }
    let order_id = match raw.default_sort_order_id {
        Some(x) => x,
        None => 0,
    };
    proof {
        lemma_first_order_bounds(raw.sort_orders@, order_id);
    }
    let sort_order = match find_order_index(&raw.sort_orders, order_id) {
        Some(j) => if raw.sort_orders[j].fields.len() > 0 { Some(convert_sort_order(&raw.sort_orders[j])) } else { None },
        None => None,
    };

    // Refs.
    let mut refs: Vec<(String, SnapshotRef)> = Vec::new();
    let mut k: usize = 0;
    while k < raw.refs.len()
        invariant
            k <= raw.refs@.len(),
            refs@.len() == k,
            forall|j: int| 0 <= j < k ==> ref_from_raw(#[trigger] refs@[j], raw.refs@[j]),
        decreases raw.refs@.len() - k,
    {
        let r = &raw.refs[k];
        refs.push((r.0.clone(), SnapshotRef {
            snapshot_id: r.1.snapshot_id,
            ref_type: r.1.ref_type.clone(),
            max_ref_age_ms: r.1.max_ref_age_ms,
            max_snapshot_age_ms: r.1.max_snapshot_age_ms,
            min_snapshots_to_keep: r.1.min_snapshots_to_keep,
        }));
        k = k + 1;
    }

    let properties = copy_pairs(&raw.properties);
    let table_uuid = match &raw.table_uuid {
        Some(u) => Some(u.clone()),
        None => None,
    };
    let location = raw.location.clone();
    let format_version = raw.format_version;
    let current_snapshot_id = raw.current_snapshot_id;

    // Snapshots, in commit order.
    let ghost raw_snaps = raw.snapshots@;
    let sorted = sort_snapshots_by_time(raw.snapshots);
    let mut snapshots: Vec<Snapshot> = Vec::new();
    let mut k: usize = 0;
    while k < sorted.len()
        invariant
            k <= sorted@.len(),
            sorted@ == sort_by_time(raw_snaps),
            snapshots@.len() == k,
            forall|j: int| 0 <= j < k ==> snapshot_from_raw(#[trigger] snapshots@[j], sorted@[j]),
        decreases sorted@.len() - k,
    {
        snapshots.push(convert_snapshot(&sorted[k]));
        k = k + 1;
    }

    TableMetadata {
        table_name: String::from_str(table_name),
        location,
        format_version,
        table_uuid,
        properties,
        current_schema,
        schemas,
        snapshots,
        current_snapshot_id,
        partition_spec,
        partition_specs,
        sort_order,
        sort_orders,
        refs,
        data_files: Vec::new(),
        delete_files: Vec::new(),
        all_storage_paths: Vec::new(),
        metadata_size_bytes: json_len,
        manifest_stats: ManifestStats::default(),
        collected_at_ms,
    }
}

impl MetadataParseError {
    /// The error's message, as it is displayed.
    pub fn message(&self) -> (s: String)
        ensures
            s@ == match self {
                MetadataParseError::JsonParse(m) => "failed to parse metadata JSON: "@ + m@,
                MetadataParseError::MissingField(m) => "missing required field: "@ + m@,
            },
    {
        let (mut s, m) = match self {
            MetadataParseError::JsonParse(m) => (String::from_str("failed to parse metadata JSON: "), m),
            MetadataParseError::MissingField(m) => (String::from_str("missing required field: "), m),
        };
        s.append(m.as_str());
        s
    }
}

} // verus!

verus! {

/// Resolves a deserialized metadata document for `table_name`, as read now.
pub fn resolve_metadata(raw: RawMetadata, table_name: &str, json_len: u64) -> (m: TableMetadata)
    requires
        field_ids_fit(raw),
    ensures
        is_resolved(m, raw, table_name@, json_len, m.collected_at_ms),
        crate::clock::chrono_ms_in_range(m.collected_at_ms as int),
{
    let now = crate::clock::now_ms();
    build_table_metadata(raw, table_name, json_len, now)
}

} // verus!

verus! {

/// Commit times never decrease along `s`.
pub open spec fn times_ascending(s: Seq<RawSnapshot>) -> bool {
    forall|i: int, j: int| 0 <= i < j < s.len() ==> (#[trigger] s[i]).timestamp_ms <= (#[trigger] s[j]).timestamp_ms
}

proof fn lemma_insert_by_time(s: Seq<RawSnapshot>, x: RawSnapshot)
    requires
        times_ascending(s),
    ensures
        times_ascending(insert_by_time(s, x)),
        insert_by_time(s, x).to_multiset() =~= s.to_multiset().insert(x),
    decreases s.len(),
{
    broadcast use vstd::seq_lib::group_to_multiset_ensures;
    if s.len() == 0 {
        assert(seq![x] =~= s.push(x));
    } else if s.last().timestamp_ms <= x.timestamp_ms {
        let r = s.push(x);
        assert forall|i: int, j: int| 0 <= i < j < r.len() implies (#[trigger] r[i]).timestamp_ms <= (#[trigger] r[j]).timestamp_ms by {
            if j == s.len() && i < s.len() - 1 {
                assert(s[i].timestamp_ms <= s[s.len() - 1].timestamp_ms);
            }
        }
    } else {
        let d = s.drop_last();
        let last = s.last();
        assert(times_ascending(d)) by {
            assert forall|i: int, j: int| 0 <= i < j < d.len() implies (#[trigger] d[i]).timestamp_ms <= (#[trigger] d[j]).timestamp_ms by {
                assert(d[i] == s[i] && d[j] == s[j]);
            }
        }
        lemma_insert_by_time(d, x);
        let q = insert_by_time(d, x);
        let r = q.push(last);
        assert(s =~= d.push(last));
        assert forall|i: int, j: int| 0 <= i < j < r.len() implies (#[trigger] r[i]).timestamp_ms <= (#[trigger] r[j]).timestamp_ms by {
            if j == q.len() {
                let y = q[i];
                assert(q.contains(y));
                assert(q.to_multiset().count(y) > 0);
                if y != x {
                    assert(d.to_multiset().count(y) > 0);
                    assert(d.contains(y));
                    let k = choose|k: int| 0 <= k < d.len() && d[k] == y;
                    assert(s[k] == y);
                    assert(s[s.len() - 1] == last);
                }
            } else {
                assert(r[i] == q[i] && r[j] == q[j]);
            }
        }
    }
}

proof fn lemma_sort_by_time(s: Seq<RawSnapshot>)
    ensures
        times_ascending(sort_by_time(s)),
        sort_by_time(s).to_multiset() =~= s.to_multiset(),
    decreases s.len(),
{
    broadcast use vstd::seq_lib::group_to_multiset_ensures;
    if s.len() > 0 {
        lemma_sort_by_time(s.drop_last());
        lemma_insert_by_time(sort_by_time(s.drop_last()), s.last());
        assert(s =~= s.drop_last().push(s.last()));
    }
}

/// The resolved snapshots are the document's snapshots, each once, ordered
/// oldest to newest: commit times never decrease, and they are converted
/// one for one from a reordering of the raw snapshots.
pub proof fn law_resolved_snapshots_by_time(m: TableMetadata, raw: RawMetadata, table_name: Seq<char>, json_len: u64, collected_at_ms: i64)
    requires
        is_resolved(m, raw, table_name, json_len, collected_at_ms),
    ensures
        m.snapshots@.len() == raw.snapshots@.len(),
        forall|i: int, j: int| 0 <= i < j < m.snapshots@.len()
            ==> (#[trigger] m.snapshots@[i]).timestamp_ms <= (#[trigger] m.snapshots@[j]).timestamp_ms,
        exists|p: Seq<RawSnapshot>| {
            &&& #[trigger] p.to_multiset() =~= raw.snapshots@.to_multiset()
            &&& p.len() == m.snapshots@.len()
            &&& forall|k: int| 0 <= k < p.len() ==> snapshot_from_raw(#[trigger] m.snapshots@[k], p[k])
        },
{
    broadcast use vstd::seq_lib::group_to_multiset_ensures;
    let p = sort_by_time(raw.snapshots@);
    lemma_sort_by_time(raw.snapshots@);
    assert(p.to_multiset().len() == raw.snapshots@.to_multiset().len());
    assert forall|i: int, j: int| 0 <= i < j < m.snapshots@.len()
        implies (#[trigger] m.snapshots@[i]).timestamp_ms <= (#[trigger] m.snapshots@[j]).timestamp_ms by {
        assert(snapshot_from_raw(m.snapshots@[i], p[i]));
        assert(snapshot_from_raw(m.snapshots@[j], p[j]));
    }
}

} // verus!
