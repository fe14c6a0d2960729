//! Iceberg metadata types used by the health checks.
//!
//! These are frost's own representations of the metadata concepts the
//! checks need. Key/value maps (properties, partition values, refs) are
//! held as vectors of pairs; lookups take the first pair with the key.
//! Timestamps are milliseconds since the Unix epoch.

use vstd::prelude::*;

verus! {

/// Complete metadata snapshot for a single Iceberg table.
pub struct TableMetadata {
    /// Fully qualified table name (e.g., "db.events").
    pub table_name: String,
    /// Location of the table.
    pub location: String,
    /// Iceberg format version (1 or 2).
    pub format_version: i32,
    /// Table UUID, if present in metadata.
    pub table_uuid: Option<String>,
    /// Table properties.
    pub properties: Vec<(String, String)>,
    /// Current schema of the table.
    pub current_schema: Schema,
    /// All schema versions.
    pub schemas: Vec<Schema>,
    /// All snapshots, ordered oldest to newest.
    pub snapshots: Vec<Snapshot>,
    /// Current snapshot ID, if any.
    pub current_snapshot_id: Option<i64>,
    /// Default partition spec.
    pub partition_spec: PartitionSpec,
    /// Every partition spec the table has ever had.
    pub partition_specs: Vec<PartitionSpec>,
    /// Default sort order, if declared.
    pub sort_order: Option<SortOrder>,
    /// Every sort order the table has ever had.
    pub sort_orders: Vec<SortOrder>,
    /// Named refs (branches and tags).
    pub refs: Vec<(String, SnapshotRef)>,
    /// All data files referenced by the current snapshot.
    pub data_files: Vec<DataFile>,
    /// Delete files in the current snapshot.
    pub delete_files: Vec<DeleteFile>,
    /// All file paths found in the table's data directory.
    pub all_storage_paths: Vec<String>,
    /// Total size of metadata files in bytes.
    pub metadata_size_bytes: u64,
    /// Per-manifest statistics.
    pub manifest_stats: ManifestStats,
    /// When this metadata was collected (ms since the epoch).
    pub collected_at_ms: i64,
}

/// No two pairs share a key: the pairs stand for a map. Properties, refs
/// and partition values are read from maps, so they hold this.
pub open spec fn keys_unique<V>(s: Seq<(String, V)>) -> bool {
    forall|i: int, j: int| 0 <= i < j < s.len() ==> (#[trigger] s[i]).0@ != (#[trigger] s[j]).0@
}

/// The format version assumed when metadata does not state one.
pub fn default_format_version() -> (v: i32)
    ensures
        v == 2,
{
    2
}

pub struct Schema {
    pub schema_id: i32,
    pub fields: Vec<Field>,
}

pub struct Field {
    pub id: i32,
    pub name: String,
    pub field_type: String,
    pub required: bool,
}

pub struct Snapshot {
    pub snapshot_id: i64,
    /// Parent snapshot ID.
    pub parent_snapshot_id: Option<i64>,
    pub timestamp_ms: i64,
    /// Operation type pulled from the summary.
    pub operation: Option<String>,
    pub summary: Vec<(String, String)>,
    pub manifest_list: String,
    /// Schema ID active when this snapshot was committed.
    pub schema_id: Option<i32>,
}

/// A named ref (branch or tag) pointing at a specific snapshot.
pub struct SnapshotRef {
    pub snapshot_id: i64,
    /// "branch" or "tag".
    pub ref_type: String,
    pub max_ref_age_ms: Option<i64>,
    pub max_snapshot_age_ms: Option<i64>,
    pub min_snapshots_to_keep: Option<i32>,
}

pub struct PartitionSpec {
    pub spec_id: i32,
    pub fields: Vec<PartitionField>,
}

pub struct PartitionField {
    pub source_id: i32,
    pub field_id: i32,
    pub name: String,
    pub transform: String,
}

pub struct SortOrder {
    pub order_id: i32,
    pub fields: Vec<SortField>,
}

pub struct SortField {
    pub source_id: i32,
    pub transform: String,
    pub direction: String,
    pub null_order: String,
}

pub struct DataFile {
    pub file_path: String,
    pub file_size_bytes: u64,
    pub record_count: u64,
    /// Partition values as key-value pairs.
    pub partition: Vec<(String, String)>,
    pub file_format: FileFormat,
    /// Column statistics from the manifest entry; empty means "not recorded".
    pub column_sizes: Vec<(i32, i64)>,
    pub value_counts: Vec<(i32, i64)>,
    pub null_value_counts: Vec<(i32, i64)>,
    /// Sort order ID this file was written under.
    pub sort_order_id: Option<i32>,
    /// Spec ID this file was partitioned under.
    pub spec_id: Option<i32>,
}

pub struct DeleteFile {
    pub file_path: String,
    pub file_size_bytes: u64,
    pub record_count: u64,
    pub delete_type: DeleteType,
    /// For equality deletes: the column field IDs the predicate applies to.
    pub equality_ids: Vec<i32>,
}

#[derive(Clone, Copy, Debug, PartialEq, Eq, Structural)]
pub enum FileFormat {
    Parquet,
    Avro,
    Orc,
}

#[derive(Clone, Copy, Debug, PartialEq, Eq, Structural)]
pub enum DeleteType {
    PositionDelete,
    EqualityDelete,
}

/// Aggregate manifest statistics collected when manifests are loaded.
#[derive(Clone, Copy, Debug, PartialEq, Eq, Structural)]
pub struct ManifestStats {
    /// Number of manifest files referenced from the current snapshot.
    pub manifest_count: u64,
    /// Total size in bytes.
    pub manifests_total_bytes: u64,
    /// Median manifest size in bytes.
    pub median_manifest_bytes: u64,
    /// Largest manifest in bytes.
    pub max_manifest_bytes: u64,
}

impl Default for FileFormat {
    fn default() -> (r: Self)
        ensures
            r == FileFormat::Parquet,
    {
        FileFormat::Parquet
    }
}

impl Default for DeleteType {
    fn default() -> (r: Self)
        ensures
            r == DeleteType::PositionDelete,
    {
        DeleteType::PositionDelete
    }
}

impl Default for ManifestStats {
    fn default() -> (r: Self)
        ensures
            r.manifest_count == 0,
            r.manifests_total_bytes == 0,
            r.median_manifest_bytes == 0,
            r.max_manifest_bytes == 0,
    {
        ManifestStats {
            manifest_count: 0,
            manifests_total_bytes: 0,
            median_manifest_bytes: 0,
            max_manifest_bytes: 0,
        }
    }
}

impl Default for DataFile {
    fn default() -> (r: Self)
        ensures
            r.file_path@.len() == 0,
            r.file_size_bytes == 0,
            r.record_count == 0,
            r.partition@.len() == 0,
            r.file_format == FileFormat::Parquet,
            r.column_sizes@.len() == 0,
            r.value_counts@.len() == 0,
            r.null_value_counts@.len() == 0,
            r.sort_order_id.is_none(),
            r.spec_id.is_none(),
    {
        DataFile {
            file_path: String::new(),
            file_size_bytes: 0,
            record_count: 0,
            partition: Vec::new(),
            file_format: FileFormat::Parquet,
            column_sizes: Vec::new(),
            value_counts: Vec::new(),
            null_value_counts: Vec::new(),
            sort_order_id: None,
            spec_id: None,
        }
    }
}

impl Default for DeleteFile {
    fn default() -> (r: Self)
        ensures
            r.file_path@.len() == 0,
            r.file_size_bytes == 0,
            r.record_count == 0,
            r.delete_type == DeleteType::PositionDelete,
            r.equality_ids@.len() == 0,
    {
        DeleteFile {
            file_path: String::new(),
            file_size_bytes: 0,
            record_count: 0,
            delete_type: DeleteType::PositionDelete,
            equality_ids: Vec::new(),
        }
    }
}

impl Default for Snapshot {
    fn default() -> (r: Self)
        ensures
            r.snapshot_id == 0,
            r.parent_snapshot_id.is_none(),
            r.timestamp_ms == 0,
            r.operation.is_none(),
            r.summary@.len() == 0,
            r.manifest_list@.len() == 0,
            r.schema_id.is_none(),
    {
        Snapshot {
            snapshot_id: 0,
            parent_snapshot_id: None,
            timestamp_ms: 0,
            operation: None,
            summary: Vec::new(),
            manifest_list: String::new(),
            schema_id: None,
        }
    }
}

// ---------------------------------------------------------------------------
// Aggregates over file lists
// ---------------------------------------------------------------------------

/// Total bytes of a sequence of data files.
pub open spec fn data_bytes(files: Seq<DataFile>) -> nat
    decreases files.len(),
{
    if files.len() == 0 {
        0
    } else {
        data_bytes(files.drop_last()) + files.last().file_size_bytes as nat
    }
}

/// Total records of a sequence of data files.
pub open spec fn data_records(files: Seq<DataFile>) -> nat
    decreases files.len(),
{
    if files.len() == 0 {
        0
    } else {
        data_records(files.drop_last()) + files.last().record_count as nat
    }
}

/// Total bytes of a sequence of delete files.
pub open spec fn delete_bytes(files: Seq<DeleteFile>) -> nat
    decreases files.len(),
{
    if files.len() == 0 {
        0
    } else {
        delete_bytes(files.drop_last()) + files.last().file_size_bytes as nat
    }
}

/// Total records of a sequence of delete files.
pub open spec fn delete_records(files: Seq<DeleteFile>) -> nat
    decreases files.len(),
{
    if files.len() == 0 {
        0
    } else {
        delete_records(files.drop_last()) + files.last().record_count as nat
    }
}

/// Data files smaller than `threshold` bytes, in order.
pub open spec fn small_files_of(files: Seq<DataFile>, threshold: u64) -> Seq<DataFile>
    decreases files.len(),
{
    if files.len() == 0 {
        Seq::empty()
    } else if files.last().file_size_bytes < threshold {
        small_files_of(files.drop_last(), threshold).push(files.last())
    } else {
        small_files_of(files.drop_last(), threshold)
    }
}

pub proof fn lemma_data_bytes_monotone(files: Seq<DataFile>, i: int, j: int)
    requires
        0 <= i <= j <= files.len(),
    ensures
        data_bytes(files.take(i)) <= data_bytes(files.take(j)),
    decreases j - i,
{
    if i < j {
        lemma_data_bytes_monotone(files, i, j - 1);
        assert(files.take(j).drop_last() =~= files.take(j - 1));
    }
}

pub proof fn lemma_data_records_monotone(files: Seq<DataFile>, i: int, j: int)
    requires
        0 <= i <= j <= files.len(),
    ensures
        data_records(files.take(i)) <= data_records(files.take(j)),
    decreases j - i,
{
    if i < j {
        lemma_data_records_monotone(files, i, j - 1);
        assert(files.take(j).drop_last() =~= files.take(j - 1));
    }
}

pub proof fn lemma_delete_bytes_monotone(files: Seq<DeleteFile>, i: int, j: int)
    requires
        0 <= i <= j <= files.len(),
    ensures
        delete_bytes(files.take(i)) <= delete_bytes(files.take(j)),
    decreases j - i,
{
    if i < j {
        lemma_delete_bytes_monotone(files, i, j - 1);
        assert(files.take(j).drop_last() =~= files.take(j - 1));
    }
}

pub proof fn lemma_delete_records_monotone(files: Seq<DeleteFile>, i: int, j: int)
    requires
        0 <= i <= j <= files.len(),
    ensures
        delete_records(files.take(i)) <= delete_records(files.take(j)),
    decreases j - i,
{
    if i < j {
        lemma_delete_records_monotone(files, i, j - 1);
        assert(files.take(j).drop_last() =~= files.take(j - 1));
    }
}

impl TableMetadata {
    /// The pairs that stand for maps have distinct keys: the properties,
    /// the refs and every data file's partition values.
    pub open spec fn maps_well_formed(&self) -> bool {
        &&& keys_unique(self.properties@)
        &&& keys_unique(self.refs@)
        &&& forall|i: int| 0 <= i < self.data_files@.len() ==> keys_unique((#[trigger] self.data_files@[i]).partition@)
    }

    /// The byte and record totals of the table's files fit in 64 bits,
    /// as the reports hold them.
    pub open spec fn totals_fit(&self) -> bool {
        &&& data_bytes(self.data_files@) <= u64::MAX
        &&& data_records(self.data_files@) <= u64::MAX
        &&& delete_bytes(self.delete_files@) <= u64::MAX
        &&& delete_records(self.delete_files@) <= u64::MAX
    }
}

/// Sum of the sizes of `files`.
pub fn total_data_bytes(files: &Vec<DataFile>) -> (r: u64)
    requires
        data_bytes(files@) <= u64::MAX,
    ensures
        r == data_bytes(files@),
{
    let mut acc: u64 = 0;
    let mut i: usize = 0;
    while i < files.len()
        invariant
            i <= files@.len(),
            data_bytes(files@) <= u64::MAX,
            acc == data_bytes(files@.take(i as int)),
        decreases files@.len() - i,
    {
        proof {
            assert(files@.take(i + 1).drop_last() =~= files@.take(i as int));
            lemma_data_bytes_monotone(files@, i + 1, files@.len() as int);
            assert(files@.take(files@.len() as int) =~= files@);
        }
        acc = acc + files[i].file_size_bytes;
        i = i + 1;
    }
    proof {
        assert(files@.take(files@.len() as int) =~= files@);
    }
    acc
}

/// Sum of the record counts of `files`.
pub fn total_data_records(files: &Vec<DataFile>) -> (r: u64)
    requires
        data_records(files@) <= u64::MAX,
    ensures
        r == data_records(files@),
{
    let mut acc: u64 = 0;
    let mut i: usize = 0;
    while i < files.len()
        invariant
            i <= files@.len(),
            data_records(files@) <= u64::MAX,
            acc == data_records(files@.take(i as int)),
        decreases files@.len() - i,
    {
        proof {
            assert(files@.take(i + 1).drop_last() =~= files@.take(i as int));
            lemma_data_records_monotone(files@, i + 1, files@.len() as int);
            assert(files@.take(files@.len() as int) =~= files@);
        }
        acc = acc + files[i].record_count;
        i = i + 1;
    }
    proof {
        assert(files@.take(files@.len() as int) =~= files@);
    }
    acc
}

} // verus!

verus! {

impl Snapshot {
    /// The commit instant in ms since the epoch: the stated timestamp when
    /// chrono can represent it, the epoch otherwise.
    pub fn timestamp(&self) -> (t: i64)
        ensures
            t == crate::clock::effective_ms(self.timestamp_ms),
            crate::clock::chrono_ms_in_range(t as int),
    {
        if crate::clock::chrono_accepts_ms(self.timestamp_ms) {
            self.timestamp_ms
        } else {
            0
        }
    }
}

} // verus!

verus! {

/// The value of the first pair with key `key`.
pub open spec fn property(props: Seq<(String, String)>, key: Seq<char>) -> Option<Seq<char>>
    decreases props.len(),
{
    if props.len() == 0 {
        None
    } else if props[0].0@ == key {
        Some(props[0].1@)
    } else {
        property(props.drop_first(), key)
    }
}

/// Looks up a key among key/value pairs (the first pair with the key).
pub fn get_property<'a>(props: &'a Vec<(String, String)>, key: &str) -> (r: Option<&'a String>)
    ensures
        r is None ==> property(props@, key@) is None,
        r matches Some(v) ==> property(props@, key@) == Some(v@),
{
    let wanted = String::from_str(key);
    let mut i: usize = 0;
    proof {
        assert(props@.skip(0) =~= props@);
    }
    while i < props.len()
        invariant
            i <= props@.len(),
            wanted@ == key@,
            property(props@, key@) == property(props@.skip(i as int), key@),
        decreases props@.len() - i,
    {
        proof {
            assert(props@.skip(i as int)[0] == props@[i as int]);
            assert(props@.skip(i as int).drop_first() =~= props@.skip(i + 1));
        }
        if props[i].0 == wanted {
            return Some(&props[i].1);
        }
        i = i + 1;
    }
    None
}

} // verus!
