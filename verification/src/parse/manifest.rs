//! Manifest lists and manifests (Avro).
//!
//! Manifest lists reference manifest files; each manifest entry describes a
//! data file or a delete file, with per-file column statistics. Only entries
//! with status 0 (existing) or 1 (added) are kept. Key/value maps read from
//! Avro are kept as pairs in the order read.

use vstd::prelude::*;
use crate::checks::partition_skew::{ascending, insert_asc, lemma_sort_asc, lemma_sort_len, sort_asc, sort_values, sum_u64};
use crate::metadata::{DataFile, DeleteFile, DeleteType, FileFormat, ManifestStats};
use crate::parse::avro::{
    avro_to_int, avro_to_long, avro_value_text, field, field_index, get_int, get_int_or_enum, get_long, get_string,
    int_of, int_or_enum_of, long_of, read_avro_values, shapes_of, avro_records, string_of, to_int, to_long, unwrap_union, value_text,
    AvroDatum, AvroValue,
};
use crate::text::{parse_i32, parse_i32_spec};

verus! {

/// Entry from a manifest list file — reference to a manifest.
pub struct ManifestListEntry {
    pub manifest_path: String,
    pub manifest_length: i64,
    pub partition_spec_id: i32,
    /// 0 = data, 1 = deletes
    pub content: i32,
    pub added_snapshot_id: i64,
    pub added_files_count: i32,
    pub existing_files_count: i32,
    pub deleted_files_count: i32,
    pub added_rows_count: i64,
    pub existing_rows_count: i64,
    pub deleted_rows_count: i64,
}

/// Entry from a manifest file — describes a data or delete file.
pub struct ManifestEntry {
    /// 0 = existing, 1 = added, 2 = deleted
    pub status: i32,
    pub snapshot_id: Option<i64>,
    pub data_file: ManifestDataFile,
}

pub struct ManifestDataFile {
    /// 0 = data, 1 = position deletes, 2 = equality deletes
    pub content: i32,
    pub file_path: String,
    pub file_format: String,
    pub record_count: i64,
    pub file_size_in_bytes: i64,
    pub partition: Vec<(String, String)>,
    pub column_sizes: Vec<(i32, i64)>,
    pub value_counts: Vec<(i32, i64)>,
    pub null_value_counts: Vec<(i32, i64)>,
    pub sort_order_id: Option<i32>,
    pub spec_id: Option<i32>,
    pub equality_ids: Vec<i32>,
}

pub enum ManifestParseError {
    /// The file could not be read.
    Io(String),
    /// The bytes are not a readable Avro file.
    Avro(apache_avro::Error),
    /// A required field is missing.
    MissingField(String),
}

// ---------------------------------------------------------------------------
// Manifest size distribution
// ---------------------------------------------------------------------------

/// Manifest lengths, negatives counted as 0.
pub open spec fn manifest_sizes(entries: Seq<ManifestListEntry>) -> Seq<u64> {
    Seq::new(entries.len(), |i: int| if entries[i].manifest_length < 0 { 0u64 } else { entries[i].manifest_length as u64 })
}

/// Count, total, median (the size at index `n / 2` once sorted) and
/// maximum of the manifest sizes; all zero without entries.
pub open spec fn manifest_stats_spec(entries: Seq<ManifestListEntry>) -> ManifestStats {
    let sizes = manifest_sizes(entries);
    let sorted = sort_asc(sizes);
    if entries.len() == 0 {
        ManifestStats { manifest_count: 0, manifests_total_bytes: 0, median_manifest_bytes: 0, max_manifest_bytes: 0 }
    } else {
        ManifestStats {
            manifest_count: entries.len() as u64,
            manifests_total_bytes: sum_u64(sizes) as u64,
            median_manifest_bytes: sorted[(entries.len() / 2) as int],
            max_manifest_bytes: sorted[entries.len() - 1],
        }
    }
}

/// The manifest statistics are consistent: the median is at most the
/// maximum, and the maximum is the largest manifest size and one of them.
pub proof fn law_manifest_stats_ordered(entries: Seq<ManifestListEntry>)
    requires
        entries.len() > 0,
        entries.len() <= u64::MAX,
    ensures
        manifest_stats_spec(entries).manifest_count == entries.len(),
        manifest_stats_spec(entries).median_manifest_bytes <= manifest_stats_spec(entries).max_manifest_bytes,
        forall|i: int| 0 <= i < entries.len() ==> (#[trigger] manifest_sizes(entries)[i]) <= manifest_stats_spec(entries).max_manifest_bytes,
        manifest_sizes(entries).contains(manifest_stats_spec(entries).max_manifest_bytes),
{
    broadcast use vstd::seq_lib::group_to_multiset_ensures;
    let sizes = manifest_sizes(entries);
    let s = sort_asc(sizes);
    let n = entries.len();
    lemma_sort_asc(sizes);
    if n / 2 < n - 1 {
        assert(s[(n / 2) as int] <= s[n - 1]);
    }
    assert forall|i: int| 0 <= i < entries.len() implies (#[trigger] manifest_sizes(entries)[i]) <= manifest_stats_spec(entries).max_manifest_bytes by {
        assert(sizes.to_multiset().count(sizes[i]) > 0);
        assert(s.contains(sizes[i]));
        let k = choose|k: int| 0 <= k < s.len() && s[k] == sizes[i];
        if k < n - 1 { assert(s[k] <= s[n - 1]); }
    }
    assert(s.to_multiset().count(s[n - 1]) > 0);
}

proof fn lemma_sum_insert(s: Seq<u64>, x: u64)
    ensures
        sum_u64(insert_asc(s, x)) == sum_u64(s) + x,
    decreases s.len(),
{
    if s.len() == 0 {
        assert(insert_asc(s, x) == seq![x]);
        assert(seq![x].drop_last() =~= Seq::<u64>::empty());
        assert(sum_u64(seq![x]) == sum_u64(seq![x].drop_last()) + x);
    } else if s.last() > x {
        let q = insert_asc(s.drop_last(), x);
        lemma_sum_insert(s.drop_last(), x);
        assert(insert_asc(s, x) == q.push(s.last()));
        assert(q.push(s.last()).drop_last() =~= q);
        assert(sum_u64(q.push(s.last())) == sum_u64(q) + s.last());
    } else {
        assert(insert_asc(s, x) == s.push(x));
        assert(s.push(x).drop_last() =~= s);
        assert(sum_u64(s.push(x)) == sum_u64(s) + x);
    }
}

proof fn lemma_sum_sorted(s: Seq<u64>)
    ensures
        sum_u64(sort_asc(s)) == sum_u64(s),
    decreases s.len(),
{
    if s.len() > 0 {
        lemma_sum_sorted(s.drop_last());
        lemma_sum_insert(sort_asc(s.drop_last()), s.last());
    }
}

proof fn lemma_ascending_eq(a: Seq<u64>, b: Seq<u64>)
    requires
        ascending(a),
        ascending(b),
        a.to_multiset() =~= b.to_multiset(),
    ensures
        a == b,
    decreases a.len(),
{
    broadcast use vstd::seq_lib::group_to_multiset_ensures;
    assert(a.to_multiset().len() == b.to_multiset().len());
    if a.len() == 0 {
        assert(a =~= b);
    } else {
        let n = a.len() - 1;
        assert(a.contains(a[n]));
        assert(b.to_multiset().count(a[n]) > 0);
        let k = choose|k: int| 0 <= k < b.len() && b[k] == a[n];
        assert(b.contains(b[n]));
        assert(a.to_multiset().count(b[n]) > 0);
        let m = choose|m: int| 0 <= m < a.len() && a[m] == b[n];
        if k < n { assert(b[k] <= b[n]); }
        if m < n { assert(a[m] <= a[n]); }
        assert(a[n] == b[n]);
        assert(a.remove(n) =~= a.drop_last());
        assert(b.remove(n) =~= b.drop_last());
        assert(a.drop_last().to_multiset() =~= a.to_multiset().remove(a[n]));
        assert(b.drop_last().to_multiset() =~= b.to_multiset().remove(b[n]));
        lemma_ascending_eq(a.drop_last(), b.drop_last());
        assert(a =~= a.drop_last().push(a[n]));
        assert(b =~= b.drop_last().push(b[n]));
    }
}

/// The manifest statistics do not depend on the order of the manifest
/// list: two lists with the same manifest sizes, each as often, give the
/// same statistics.
pub proof fn law_manifest_stats_order_free(a: Seq<ManifestListEntry>, b: Seq<ManifestListEntry>)
    requires
        manifest_sizes(a).to_multiset() =~= manifest_sizes(b).to_multiset(),
    ensures
        manifest_stats_spec(a) == manifest_stats_spec(b),
{
    broadcast use vstd::seq_lib::group_to_multiset_ensures;
    let sa = manifest_sizes(a);
    let sb = manifest_sizes(b);
    assert(sa.to_multiset().len() == sb.to_multiset().len());
    lemma_sort_asc(sa);
    lemma_sort_asc(sb);
    lemma_ascending_eq(sort_asc(sa), sort_asc(sb));
    lemma_sum_sorted(sa);
    lemma_sum_sorted(sb);
}

/// Computes the manifest size distribution from manifest list entries.
pub fn manifest_stats_from_list(entries: &[ManifestListEntry]) -> (s: ManifestStats)
    requires
        sum_u64(manifest_sizes(entries@)) <= u64::MAX,
    ensures
        s == manifest_stats_spec(entries@),
{
    let n = entries.len();
    if n == 0 {
        return ManifestStats::default();
    }
    let mut sizes: Vec<u64> = Vec::new();
    let mut i: usize = 0;
    while i < n
        invariant
            n == entries@.len(),
            i <= n,
            sizes@ =~= manifest_sizes(entries@).take(i as int),
        decreases n - i,
    {
        let len = entries[i].manifest_length;
        sizes.push(if len < 0 { 0 } else { len as u64 });
        i = i + 1;
    }
    proof {
        assert(sizes@ =~= manifest_sizes(entries@));
        lemma_sort_len(sizes@);
    }
    let sorted = sort_values(&sizes);
    let total = crate::checks::partition_skew::Distribution::from_values(&sizes).sum;
    ManifestStats {
        manifest_count: n as u64,
        manifests_total_bytes: total,
        median_manifest_bytes: sorted[n / 2],
        max_manifest_bytes: sorted[n - 1],
    }
}

// ---------------------------------------------------------------------------
// Record contents
// ---------------------------------------------------------------------------

/// Partition values of a `partition` record, as text; empty texts dropped.
pub open spec fn partition_pairs(fields: Seq<(String, AvroDatum)>) -> Seq<(Seq<char>, Seq<char>)>
    decreases fields.len(),
{
    if fields.len() == 0 {
        Seq::empty()
    } else {
        let rest = partition_pairs(fields.drop_last());
        let t = value_text(fields.last().1);
        if t.len() > 0 { rest.push((fields.last().0@, t)) } else { rest }
    }
}

pub open spec fn pair_views(v: Seq<(String, String)>) -> Seq<(Seq<char>, Seq<char>)> {
    Seq::new(v.len(), |i: int| (v[i].0@, v[i].1@))
}

/// The partition pairs of the `partition` field, when it is a record.
pub open spec fn partition_of(d: Option<AvroDatum>) -> Seq<(Seq<char>, Seq<char>)> {
    match d {
        Some(x) => match x.value {
            AvroValue::Record(fs) => partition_pairs(fs@),
            _ => Seq::empty(),
        },
        None => Seq::empty(),
    }
}

/// `{key, value}` records with an int key and a long value.
pub open spec fn keyed_pairs(items: Seq<AvroDatum>) -> Seq<(i32, i64)>
    decreases items.len(),
{
    if items.len() == 0 {
        Seq::empty()
    } else {
        let rest = keyed_pairs(items.drop_last());
        match items.last().value {
            AvroValue::Record(fs) => match (int_of(field(fs@, "key"@)), long_of(field(fs@, "value"@))) {
                (Some(k), Some(v)) => rest.push((k, v)),
                _ => rest,
            },
            _ => rest,
        }
    }
}

/// Map entries whose key parses as an int and whose value is a long.
pub open spec fn map_pairs(entries: Seq<(String, AvroDatum)>) -> Seq<(i32, i64)>
    decreases entries.len(),
{
    if entries.len() == 0 {
        Seq::empty()
    } else {
        let rest = map_pairs(entries.drop_last());
        match (parse_i32_spec(entries.last().0@), to_long(entries.last().1)) {
            (Some(k), Some(v)) => rest.push((k, v)),
            _ => rest,
        }
    }
}

/// An int→long statistics map, in either of its Avro shapes.
pub open spec fn stats_pairs(d: Option<AvroDatum>) -> Seq<(i32, i64)> {
    match unwrap_union(d) {
        Some(x) => match x.value {
            AvroValue::Array(items) => keyed_pairs(items@),
            AvroValue::MapEntries(es) => map_pairs(es@),
            _ => Seq::empty(),
        },
        None => Seq::empty(),
    }
}

/// The int items of an array.
pub open spec fn int_items(items: Seq<AvroDatum>) -> Seq<i32>
    decreases items.len(),
{
    if items.len() == 0 {
        Seq::empty()
    } else {
        match to_int(items.last()) {
            Some(v) => int_items(items.drop_last()).push(v),
            None => int_items(items.drop_last()),
        }
    }
}

pub open spec fn equality_ids_of(d: Option<AvroDatum>) -> Seq<i32> {
    match unwrap_union(d) {
        Some(x) => match x.value {
            AvroValue::Array(items) => int_items(items@),
            _ => Seq::empty(),
        },
        None => Seq::empty(),
    }
}

pub open spec fn opt_or<T>(o: Option<T>, d: T) -> T {
    match o {
        Some(v) => v,
        None => d,
    }
}

/// `e` is the manifest list entry read from `fs`.
pub open spec fn is_list_entry(e: ManifestListEntry, fs: Seq<(String, AvroDatum)>) -> bool {
    &&& string_of(field(fs, "manifest_path"@)) == Some(e.manifest_path@)
    &&& e.manifest_length == opt_or(long_of(field(fs, "manifest_length"@)), 0)
    &&& e.partition_spec_id == opt_or(int_of(field(fs, "partition_spec_id"@)), 0)
    &&& e.content == opt_or(int_or_enum_of(field(fs, "content"@)), 0)
    &&& e.added_snapshot_id == opt_or(long_of(field(fs, "added_snapshot_id"@)), 0)
    &&& e.added_files_count == opt_or(int_of(field(fs, "added_files_count"@)), 0)
    &&& e.existing_files_count == opt_or(int_of(field(fs, "existing_files_count"@)), 0)
    &&& e.deleted_files_count == opt_or(int_of(field(fs, "deleted_files_count"@)), 0)
    &&& e.added_rows_count == opt_or(long_of(field(fs, "added_rows_count"@)), 0)
    &&& e.existing_rows_count == opt_or(long_of(field(fs, "existing_rows_count"@)), 0)
    &&& e.deleted_rows_count == opt_or(long_of(field(fs, "deleted_rows_count"@)), 0)
}

/// `d` is the data file read from the `data_file` record `fs`.
pub open spec fn is_data_file_record(d: ManifestDataFile, fs: Seq<(String, AvroDatum)>) -> bool {
    &&& d.content == opt_or(int_or_enum_of(field(fs, "content"@)), 0)
    &&& string_of(field(fs, "file_path"@)) == Some(d.file_path@)
    &&& d.file_format@ == opt_or(string_of(field(fs, "file_format"@)), "PARQUET"@)
    &&& d.record_count == opt_or(long_of(field(fs, "record_count"@)), 0)
    &&& d.file_size_in_bytes == opt_or(long_of(field(fs, "file_size_in_bytes"@)), 0)
    &&& d.sort_order_id == int_of(field(fs, "sort_order_id"@))
    &&& d.spec_id == int_of(field(fs, "spec_id"@))
    &&& pair_views(d.partition@) == partition_of(field(fs, "partition"@))
    &&& d.column_sizes@ == stats_pairs(field(fs, "column_sizes"@))
    &&& d.value_counts@ == stats_pairs(field(fs, "value_counts"@))
    &&& d.null_value_counts@ == stats_pairs(field(fs, "null_value_counts"@))
    &&& d.equality_ids@ == equality_ids_of(field(fs, "equality_ids"@))
}

/// The missing field that stops a manifest record from being read, if any.
pub open spec fn record_error(fs: Seq<(String, AvroDatum)>) -> Option<Seq<char>> {
    match field(fs, "data_file"@) {
        None => Some("data_file"@),
        Some(d) => match d.value {
            AvroValue::Record(dfs) => if string_of(field(dfs@, "file_path"@)) is None { Some("file_path"@) } else { None },
            _ => Some("data_file (not a record)"@),
        },
    }
}

/// `e` is the manifest entry read from `fs`.
pub open spec fn is_manifest_entry(e: ManifestEntry, fs: Seq<(String, AvroDatum)>) -> bool {
    &&& e.status == opt_or(int_of(field(fs, "status"@)), 0)
    &&& e.snapshot_id == long_of(field(fs, "snapshot_id"@))
    &&& field(fs, "data_file"@) matches Some(d) && d.value matches AvroValue::Record(dfs)
        && is_data_file_record(e.data_file, dfs@)
}

// ---------------------------------------------------------------------------
// Reading records
// ---------------------------------------------------------------------------

fn partition_list(fs: &Vec<(String, AvroDatum)>) -> (r: Vec<(String, String)>)
    ensures
        pair_views(r@) == partition_pairs(fs@),
{
    let mut r: Vec<(String, String)> = Vec::new();
    let mut i: usize = 0;
    while i < fs.len()
        invariant
            i <= fs@.len(),
            pair_views(r@) == partition_pairs(fs@.take(i as int)),
        decreases fs@.len() - i,
    {
        proof {
            assert(fs@.take(i + 1).drop_last() =~= fs@.take(i as int));
        }
        let t = avro_value_text(&fs[i].1);
        if t.unicode_len() > 0 {
            let ghost before = pair_views(r@);
            r.push((fs[i].0.clone(), t));
            proof {
                assert(pair_views(r@) =~= before.push((fs@[i as int].0@, value_text(fs@[i as int].1))));
            }
        }
        i = i + 1;
    }
    proof {
        assert(fs@.take(fs@.len() as int) =~= fs@);
    }
    r
}

fn keyed_list(items: &Vec<AvroDatum>) -> (r: Vec<(i32, i64)>)
    ensures
        r@ == keyed_pairs(items@),
{
    let mut r: Vec<(i32, i64)> = Vec::new();
    let mut i: usize = 0;
    while i < items.len()
        invariant
            i <= items@.len(),
            r@ == keyed_pairs(items@.take(i as int)),
        decreases items@.len() - i,
    {
        proof {
            assert(items@.take(i + 1).drop_last() =~= items@.take(i as int));
        }
        match &items[i].value {
            AvroValue::Record(fs) => {
                match (get_int(fs, "key"), get_long(fs, "value")) {
                    (Some(k), Some(v)) => r.push((k, v)),
                    _ => {},
                }
            },
            _ => {},
        }
        i = i + 1;
    }
    proof {
        assert(items@.take(items@.len() as int) =~= items@);
    }
    r
}

fn map_list(entries: &Vec<(String, AvroDatum)>) -> (r: Vec<(i32, i64)>)
    ensures
        r@ == map_pairs(entries@),
{
    let mut r: Vec<(i32, i64)> = Vec::new();
    let mut i: usize = 0;
    while i < entries.len()
        invariant
            i <= entries@.len(),
            r@ == map_pairs(entries@.take(i as int)),
        decreases entries@.len() - i,
    {
        proof {
            assert(entries@.take(i + 1).drop_last() =~= entries@.take(i as int));
        }
        match (parse_i32(entries[i].0.as_str()), avro_to_long(&entries[i].1)) {
            (Some(k), Some(v)) => r.push((k, v)),
            _ => {},
        }
        i = i + 1;
    }
    proof {
        assert(entries@.take(entries@.len() as int) =~= entries@);
    }
    r
}

fn unwrapped<'a>(d: Option<&'a AvroDatum>) -> (r: Option<&'a AvroDatum>)
    ensures
        r is None ==> unwrap_union(match d { Some(x) => Some(*x), None => None }) is None,
        r matches Some(x) ==> unwrap_union(match d { Some(y) => Some(*y), None => None }) == Some(*x),
{
    match d {
        Some(x) => match &x.value {
            AvroValue::Union(_, inner) => match &inner.value {
                AvroValue::Null => None,
                _ => Some(&**inner),
            },
            AvroValue::Null => None,
            _ => Some(x),
        },
        None => None,
    }
}

fn field_ref<'a>(fs: &'a Vec<(String, AvroDatum)>, key: &str) -> (r: Option<&'a AvroDatum>)
    ensures
        (match r { Some(x) => Some(*x), None => None }) == field(fs@, key@),
{
    match field_index(fs, key) {
        Some(i) => Some(&fs[i].1),
        None => None,
    }
}

fn stats_list(fs: &Vec<(String, AvroDatum)>, key: &str) -> (r: Vec<(i32, i64)>)
    ensures
        r@ == stats_pairs(field(fs@, key@)),
{
    match unwrapped(field_ref(fs, key)) {
        Some(x) => match &x.value {
            AvroValue::Array(items) => keyed_list(items),
            AvroValue::MapEntries(es) => map_list(es),
            _ => Vec::new(),
        },
        None => Vec::new(),
    }
}

fn int_list(items: &Vec<AvroDatum>) -> (r: Vec<i32>)
    ensures
        r@ == int_items(items@),
{
    let mut r: Vec<i32> = Vec::new();
    let mut i: usize = 0;
    while i < items.len()
        invariant
            i <= items@.len(),
            r@ == int_items(items@.take(i as int)),
        decreases items@.len() - i,
    {
        proof {
            assert(items@.take(i + 1).drop_last() =~= items@.take(i as int));
        }
        match avro_to_int(&items[i]) {
            Some(v) => r.push(v),
            None => {},
        }
        i = i + 1;
    }
    proof {
        assert(items@.take(items@.len() as int) =~= items@);
    }
    r
}

/// Reads a manifest list record.
pub fn parse_manifest_list_record(fs: &Vec<(String, AvroDatum)>) -> (r: Result<ManifestListEntry, ManifestParseError>)
    ensures
        r is Err <==> string_of(field(fs@, "manifest_path"@)) is None,
        r matches Err(e) ==> e matches ManifestParseError::MissingField(k) && k@ == "manifest_path"@,
        r matches Ok(e) ==> is_list_entry(e, fs@),
{
    let path = match get_string(fs, "manifest_path") {
        Some(p) => p,
        None => return Err(ManifestParseError::MissingField(String::from_str("manifest_path"))),
    };
    Ok(ManifestListEntry {
        manifest_path: path,
        manifest_length: opt_or_i64(get_long(fs, "manifest_length")),
        partition_spec_id: opt_or_i32(get_int(fs, "partition_spec_id")),
        content: opt_or_i32(get_int_or_enum(fs, "content")),
        added_snapshot_id: opt_or_i64(get_long(fs, "added_snapshot_id")),
        added_files_count: opt_or_i32(get_int(fs, "added_files_count")),
        existing_files_count: opt_or_i32(get_int(fs, "existing_files_count")),
        deleted_files_count: opt_or_i32(get_int(fs, "deleted_files_count")),
        added_rows_count: opt_or_i64(get_long(fs, "added_rows_count")),
        existing_rows_count: opt_or_i64(get_long(fs, "existing_rows_count")),
        deleted_rows_count: opt_or_i64(get_long(fs, "deleted_rows_count")),
    })
}

fn opt_or_i64(o: Option<i64>) -> (v: i64)
    ensures
        v == opt_or(o, 0),
{
    match o {
        Some(v) => v,
        None => 0,
    }
}

fn opt_or_i32(o: Option<i32>) -> (v: i32)
    ensures
        v == opt_or(o, 0),
{
    match o {
        Some(v) => v,
        None => 0,
    }
}

/// Reads a `data_file` record.
pub fn parse_data_file_record(fs: &Vec<(String, AvroDatum)>) -> (r: Result<ManifestDataFile, ManifestParseError>)
    ensures
        r is Err <==> string_of(field(fs@, "file_path"@)) is None,
        r matches Err(e) ==> e matches ManifestParseError::MissingField(k) && k@ == "file_path"@,
        r matches Ok(d) ==> is_data_file_record(d, fs@),
{
    let content = opt_or_i32(get_int_or_enum(fs, "content"));
    let file_path = match get_string(fs, "file_path") {
        Some(p) => p,
        None => return Err(ManifestParseError::MissingField(String::from_str("file_path"))),
    };
    let file_format = match get_string(fs, "file_format") {
        Some(f) => f,
        None => String::from_str("PARQUET"),
    };
    let partition = match field_ref(fs, "partition") {
        Some(d) => match &d.value {
            AvroValue::Record(pfs) => partition_list(pfs),
            _ => Vec::new(),
        },
        None => Vec::new(),
    };
    let equality_ids = match unwrapped(field_ref(fs, "equality_ids")) {
        Some(x) => match &x.value {
            AvroValue::Array(items) => int_list(items),
            _ => Vec::new(),
        },
        None => Vec::new(),
    };
    let d = ManifestDataFile {
        content,
        file_path,
        file_format,
        record_count: opt_or_i64(get_long(fs, "record_count")),
        file_size_in_bytes: opt_or_i64(get_long(fs, "file_size_in_bytes")),
        partition,
        column_sizes: stats_list(fs, "column_sizes"),
        value_counts: stats_list(fs, "value_counts"),
        null_value_counts: stats_list(fs, "null_value_counts"),
        sort_order_id: get_int(fs, "sort_order_id"),
        spec_id: get_int(fs, "spec_id"),
        equality_ids,
    };
    proof {
        assert(pair_views(d.partition@) == partition_of(field(fs@, "partition"@)));
    }
    Ok(d)
}

/// Reads a manifest record: its status, snapshot and `data_file` record.
pub fn parse_manifest_record(fs: &Vec<(String, AvroDatum)>) -> (r: Result<ManifestEntry, ManifestParseError>)
    ensures
        r is Err <==> record_error(fs@) is Some,
        r matches Err(e) ==> e matches ManifestParseError::MissingField(k) && record_error(fs@) == Some(k@),
        r matches Ok(e) ==> is_manifest_entry(e, fs@),
{
    let status = opt_or_i32(get_int(fs, "status"));
    let snapshot_id = get_long(fs, "snapshot_id");
    let df = match field_ref(fs, "data_file") {
        Some(d) => d,
        None => return Err(ManifestParseError::MissingField(String::from_str("data_file"))),
    };
    let data_file = match &df.value {
        AvroValue::Record(dfs) => parse_data_file_record(dfs)?,
        _ => return Err(ManifestParseError::MissingField(String::from_str("data_file (not a record)"))),
    };
    Ok(ManifestEntry { status, snapshot_id, data_file })
}

// ---------------------------------------------------------------------------
// Entries into files
// ---------------------------------------------------------------------------

/// The format named by `s`, compared without regard to ASCII case; Parquet
/// for anything else.
pub open spec fn format_of(s: Seq<char>) -> FileFormat {
    if ascii_eq_ignore_case(s, "PARQUET"@) {
        FileFormat::Parquet
    } else if ascii_eq_ignore_case(s, "AVRO"@) {
        FileFormat::Avro
    } else if ascii_eq_ignore_case(s, "ORC"@) {
        FileFormat::Orc
    } else {
        FileFormat::Parquet
    }
}

/// The code of a character with ASCII lower case raised.
pub open spec fn ascii_upper(c: char) -> u32 {
    if 'a' <= c && c <= 'z' { ((c as u32) - 32) as u32 } else { c as u32 }
}

pub open spec fn ascii_eq_ignore_case(a: Seq<char>, b: Seq<char>) -> bool {
    a.len() == b.len() && forall|i: int| 0 <= i < a.len() ==> ascii_upper(#[trigger] a[i]) == ascii_upper(b[i])
}

fn eq_ignore_case(a: &str, b: &str) -> (r: bool)
    ensures
        r == ascii_eq_ignore_case(a@, b@),
{
    let n = a.unicode_len();
    if n != b.unicode_len() {
        return false;
    }
    let mut i: usize = 0;
    while i < n
        invariant
            n == a@.len(),
            n == b@.len(),
            i <= n,
            forall|j: int| 0 <= j < i ==> ascii_upper(#[trigger] a@[j]) == ascii_upper(b@[j]),
        decreases n - i,
    {
        let c = a.get_char(i);
        let d = b.get_char(i);
        let cu: u32 = if 'a' <= c && c <= 'z' { (c as u32) - 32 } else { c as u32 };
        let du: u32 = if 'a' <= d && d <= 'z' { (d as u32) - 32 } else { d as u32 };
        if cu != du {
            return false;
        }
        i = i + 1;
    }
    true
}

/// The file format a manifest names.
pub fn parse_file_format(format: &str) -> (f: FileFormat)
    ensures
        f == format_of(format@),
{
    proof {
        reveal_strlit("PARQUET");
        reveal_strlit("AVRO");
        reveal_strlit("ORC");
    }
    if eq_ignore_case(format, "PARQUET") {
        FileFormat::Parquet
    } else if eq_ignore_case(format, "AVRO") {
        FileFormat::Avro
    } else if eq_ignore_case(format, "ORC") {
        FileFormat::Orc
    } else {
        FileFormat::Parquet
    }
}

/// The data file an entry describes.
pub open spec fn data_file_of(e: ManifestEntry) -> DataFile {
    DataFile {
        file_path: e.data_file.file_path,
        file_size_bytes: e.data_file.file_size_in_bytes as u64,
        record_count: e.data_file.record_count as u64,
        partition: e.data_file.partition,
        file_format: format_of(e.data_file.file_format@),
        column_sizes: e.data_file.column_sizes,
        value_counts: e.data_file.value_counts,
        null_value_counts: e.data_file.null_value_counts,
        sort_order_id: e.data_file.sort_order_id,
        spec_id: e.data_file.spec_id,
    }
}

/// The entry is live: status 0 (existing) or 1 (added). Deleted entries
/// (status 2), and any other status, add nothing.
pub open spec fn is_live(e: ManifestEntry) -> bool {
    e.status == 0 || e.status == 1
}

/// The entry adds a data file: live, content 0.
pub open spec fn adds_data(e: ManifestEntry) -> bool {
    is_live(e) && e.data_file.content == 0
}

/// The entry adds a delete file: live, content 1 (position deletes) or 2
/// (equality deletes). Other content types add nothing.
pub open spec fn adds_delete(e: ManifestEntry) -> bool {
    is_live(e) && (e.data_file.content == 1 || e.data_file.content == 2)
}

/// `d` is the delete file the entry `e` describes.
pub open spec fn delete_of_entry(d: DeleteFile, e: ManifestEntry) -> bool {
    &&& d.file_path == e.data_file.file_path
    &&& d.file_size_bytes == e.data_file.file_size_in_bytes as u64
    &&& d.record_count == e.data_file.record_count as u64
    &&& d.delete_type == if e.data_file.content == 1 { DeleteType::PositionDelete } else { DeleteType::EqualityDelete }
    &&& d.equality_ids@ == if e.data_file.content == 1 { Seq::<i32>::empty() } else { e.data_file.equality_ids@ }
}

/// The data files the entries describe, in order.
pub open spec fn data_of_entries(es: Seq<ManifestEntry>) -> Seq<DataFile>
    decreases es.len(),
{
    if es.len() == 0 {
        Seq::empty()
    } else if adds_data(es.last()) {
        data_of_entries(es.drop_last()).push(data_file_of(es.last()))
    } else {
        data_of_entries(es.drop_last())
    }
}

/// The entries that describe delete files, in order.
pub open spec fn delete_entries(es: Seq<ManifestEntry>) -> Seq<ManifestEntry>
    decreases es.len(),
{
    if es.len() == 0 {
        Seq::empty()
    } else if adds_delete(es.last()) {
        delete_entries(es.drop_last()).push(es.last())
    } else {
        delete_entries(es.drop_last())
    }
}

/// `ds` are the delete files the entries `es` describe.
pub open spec fn deletes_match(ds: Seq<DeleteFile>, es: Seq<ManifestEntry>) -> bool {
    &&& ds.len() == es.len()
    &&& forall|k: int| 0 <= k < ds.len() ==> delete_of_entry(#[trigger] ds[k], es[k])
}

/// Adds the file an entry describes to the data or delete files.
pub fn push_entry(entry: ManifestEntry, data_files: &mut Vec<DataFile>, delete_files: &mut Vec<DeleteFile>)
    ensures
        final(data_files)@ == if adds_data(entry) { old(data_files)@.push(data_file_of(entry)) } else { old(data_files)@ },
        adds_delete(entry) ==> {
            &&& final(delete_files)@.len() == old(delete_files)@.len() + 1
            &&& final(delete_files)@.drop_last() == old(delete_files)@
            &&& delete_of_entry(final(delete_files)@.last(), entry)
        },
        !adds_delete(entry) ==> final(delete_files)@ == old(delete_files)@,
{
    if entry.status != 0 && entry.status != 1 {
        return;
    }
    let content = entry.data_file.content;
    let ghost e = entry;
    if content == 0 {
        let format = parse_file_format(entry.data_file.file_format.as_str());
        let df = entry.data_file;
        data_files.push(DataFile {
            file_path: df.file_path,
            file_size_bytes: df.file_size_in_bytes as u64,
            record_count: df.record_count as u64,
            partition: df.partition,
            file_format: format,
            column_sizes: df.column_sizes,
            value_counts: df.value_counts,
            null_value_counts: df.null_value_counts,
            sort_order_id: df.sort_order_id,
            spec_id: df.spec_id,
        });
    } else if content == 1 {
        let df = entry.data_file;
        delete_files.push(DeleteFile {
            file_path: df.file_path,
            file_size_bytes: df.file_size_in_bytes as u64,
            record_count: df.record_count as u64,
            delete_type: DeleteType::PositionDelete,
            equality_ids: Vec::new(),
        });
        proof {
            assert(final(delete_files)@.drop_last() =~= old(delete_files)@);
        }
    } else if content == 2 {
        let df = entry.data_file;
        delete_files.push(DeleteFile {
            file_path: df.file_path,
            file_size_bytes: df.file_size_in_bytes as u64,
            record_count: df.record_count as u64,
            delete_type: DeleteType::EqualityDelete,
            equality_ids: df.equality_ids,
        });
        proof {
            assert(final(delete_files)@.drop_last() =~= old(delete_files)@);
        }
    }
}

// ---------------------------------------------------------------------------
// Whole files
// ---------------------------------------------------------------------------

/// The field lists of the record values, in order (other values are skipped).
pub open spec fn records_of(values: Seq<AvroDatum>) -> Seq<Seq<(String, AvroDatum)>>
    decreases values.len(),
{
    if values.len() == 0 {
        Seq::empty()
    } else {
        match values.last().value {
            AvroValue::Record(fs) => records_of(values.drop_last()).push(fs@),
            _ => records_of(values.drop_last()),
        }
    }
}

/// The first record of a manifest list without a manifest path.
pub open spec fn list_fails(recs: Seq<Seq<(String, AvroDatum)>>) -> bool {
    exists|k: int| 0 <= k < recs.len() && string_of(field(#[trigger] recs[k], "manifest_path"@)) is None
}

/// The error of the first manifest record that cannot be read, if any.
pub open spec fn first_record_error(recs: Seq<Seq<(String, AvroDatum)>>) -> Option<Seq<char>>
    decreases recs.len(),
{
    if recs.len() == 0 {
        None
    } else {
        match first_record_error(recs.drop_last()) {
            Some(e) => Some(e),
            None => record_error(recs.last()),
        }
    }
}

/// Reads the entries of a manifest list from its decoded values.
pub fn manifest_list_from_values(values: &Vec<AvroDatum>) -> (r: Result<Vec<ManifestListEntry>, ManifestParseError>)
    ensures
        r is Err <==> list_fails(records_of(values@)),
        r matches Err(e) ==> e matches ManifestParseError::MissingField(k) && k@ == "manifest_path"@,
        r matches Ok(es) ==> es@.len() == records_of(values@).len()
            && forall|k: int| 0 <= k < es@.len() ==> is_list_entry(#[trigger] es@[k], records_of(values@)[k]),
{
    let mut out: Vec<ManifestListEntry> = Vec::new();
    let mut i: usize = 0;
    while i < values.len()
        invariant
            i <= values@.len(),
            !list_fails(records_of(values@.take(i as int))),
            out@.len() == records_of(values@.take(i as int)).len(),
            forall|k: int| 0 <= k < out@.len() ==> is_list_entry(#[trigger] out@[k], records_of(values@.take(i as int))[k]),
        decreases values@.len() - i,
    {
        let ghost prev = records_of(values@.take(i as int));
        proof {
            assert(values@.take(i + 1).drop_last() =~= values@.take(i as int));
            lemma_records_step(values@, i as int);
        }
        match &values[i].value {
            AvroValue::Record(fs) => {
                match parse_manifest_list_record(fs) {
                    Ok(e) => {
                        out.push(e);
                        proof {
                            let now = records_of(values@.take(i + 1));
                            assert(now == prev.push(fs@));
                            assert forall|k: int| 0 <= k < now.len() implies string_of(field(#[trigger] now[k], "manifest_path"@)) is Some by {
                                if k < prev.len() {
                                    assert(now[k] == prev[k]);
                                }
                            }
                        }
                    },
                    Err(e) => {
                        proof {
                            let all = records_of(values@);
                            lemma_records_prefix(values@, i + 1);
                            let now = records_of(values@.take(i + 1));
                            assert(now[now.len() - 1] == fs@);
                            assert(all[now.len() - 1] == now[now.len() - 1]);
                        }
                        return Err(e);
                    },
                }
            },
            _ => {},
        }
        i = i + 1;
    }
    proof {
        assert(values@.take(values@.len() as int) =~= values@);
    }
    Ok(out)
}

proof fn lemma_records_step(values: Seq<AvroDatum>, i: int)
    requires
        0 <= i < values.len(),
    ensures
        records_of(values.take(i + 1)) == match values[i].value {
            AvroValue::Record(fs) => records_of(values.take(i)).push(fs@),
            _ => records_of(values.take(i)),
        },
{
    assert(values.take(i + 1).drop_last() =~= values.take(i));
    assert(values.take(i + 1).last() == values[i]);
}

proof fn lemma_records_prefix(values: Seq<AvroDatum>, i: int)
    requires
        0 <= i <= values.len(),
    ensures
        records_of(values.take(i)).len() <= records_of(values).len(),
        forall|k: int| 0 <= k < records_of(values.take(i)).len() ==> records_of(values)[k] == #[trigger] records_of(values.take(i))[k],
    decreases values.len() - i,
{
    if i < values.len() {
        lemma_records_prefix(values, i + 1);
        lemma_records_step(values, i);
        let a = records_of(values.take(i));
        let b = records_of(values.take(i + 1));
        assert forall|k: int| 0 <= k < a.len() implies b[k] == a[k] by {}
    } else {
        assert(values.take(i) =~= values);
    }
}

/// `es` are the entries read from the records `recs`.
pub open spec fn entries_read(es: Seq<ManifestEntry>, recs: Seq<Seq<(String, AvroDatum)>>) -> bool {
    &&& es.len() == recs.len()
    &&& forall|k: int| 0 <= k < es.len() ==> is_manifest_entry(#[trigger] es[k], recs[k])
}

/// Reads the data and delete files of a manifest from its decoded values.
pub fn manifest_files_from_values(values: &Vec<AvroDatum>) -> (r: Result<(Vec<DataFile>, Vec<DeleteFile>), ManifestParseError>)
    ensures
        r is Err <==> first_record_error(records_of(values@)) is Some,
        r matches Err(e) ==> e matches ManifestParseError::MissingField(k)
            && first_record_error(records_of(values@)) == Some(k@),
        r matches Ok(files) ==> exists|es: Seq<ManifestEntry>| entries_read(es, records_of(values@))
            && files.0@ == data_of_entries(es) && deletes_match(files.1@, delete_entries(es)),
{
    let mut data: Vec<DataFile> = Vec::new();
    let mut deletes: Vec<DeleteFile> = Vec::new();
    let ghost mut es: Seq<ManifestEntry> = Seq::empty();
    let mut i: usize = 0;
    while i < values.len()
        invariant
            i <= values@.len(),
            first_record_error(records_of(values@.take(i as int))) is None,
            entries_read(es, records_of(values@.take(i as int))),
            data@ == data_of_entries(es),
            deletes_match(deletes@, delete_entries(es)),
        decreases values@.len() - i,
    {
        let ghost prev = records_of(values@.take(i as int));
        proof {
            assert(values@.take(i + 1).drop_last() =~= values@.take(i as int));
            lemma_records_step(values@, i as int);
        }
        match &values[i].value {
            AvroValue::Record(fs) => {
                proof {
                    lemma_first_error_push(prev, fs@);
                }
                match parse_manifest_record(fs) {
                    Ok(e) => {
                        proof {
                            let now = records_of(values@.take(i + 1));
                            assert(now == prev.push(fs@));
                            let es2 = es.push(e);
                            assert(es2.drop_last() =~= es);
                            assert forall|k: int| 0 <= k < es2.len() implies is_manifest_entry(#[trigger] es2[k], now[k]) by {
                                if k < es.len() {
                                    assert(es2[k] == es[k]);
                                    assert(now[k] == prev[k]);
                                }
                            }
                            es = es2;
                        }
                        let ghost old_dels = deletes@;
                        push_entry(e, &mut data, &mut deletes);
                        proof {
                            let des = delete_entries(es);
                            if adds_delete(e) {
                                assert forall|k: int| 0 <= k < deletes@.len() implies delete_of_entry(#[trigger] deletes@[k], des[k]) by {
                                    if k < deletes@.len() - 1 {
                                        assert(deletes@[k] == old_dels[k]);
                                    }
                                }
                            }
                        }
                    },
                    Err(e) => {
                        proof {
                            lemma_first_error_prefix(values@, i + 1);
                        }
                        return Err(e);
                    },
                }
            },
            _ => {},
        }
        i = i + 1;
    }
    proof {
        assert(values@.take(values@.len() as int) =~= values@);
    }
    Ok((data, deletes))
}

proof fn lemma_first_error_push(recs: Seq<Seq<(String, AvroDatum)>>, x: Seq<(String, AvroDatum)>)
    ensures
        first_record_error(recs.push(x)) == match first_record_error(recs) {
            Some(e) => Some(e),
            None => record_error(x),
        },
{
    assert(recs.push(x).drop_last() =~= recs);
}

proof fn lemma_first_error_prefix(values: Seq<AvroDatum>, i: int)
    requires
        0 <= i <= values.len(),
        first_record_error(records_of(values.take(i))) is Some,
    ensures
        first_record_error(records_of(values)) == first_record_error(records_of(values.take(i))),
    decreases values.len() - i,
{
    if i < values.len() {
        lemma_records_step(values, i);
        match values[i].value {
            AvroValue::Record(fs) => lemma_first_error_push(records_of(values.take(i)), fs@),
            _ => {},
        }
        lemma_first_error_prefix(values, i + 1);
    } else {
        assert(values.take(i) =~= values);
    }
}

/// `r` is the manifest list read from the decoded `values`.
pub open spec fn list_read(r: Result<Vec<ManifestListEntry>, ManifestParseError>, values: Seq<AvroDatum>) -> bool {
    &&& (r is Err <==> list_fails(records_of(values)))
    &&& (r matches Err(e) ==> e matches ManifestParseError::MissingField(k) && k@ == "manifest_path"@)
    &&& (r matches Ok(es) ==> es@.len() == records_of(values).len()
        && forall|k: int| 0 <= k < es@.len() ==> is_list_entry(#[trigger] es@[k], records_of(values)[k]))
}

/// `r` is the data and delete files read from the decoded `values`.
pub open spec fn files_read(r: Result<(Vec<DataFile>, Vec<DeleteFile>), ManifestParseError>, values: Seq<AvroDatum>) -> bool {
    &&& (r is Err <==> first_record_error(records_of(values)) is Some)
    &&& (r matches Err(e) ==> e matches ManifestParseError::MissingField(k)
        && first_record_error(records_of(values)) == Some(k@))
    &&& (r matches Ok(files) ==> exists|es: Seq<ManifestEntry>| entries_read(es, records_of(values))
        && files.0@ == data_of_entries(es) && deletes_match(files.1@, delete_entries(es)))
}

/// Parses manifest list entries from the bytes of an Avro file: an Avro
/// error exactly when apache_avro cannot read the bytes; otherwise the
/// entries read from values of the shapes the bytes hold.
pub fn parse_manifest_list_bytes(bytes: &[u8]) -> (r: Result<Vec<ManifestListEntry>, ManifestParseError>)
    ensures
        avro_records(bytes@) is None <==> (r matches Err(e) && e is Avro),
        avro_records(bytes@) matches Some(shs) ==> exists|values: Seq<AvroDatum>|
            shapes_of(values) == shs && list_read(r, values),
{
    match read_avro_values(bytes) {
        Ok(values) => {
            let r = manifest_list_from_values(&values);
            proof {
                assert(shapes_of(values@) == avro_records(bytes@)->0 && list_read(r, values@));
            }
            r
        },
        Err(e) => Err(ManifestParseError::Avro(e)),
    }
}

/// Parses the data and delete files of a manifest from the bytes of an
/// Avro file: an Avro error exactly when apache_avro cannot read the bytes;
/// otherwise the files read from values of the shapes the bytes hold.
pub fn parse_manifest_bytes(bytes: &[u8]) -> (r: Result<(Vec<DataFile>, Vec<DeleteFile>), ManifestParseError>)
    ensures
        avro_records(bytes@) is None <==> (r matches Err(e) && e is Avro),
        avro_records(bytes@) matches Some(shs) ==> exists|values: Seq<AvroDatum>|
            shapes_of(values) == shs && files_read(r, values),
{
    match read_avro_values(bytes) {
        Ok(values) => {
            let r = manifest_files_from_values(&values);
            proof {
                assert(shapes_of(values@) == avro_records(bytes@)->0 && files_read(r, values@));
            }
            r
        },
        Err(e) => Err(ManifestParseError::Avro(e)),
    }
}

impl ManifestParseError {
    /// The error's message, as it is displayed.
    pub fn message(&self) -> (s: String)
        ensures
            self matches ManifestParseError::Io(m) ==> s@ == "I/O error reading manifest: "@ + m@,
            self matches ManifestParseError::MissingField(m) ==> s@ == "Missing required field: "@ + m@,
            self is Avro ==> exists|t: Seq<char>| s@ == "Avro parsing error: "@ + t,
    {
        match self {
            ManifestParseError::Io(m) => {
                let mut s = String::from_str("I/O error reading manifest: ");
                s.append(m.as_str());
                s
            },
            ManifestParseError::Avro(e) => {
                let mut s = String::from_str("Avro parsing error: ");
                let t = crate::parse::avro::avro_error_text(e);
                s.append(t.as_str());
                proof {
                    assert(s@ == "Avro parsing error: "@ + t@);
                }
                s
            },
            ManifestParseError::MissingField(m) => {
                let mut s = String::from_str("Missing required field: ");
                s.append(m.as_str());
                s
            },
        }
    }
}

} // verus!
