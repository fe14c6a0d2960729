//! Fix command generation.
//!
//! Given a finding ID and table metadata, generate the command that resolves
//! the issue. Each fix carries an estimated scope so callers (especially
//! agents) can reason about the cost of running it. Scope figures are
//! upper-bound estimates.

use vstd::prelude::*;
use crate::checks::delete_pressure::count_of_type;
use crate::checks::lit;
use crate::checks::orphan_files::{find_orphans, table_orphans};
use crate::clock::{chrono_ms_in_range, days_before_ok, days_before_ok_exec, format_utc_datetime, now_ms, utc_datetime_text};
use crate::metadata::{data_bytes, get_property, property, total_data_bytes, DataFile, DeleteType, TableMetadata};
use crate::partition::{group_data_files, group_files};
use crate::report::string_views;
use crate::text::{dec, fraction_text, parse_u64, parse_u64_spec, u64_text};
use crate::checks::snapshot_bloat::snapshot_instant;

verus! {

/// A generated fix command with context.
pub struct FixCommand {
    pub finding_id: String,
    pub table_name: String,
    /// The executable command (typically a Spark SQL CALL statement).
    pub command: String,
    /// What this command does, in plain English.
    pub description: String,
    /// Warnings or prerequisites.
    pub warnings: Vec<String>,
    /// Estimated scope of this fix — what it will rewrite or expire.
    pub scope: FixScope,
}

/// Scope of a fix operation, computed from the current table metadata.
pub struct FixScope {
    /// Approximate number of files the fix will read or rewrite.
    pub estimated_files: u64,
    /// Approximate bytes the fix will touch.
    pub estimated_bytes: u64,
    /// Number of distinct partitions involved.
    pub estimated_partitions: u64,
    /// Number of snapshots the fix will expire.
    pub estimated_snapshots_expired: u64,
    /// Why the scope is what it is.
    pub summary: String,
}

impl Default for FixScope {
    fn default() -> (s: Self)
        ensures
            s.estimated_files == 0,
            s.estimated_bytes == 0,
            s.estimated_partitions == 0,
            s.estimated_snapshots_expired == 0,
            s.summary@.len() == 0,
    {
        FixScope {
            estimated_files: 0,
            estimated_bytes: 0,
            estimated_partitions: 0,
            estimated_snapshots_expired: 0,
            summary: String::new(),
        }
    }
}

// ---------------------------------------------------------------------------
// File selections
// ---------------------------------------------------------------------------

/// Which data files a fix counts.
#[derive(Clone, Copy, Debug, PartialEq, Eq, Structural)]
pub enum FileSelection {
    /// Smaller than 8 MiB.
    Small,
    /// Written under a known spec other than the given default.
    OtherSpec(i32),
    /// Recording a sort order other than the given one.
    OtherSortOrder(i32),
    /// Carrying no value counts, null counts or column sizes.
    NoStats,
    /// Carrying neither value counts nor null counts.
    NoCounts,
}

pub open spec fn selected(f: DataFile, s: FileSelection) -> bool {
    match s {
        FileSelection::Small => f.file_size_bytes < 8 * 1024 * 1024,
        FileSelection::OtherSpec(id) => f.spec_id matches Some(x) && x != id,
        FileSelection::OtherSortOrder(id) => f.sort_order_id matches Some(x) && x != id,
        FileSelection::NoStats => f.value_counts@.len() == 0 && f.null_value_counts@.len() == 0
            && f.column_sizes@.len() == 0,
        FileSelection::NoCounts => f.value_counts@.len() == 0 && f.null_value_counts@.len() == 0,
    }
}

pub open spec fn selected_count(files: Seq<DataFile>, s: FileSelection) -> nat
    decreases files.len(),
{
    if files.len() == 0 {
        0
    } else {
        selected_count(files.drop_last(), s) + if selected(files.last(), s) { 1nat } else { 0nat }
    }
}

pub open spec fn selected_bytes(files: Seq<DataFile>, s: FileSelection) -> nat
    decreases files.len(),
{
    if files.len() == 0 {
        0
    } else {
        selected_bytes(files.drop_last(), s) + if selected(files.last(), s) { files.last().file_size_bytes as nat } else { 0nat }
    }
}

proof fn lemma_selected_bounds(files: Seq<DataFile>, s: FileSelection)
    ensures
        selected_count(files, s) <= files.len(),
        selected_bytes(files, s) <= data_bytes(files),
    decreases files.len(),
{
    if files.len() > 0 {
        lemma_selected_bounds(files.drop_last(), s);
    }
}

/// Number and total size of the selected files.
pub fn count_selected(files: &Vec<DataFile>, s: FileSelection) -> (r: (u64, u64))
    requires
        data_bytes(files@) <= u64::MAX,
    ensures
        r.0 == selected_count(files@, s),
        r.1 == selected_bytes(files@, s),
{
    let mut n: u64 = 0;
    let mut bytes: u64 = 0;
    let mut i: usize = 0;
    while i < files.len()
        invariant
            i <= files@.len(),
            data_bytes(files@) <= u64::MAX,
            n == selected_count(files@.take(i as int), s),
            bytes == selected_bytes(files@.take(i as int), s),
        decreases files@.len() - i,
    {
        proof {
            assert(files@.take(i + 1).drop_last() =~= files@.take(i as int));
            lemma_selected_bounds(files@.take(i + 1), s);
            crate::metadata::lemma_data_bytes_monotone(files@, i + 1, files@.len() as int);
            assert(files@.take(files@.len() as int) =~= files@);
        }
        let f = &files[i];
        let hit = match s {
            FileSelection::Small => f.file_size_bytes < 8 * 1024 * 1024,
            FileSelection::OtherSpec(id) => match f.spec_id {
                Some(x) => x != id,
                None => false,
            },
            FileSelection::OtherSortOrder(id) => match f.sort_order_id {
                Some(x) => x != id,
                None => false,
            },
            FileSelection::NoStats => f.value_counts.len() == 0 && f.null_value_counts.len() == 0
                && f.column_sizes.len() == 0,
            FileSelection::NoCounts => f.value_counts.len() == 0 && f.null_value_counts.len() == 0,
        };
        if hit {
            n = n + 1;
            bytes = bytes + f.file_size_bytes;
        }
        i = i + 1;
    }
    proof {
        assert(files@.take(files@.len() as int) =~= files@);
    }
    (n, bytes)
}

/// Number of distinct partition keys among the files (under `limit` bytes).
pub open spec fn distinct_partitions(files: Seq<DataFile>, limit: Option<u64>) -> nat {
    group_files(files, false, limit).len()
}

fn partition_count(files: &Vec<DataFile>, limit: Option<u64>) -> (n: u64)
    requires
        data_bytes(files@) <= u64::MAX,
        crate::metadata::data_records(files@) <= u64::MAX,
    ensures
        n == distinct_partitions(files@, limit),
{
    let groups = group_data_files(files, false, limit);
    proof {
        lemma_group_count_le(files@, limit);
    }
    groups.len() as u64
}

proof fn lemma_group_count_le(files: Seq<DataFile>, limit: Option<u64>)
    ensures
        group_files(files, false, limit).len() <= files.len(),
    decreases files.len(),
{
    if files.len() > 0 {
        lemma_group_count_le(files.drop_last(), limit);
        let prev = group_files(files.drop_last(), false, limit);
        crate::partition::lemma_key_index_bounds(prev, crate::partition::group_key(files.last(), false));
    }
}

/// Snapshots committed before `cutoff`.
pub open spec fn snapshots_before(snaps: Seq<crate::metadata::Snapshot>, cutoff: i64) -> nat
    decreases snaps.len(),
{
    if snaps.len() == 0 {
        0
    } else {
        snapshots_before(snaps.drop_last(), cutoff) + if snapshot_instant(snaps.last()) < cutoff { 1nat } else { 0nat }
    }
}

fn count_snapshots_before(snaps: &Vec<crate::metadata::Snapshot>, cutoff: i64) -> (n: u64)
    ensures
        n == snapshots_before(snaps@, cutoff),
{
    let mut n: u64 = 0;
    let mut i: usize = 0;
    while i < snaps.len()
        invariant
            i <= snaps@.len(),
            n == snapshots_before(snaps@.take(i as int), cutoff),
            n <= i,
        decreases snaps@.len() - i,
    {
        proof {
            assert(snaps@.take(i + 1).drop_last() =~= snaps@.take(i as int));
        }
        if snaps[i].timestamp() < cutoff {
            n = n + 1;
        }
        i = i + 1;
    }
    proof {
        assert(snaps@.take(snaps@.len() as int) =~= snaps@);
    }
    n
}

// ---------------------------------------------------------------------------
// What each fix is
// ---------------------------------------------------------------------------

/// The finding IDs that have a fix.
pub open spec fn has_fix(id: Seq<char>) -> bool {
    ||| id == "small_files"@ || id == "snapshot_bloat"@ || id == "orphan_files"@ || id == "delete_pressure"@
    ||| id == "metadata_size"@ || id == "partition_skew"@ || id == "format_v1"@ || id == "properties_drift"@
    ||| id == "partition_spec_evolution"@ || id == "sort_compliance"@ || id == "stats_coverage"@
}

/// The finding IDs that have a fix, in the order they are listed to users.
pub fn fixable_findings() -> (ids: Vec<&'static str>)
    ensures
        ids@.len() == 11,
        forall|i: int| 0 <= i < ids@.len() ==> has_fix((#[trigger] ids@[i])@),
        forall|id: Seq<char>| has_fix(id) ==> exists|i: int| 0 <= i < ids@.len() && (#[trigger] ids@[i])@ == id,
{
    let ids = vec![
        "small_files", "snapshot_bloat", "orphan_files", "delete_pressure", "metadata_size", "partition_skew",
        "format_v1", "properties_drift", "partition_spec_evolution", "sort_compliance", "stats_coverage",
    ];
    proof {
        reveal_strlit("small_files");
        reveal_strlit("snapshot_bloat");
        reveal_strlit("orphan_files");
        reveal_strlit("delete_pressure");
        reveal_strlit("metadata_size");
        reveal_strlit("partition_skew");
        reveal_strlit("format_v1");
        reveal_strlit("properties_drift");
        reveal_strlit("partition_spec_evolution");
        reveal_strlit("sort_compliance");
        reveal_strlit("stats_coverage");
        assert forall|id: Seq<char>| has_fix(id) implies exists|i: int| 0 <= i < ids@.len() && (#[trigger] ids@[i])@ == id by {
            if id == "small_files"@ { assert(ids@[0]@ == id); }
            else if id == "snapshot_bloat"@ { assert(ids@[1]@ == id); }
            else if id == "orphan_files"@ { assert(ids@[2]@ == id); }
            else if id == "delete_pressure"@ { assert(ids@[3]@ == id); }
            else if id == "metadata_size"@ { assert(ids@[4]@ == id); }
            else if id == "partition_skew"@ { assert(ids@[5]@ == id); }
            else if id == "format_v1"@ { assert(ids@[6]@ == id); }
            else if id == "properties_drift"@ { assert(ids@[7]@ == id); }
            else if id == "partition_spec_evolution"@ { assert(ids@[8]@ == id); }
            else if id == "sort_compliance"@ { assert(ids@[9]@ == id); }
            else { assert(ids@[10]@ == id); }
        }
    }
    ids
}

/// The fixes whose command carries a cutoff instant: this many days before now.
pub open spec fn cutoff_days(id: Seq<char>) -> Option<int> {
    if id == "snapshot_bloat"@ {
        Some(7)
    } else if id == "orphan_files"@ {
        Some(3)
    } else {
        None
    }
}

/// The fix for `id` can be produced at instant `now`.
pub open spec fn fix_defined(id: Seq<char>, now: i64) -> bool {
    cutoff_days(id) matches Some(d) ==> days_before_ok(now, d)
}

pub open spec fn rewrite_text(table: Seq<char>, rest: Seq<char>) -> Seq<char> {
    "CALL catalog.system.rewrite_data_files(table => '"@ + table + rest
}

pub open spec fn gib_text(bytes: nat) -> Seq<char> {
    fraction_text(bytes, 1073741824, 1)
}

/// The declared target file size, or 512 MiB.
pub open spec fn fix_target_size(m: TableMetadata) -> u64 {
    match property(m.properties@, "write.target-file-size-bytes"@) {
        Some(v) => match parse_u64_spec(v) {
            Some(n) => n,
            None => 536_870_912,
        },
        None => 536_870_912,
    }
}

/// The command, description, warnings and scope of the fix for `id` on
/// table `m` generated at instant `now`.
pub open spec fn is_fix(c: FixCommand, m: TableMetadata, id: Seq<char>, now: i64) -> bool {
    let files = m.data_files@;
    let t = m.table_name@;
    let w = string_views(c.warnings@);
    let s = c.scope;
    &&& c.finding_id@ == id
    &&& c.table_name@ == t
    &&& if id == "small_files"@ {
        let n = selected_count(files, FileSelection::Small);
        let b = selected_bytes(files, FileSelection::Small);
        let p = distinct_partitions(files, Some(8388608u64));
        &&& c.command@ == rewrite_text(t, "', strategy => 'binpack')"@)
        &&& c.description@ == "Compact small files using bin-pack strategy. Merges small files into larger ones (target ~256 MB) to reduce query planning overhead."@
        &&& w == seq!["This is a rewrite operation that will create new snapshots."@, "Ensure no concurrent writes to avoid conflicts."@]
        &&& s.estimated_files == n && s.estimated_bytes == b && s.estimated_partitions == p
        &&& s.estimated_snapshots_expired == 0
        &&& s.summary@ == "Rewrites ~"@ + dec(n) + " small files ("@ + fraction_text(b, 1048576, 1) + " MB) across "@
            + dec(p) + " partition(s)"@
    } else if id == "snapshot_bloat"@ {
        let cutoff = (now - 7 * 86_400_000) as i64;
        let e = snapshots_before(m.snapshots@, cutoff);
        &&& c.command@ == "CALL catalog.system.expire_snapshots(table => '"@ + t + "', older_than => TIMESTAMP '"@
            + utc_datetime_text(cutoff) + "')"@
        &&& c.description@ == "Expire snapshots older than 7 days. Removes snapshot metadata and allows unreferenced data files to be cleaned up."@
        &&& w == seq!["Time-travel queries to expired snapshots will no longer work."@, "Run remove_orphan_files afterward to reclaim storage."@]
        &&& s.estimated_files == 0 && s.estimated_bytes == 0 && s.estimated_partitions == 0
        &&& s.estimated_snapshots_expired == e
        &&& s.summary@ == "Expires ~"@ + dec(e) + " snapshot(s)"@
    } else if id == "orphan_files"@ {
        let cutoff = (now - 3 * 86_400_000) as i64;
        let n = table_orphans(m).len();
        &&& c.command@ == "CALL catalog.system.remove_orphan_files(table => '"@ + t + "', older_than => TIMESTAMP '"@
            + utc_datetime_text(cutoff) + "')"@
        &&& c.description@ == "Remove files in the table's data directory that are not referenced by any snapshot. Reclaims wasted S3 storage."@
        &&& w == seq!["Ensure no in-progress writes exist — files from incomplete commits may be incorrectly identified as orphans."@,
            "The 3-day `older_than` argument protects against deleting in-flight commit files."@]
        &&& s.estimated_files == n && s.estimated_bytes == 0 && s.estimated_partitions == 0
        &&& s.estimated_snapshots_expired == 0
        &&& s.summary@ == "Removes ~"@ + dec(n) + " orphan files"@
    } else if id == "delete_pressure"@ {
        let pos = count_of_type(m.delete_files@, DeleteType::PositionDelete);
        let eq = count_of_type(m.delete_files@, DeleteType::EqualityDelete);
        let p = distinct_partitions(files, None);
        &&& c.command@ == rewrite_text(t, "', strategy => 'binpack')"@)
        &&& c.description@ == "Rewrite data files to apply pending deletes ("@ + dec(pos) + " position, "@ + dec(eq)
            + " equality). Eliminates merge-on-read overhead."@
        &&& w == seq!["This is a rewrite operation that creates new data files and snapshots."@]
        &&& s.estimated_files == files.len() && s.estimated_bytes == data_bytes(files) && s.estimated_partitions == p
        &&& s.estimated_snapshots_expired == 0
        &&& s.summary@ == "Rewrites up to "@ + dec(files.len()) + " data files ("@ + gib_text(data_bytes(files))
            + " GB) to apply "@ + dec(pos + eq) + " delete file(s)"@
    } else if id == "metadata_size"@ {
        let ms = m.manifest_stats;
        &&& c.command@ == "CALL catalog.system.rewrite_manifests(table => '"@ + t + "')"@
        &&& c.description@ == "Rewrite manifest files to optimize metadata size. Combines small manifests and removes deleted entries."@
        &&& w == seq!["Also consider expiring old snapshots to further reduce metadata."@]
        &&& s.estimated_files == ms.manifest_count && s.estimated_bytes == ms.manifests_total_bytes
        &&& s.estimated_partitions == 0 && s.estimated_snapshots_expired == 0
        &&& s.summary@ == "Rewrites "@ + dec(ms.manifest_count as nat) + " manifest file(s) ("@
            + fraction_text(ms.manifests_total_bytes as nat, 1048576, 1) + " MB)"@
    } else if id == "partition_skew"@ {
        let p = distinct_partitions(files, None);
        &&& c.command@ == rewrite_text(t, "', strategy => 'sort')"@)
        &&& c.description@ == "Rewrite data files with sort strategy to rebalance partition sizes."@
        &&& w == seq!["Consider if repartitioning (changing partition spec) would be more appropriate for persistent skew patterns."@]
        &&& s.estimated_files == files.len() && s.estimated_bytes == data_bytes(files) && s.estimated_partitions == p
        &&& s.estimated_snapshots_expired == 0
        &&& s.summary@ == "Rewrites up to "@ + dec(files.len()) + " files ("@ + gib_text(data_bytes(files))
            + " GB) across "@ + dec(p) + " partitions"@
    } else if id == "format_v1"@ {
        &&& c.command@ == "ALTER TABLE "@ + t + " SET TBLPROPERTIES ('format-version' = '2')"@
        &&& c.description@ == "Upgrade Iceberg table from format-version 1 to 2. Non-destructive — existing data files are unchanged."@
        &&& w == seq!["Older readers (Spark <3.3, Trino <380) cannot read v2 tables. Verify all consumers support v2 before upgrading."@]
        &&& s.estimated_files == 0 && s.estimated_bytes == 0 && s.estimated_partitions == 0
        &&& s.estimated_snapshots_expired == 0
        &&& s.summary@ == "Metadata-only upgrade — no data file rewrite"@
    } else if id == "properties_drift"@ {
        let target = fix_target_size(m);
        &&& c.command@ == rewrite_text(t, "', strategy => 'binpack', options => map('target-file-size-bytes', '"@
            + dec(target as nat) + "'))"@)
        &&& c.description@ == "Rewrite files toward declared target "@ + dec(target as nat)
            + " bytes. Audit the writer's effective config — if the property was set after data was written, that's expected."@
        &&& w == seq!["If the property was set incorrectly, fix it via ALTER TABLE first."@]
        &&& s.estimated_files == files.len() && s.estimated_bytes == data_bytes(files)
        &&& s.estimated_partitions == distinct_partitions(files, None) && s.estimated_snapshots_expired == 0
        &&& s.summary@ == "Rewrites up to "@ + dec(files.len()) + " files toward target file size"@
    } else if id == "partition_spec_evolution"@ {
        let sel = FileSelection::OtherSpec(m.partition_spec.spec_id);
        let n = selected_count(files, sel);
        let b = selected_bytes(files, sel);
        &&& c.command@ == rewrite_text(t, "', options => map('rewrite-all', 'true'))"@)
        &&& c.description@ == "Rewrite files under retired partition specs onto the current spec, allowing planner-time spec resolution to drop them."@
        &&& w == seq!["Full table rewrite — can be expensive for large tables."@]
        &&& s.estimated_files == n && s.estimated_bytes == b && s.estimated_partitions == 0
        &&& s.estimated_snapshots_expired == 0
        &&& s.summary@ == "Rewrites "@ + dec(n) + " files ("@ + gib_text(b) + " GB) currently under retired specs"@
    } else if id == "sort_compliance"@ {
        let target = match m.sort_order { Some(so) => so.order_id, None => 0 };
        let sel = FileSelection::OtherSortOrder(target);
        let n = selected_count(files, sel);
        let b = selected_bytes(files, sel);
        &&& c.command@ == rewrite_text(t, "', strategy => 'sort')"@)
        &&& c.description@ == "Rewrite non-compliant files under the table's declared sort order. Restores file pruning by min/max bounds."@
        &&& w == seq!["Sort rewrites are more expensive than binpack — schedule off-peak."@]
        &&& s.estimated_files == n && s.estimated_bytes == b && s.estimated_partitions == distinct_partitions(files, None)
        &&& s.estimated_snapshots_expired == 0
        &&& s.summary@ == "Rewrites "@ + dec(n) + " non-compliant files ("@ + gib_text(b) + " GB)"@
    } else {
        let n = selected_count(files, FileSelection::NoStats);
        let b = selected_bytes(files, FileSelection::NoCounts);
        &&& c.command@ == rewrite_text(t, "', strategy => 'binpack', options => map('rewrite-all', 'true'))"@)
        &&& c.description@ == "Rewrite files with a recent writer to populate missing column statistics. Restores planner-time file pruning."@
        &&& w == seq!["Use a recent engine version (Spark 3.5+, Trino 4xx+, Flink 1.18+) — older writers do not emit stats consistently."@]
        &&& s.estimated_files == n && s.estimated_bytes == b && s.estimated_partitions == distinct_partitions(files, None)
        &&& s.estimated_snapshots_expired == 0
        &&& s.summary@ == "Rewrites "@ + dec(n) + " files ("@ + gib_text(b) + " GB) lacking column statistics"@
    }
}

fn warnings1(a: &str) -> (w: Vec<String>)
    ensures
        string_views(w@) == seq![a@],
{
    let w = vec![lit(a)];
    proof {
        assert(string_views(w@) =~= seq![a@]);
    }
    w
}

fn warnings2(a: &str, b: &str) -> (w: Vec<String>)
    ensures
        string_views(w@) == seq![a@, b@],
{
    let w = vec![lit(a), lit(b)];
    proof {
        assert(string_views(w@) =~= seq![a@, b@]);
    }
    w
}

fn rewrite_command(table: &String, rest: &str) -> (s: String)
    ensures
        s@ == rewrite_text(table@, rest@),
{
    let mut s = lit("CALL catalog.system.rewrite_data_files(table => '");
    s.append(table.as_str());
    s.append(rest);
    proof {
        assert(s@ =~= rewrite_text(table@, rest@));
    }
    s
}

fn str_is(a: &str, b: &str) -> (r: bool)
    ensures
        r == (a@ == b@),
{
    String::from_str(a) == String::from_str(b)
}

/// Generates the fix for finding `finding_id` on `table`, with cutoffs
/// counted back from `now_ms`. `None` for a finding without a fix.
pub fn generate_fix_at(table: &TableMetadata, finding_id: &str, now_ms: i64) -> (r: Option<FixCommand>)
    requires
        table.totals_fit(),
        fix_defined(finding_id@, now_ms),
    ensures
        r is Some <==> has_fix(finding_id@),
        r matches Some(c) ==> is_fix(c, *table, finding_id@, now_ms),
{
    let t = &table.table_name;
    let files = &table.data_files;
    proof {
        reveal_strlit("small_files");
        reveal_strlit("snapshot_bloat");
        reveal_strlit("orphan_files");
        reveal_strlit("delete_pressure");
        reveal_strlit("metadata_size");
        reveal_strlit("partition_skew");
        reveal_strlit("format_v1");
        reveal_strlit("properties_drift");
        reveal_strlit("partition_spec_evolution");
        reveal_strlit("sort_compliance");
        reveal_strlit("stats_coverage");
    }
    if str_is(finding_id, "small_files") {
        let (n, b) = count_selected(files, FileSelection::Small);
        let p = partition_count(files, Some(8 * 1024 * 1024));
        let mut summary = lit("Rewrites ~");
        summary.append(u64_text(n).as_str());
        summary.append(" small files (");
        summary.append(crate::checks::ratio_text(b as u128, 1048576, 1).as_str());
        summary.append(" MB) across ");
        summary.append(u64_text(p).as_str());
        summary.append(" partition(s)");
        return Some(FixCommand {
            finding_id: lit("small_files"),
            table_name: t.clone(),
            command: rewrite_command(t, "', strategy => 'binpack')"),
            description: lit("Compact small files using bin-pack strategy. Merges small files into larger ones (target ~256 MB) to reduce query planning overhead."),
            warnings: warnings2("This is a rewrite operation that will create new snapshots.", "Ensure no concurrent writes to avoid conflicts."),
            scope: FixScope { estimated_files: n, estimated_bytes: b, estimated_partitions: p, estimated_snapshots_expired: 0, summary },
        });
    }
    if str_is(finding_id, "snapshot_bloat") {
        let cutoff = now_ms - 7 * crate::clock::MS_PER_DAY;
        let e = count_snapshots_before(&table.snapshots, cutoff);
        let mut command = lit("CALL catalog.system.expire_snapshots(table => '");
        command.append(t.as_str());
        command.append("', older_than => TIMESTAMP '");
        command.append(format_utc_datetime(cutoff).as_str());
        command.append("')");
        let mut summary = lit("Expires ~");
        summary.append(u64_text(e).as_str());
        summary.append(" snapshot(s)");
        return Some(FixCommand {
            finding_id: lit("snapshot_bloat"),
            table_name: t.clone(),
            command,
            description: lit("Expire snapshots older than 7 days. Removes snapshot metadata and allows unreferenced data files to be cleaned up."),
            warnings: warnings2("Time-travel queries to expired snapshots will no longer work.", "Run remove_orphan_files afterward to reclaim storage."),
            scope: FixScope { estimated_files: 0, estimated_bytes: 0, estimated_partitions: 0, estimated_snapshots_expired: e, summary },
        });
    }
    if str_is(finding_id, "orphan_files") {
        let cutoff = now_ms - 3 * crate::clock::MS_PER_DAY;
        let n = find_orphans(table).len() as u64;
        let mut command = lit("CALL catalog.system.remove_orphan_files(table => '");
        command.append(t.as_str());
        command.append("', older_than => TIMESTAMP '");
        command.append(format_utc_datetime(cutoff).as_str());
        command.append("')");
        let mut summary = lit("Removes ~");
        summary.append(u64_text(n).as_str());
        summary.append(" orphan files");
        return Some(FixCommand {
            finding_id: lit("orphan_files"),
            table_name: t.clone(),
            command,
            description: lit("Remove files in the table's data directory that are not referenced by any snapshot. Reclaims wasted S3 storage."),
            warnings: warnings2("Ensure no in-progress writes exist — files from incomplete commits may be incorrectly identified as orphans.", "The 3-day `older_than` argument protects against deleting in-flight commit files."),
            scope: FixScope { estimated_files: n, estimated_bytes: 0, estimated_partitions: 0, estimated_snapshots_expired: 0, summary },
        });
    }
    if str_is(finding_id, "delete_pressure") {
        let counts = delete_type_counts(&table.delete_files);
        let pos = counts.0;
        let eq = counts.1;
        let total_bytes = total_data_bytes(files);
        let p = partition_count(files, None);
        let mut description = lit("Rewrite data files to apply pending deletes (");
        description.append(u64_text(pos).as_str());
        description.append(" position, ");
        description.append(u64_text(eq).as_str());
        description.append(" equality). Eliminates merge-on-read overhead.");
        let mut summary = lit("Rewrites up to ");
        summary.append(u64_text(files.len() as u64).as_str());
        summary.append(" data files (");
        summary.append(crate::checks::ratio_text(total_bytes as u128, 1073741824, 1).as_str());
        summary.append(" GB) to apply ");
        summary.append(crate::text::u128_text((pos as u128) + (eq as u128)).as_str());
        summary.append(" delete file(s)");
        return Some(FixCommand {
            finding_id: lit("delete_pressure"),
            table_name: t.clone(),
            command: rewrite_command(t, "', strategy => 'binpack')"),
            description,
            warnings: warnings1("This is a rewrite operation that creates new data files and snapshots."),
            scope: FixScope {
                estimated_files: files.len() as u64,
                estimated_bytes: total_bytes,
                estimated_partitions: p,
                estimated_snapshots_expired: 0,
                summary,
            },
        });
    }
    if str_is(finding_id, "metadata_size") {
        let ms = table.manifest_stats;
        let mut command = lit("CALL catalog.system.rewrite_manifests(table => '");
        command.append(t.as_str());
        command.append("')");
        let mut summary = lit("Rewrites ");
        summary.append(u64_text(ms.manifest_count).as_str());
        summary.append(" manifest file(s) (");
        summary.append(crate::checks::ratio_text(ms.manifests_total_bytes as u128, 1048576, 1).as_str());
        summary.append(" MB)");
        return Some(FixCommand {
            finding_id: lit("metadata_size"),
            table_name: t.clone(),
            command,
            description: lit("Rewrite manifest files to optimize metadata size. Combines small manifests and removes deleted entries."),
            warnings: warnings1("Also consider expiring old snapshots to further reduce metadata."),
            scope: FixScope {
                estimated_files: ms.manifest_count,
                estimated_bytes: ms.manifests_total_bytes,
                estimated_partitions: 0,
                estimated_snapshots_expired: 0,
                summary,
            },
        });
    }
    if str_is(finding_id, "partition_skew") {
        let total_bytes = total_data_bytes(files);
        let p = partition_count(files, None);
        let mut summary = lit("Rewrites up to ");
        summary.append(u64_text(files.len() as u64).as_str());
        summary.append(" files (");
        summary.append(crate::checks::ratio_text(total_bytes as u128, 1073741824, 1).as_str());
        summary.append(" GB) across ");
        summary.append(u64_text(p).as_str());
        summary.append(" partitions");
        return Some(FixCommand {
            finding_id: lit("partition_skew"),
            table_name: t.clone(),
            command: rewrite_command(t, "', strategy => 'sort')"),
            description: lit("Rewrite data files with sort strategy to rebalance partition sizes."),
            warnings: warnings1("Consider if repartitioning (changing partition spec) would be more appropriate for persistent skew patterns."),
            scope: FixScope {
                estimated_files: files.len() as u64,
                estimated_bytes: total_bytes,
                estimated_partitions: p,
                estimated_snapshots_expired: 0,
                summary,
            },
        });
    }
    if str_is(finding_id, "format_v1") {
        let mut command = lit("ALTER TABLE ");
        command.append(t.as_str());
        command.append(" SET TBLPROPERTIES ('format-version' = '2')");
        return Some(FixCommand {
            finding_id: lit("format_v1"),
            table_name: t.clone(),
            command,
            description: lit("Upgrade Iceberg table from format-version 1 to 2. Non-destructive — existing data files are unchanged."),
            warnings: warnings1("Older readers (Spark <3.3, Trino <380) cannot read v2 tables. Verify all consumers support v2 before upgrading."),
            scope: FixScope {
                estimated_files: 0,
                estimated_bytes: 0,
                estimated_partitions: 0,
                estimated_snapshots_expired: 0,
                summary: lit("Metadata-only upgrade — no data file rewrite"),
            },
        });
    }
    if str_is(finding_id, "properties_drift") {
        let target: u64 = match get_property(&table.properties, "write.target-file-size-bytes") {
            Some(v) => match parse_u64(v.as_str()) {
                Some(n) => n,
                None => 536_870_912,
            },
            None => 536_870_912,
        };
        proof {
            reveal_strlit("write.target-file-size-bytes");
        }
        let mut rest = lit("', strategy => 'binpack', options => map('target-file-size-bytes', '");
        rest.append(u64_text(target).as_str());
        rest.append("'))");
        let mut command = lit("CALL catalog.system.rewrite_data_files(table => '");
        command.append(t.as_str());
        command.append(rest.as_str());
        let mut description = lit("Rewrite files toward declared target ");
        description.append(u64_text(target).as_str());
        description.append(" bytes. Audit the writer's effective config — if the property was set after data was written, that's expected.");
        let mut summary = lit("Rewrites up to ");
        summary.append(u64_text(files.len() as u64).as_str());
        summary.append(" files toward target file size");
        proof {
            assert(command@ =~= rewrite_text(t@, "', strategy => 'binpack', options => map('target-file-size-bytes', '"@
                + dec(target as nat) + "'))"@));
        }
        return Some(FixCommand {
            finding_id: lit("properties_drift"),
            table_name: t.clone(),
            command,
            description,
            warnings: warnings1("If the property was set incorrectly, fix it via ALTER TABLE first."),
            scope: FixScope {
                estimated_files: files.len() as u64,
                estimated_bytes: total_data_bytes(files),
                estimated_partitions: partition_count(files, None),
                estimated_snapshots_expired: 0,
                summary,
            },
        });
    }
    if str_is(finding_id, "partition_spec_evolution") {
        let (n, b) = count_selected(files, FileSelection::OtherSpec(table.partition_spec.spec_id));
        let mut summary = lit("Rewrites ");
        summary.append(u64_text(n).as_str());
        summary.append(" files (");
        summary.append(crate::checks::ratio_text(b as u128, 1073741824, 1).as_str());
        summary.append(" GB) currently under retired specs");
        return Some(FixCommand {
            finding_id: lit("partition_spec_evolution"),
            table_name: t.clone(),
            command: rewrite_command(t, "', options => map('rewrite-all', 'true'))"),
            description: lit("Rewrite files under retired partition specs onto the current spec, allowing planner-time spec resolution to drop them."),
            warnings: warnings1("Full table rewrite — can be expensive for large tables."),
            scope: FixScope { estimated_files: n, estimated_bytes: b, estimated_partitions: 0, estimated_snapshots_expired: 0, summary },
        });
    }
    if str_is(finding_id, "sort_compliance") {
        let target: i32 = match &table.sort_order {
            Some(so) => so.order_id,
            None => 0,
        };
        let (n, b) = count_selected(files, FileSelection::OtherSortOrder(target));
        let mut summary = lit("Rewrites ");
        summary.append(u64_text(n).as_str());
        summary.append(" non-compliant files (");
        summary.append(crate::checks::ratio_text(b as u128, 1073741824, 1).as_str());
        summary.append(" GB)");
        return Some(FixCommand {
            finding_id: lit("sort_compliance"),
            table_name: t.clone(),
            command: rewrite_command(t, "', strategy => 'sort')"),
            description: lit("Rewrite non-compliant files under the table's declared sort order. Restores file pruning by min/max bounds."),
            warnings: warnings1("Sort rewrites are more expensive than binpack — schedule off-peak."),
            scope: FixScope {
                estimated_files: n,
                estimated_bytes: b,
                estimated_partitions: partition_count(files, None),
                estimated_snapshots_expired: 0,
                summary,
            },
        });
    }
    if str_is(finding_id, "stats_coverage") {
        let (n, _) = count_selected(files, FileSelection::NoStats);
        let (_, b) = count_selected(files, FileSelection::NoCounts);
        let mut summary = lit("Rewrites ");
        summary.append(u64_text(n).as_str());
        summary.append(" files (");
        summary.append(crate::checks::ratio_text(b as u128, 1073741824, 1).as_str());
        summary.append(" GB) lacking column statistics");
        return Some(FixCommand {
            finding_id: lit("stats_coverage"),
            table_name: t.clone(),
            command: rewrite_command(t, "', strategy => 'binpack', options => map('rewrite-all', 'true'))"),
            description: lit("Rewrite files with a recent writer to populate missing column statistics. Restores planner-time file pruning."),
            warnings: warnings1("Use a recent engine version (Spark 3.5+, Trino 4xx+, Flink 1.18+) — older writers do not emit stats consistently."),
            scope: FixScope {
                estimated_files: n,
                estimated_bytes: b,
                estimated_partitions: partition_count(files, None),
                estimated_snapshots_expired: 0,
                summary,
            },
        });
    }
    None
}

fn delete_type_counts(files: &Vec<crate::metadata::DeleteFile>) -> (r: (u64, u64))
    ensures
        r.0 == count_of_type(files@, DeleteType::PositionDelete),
        r.1 == count_of_type(files@, DeleteType::EqualityDelete),
{
    let mut pos: u64 = 0;
    let mut eq: u64 = 0;
    let mut i: usize = 0;
    while i < files.len()
        invariant
            i <= files@.len(),
            pos == count_of_type(files@.take(i as int), DeleteType::PositionDelete),
            eq == count_of_type(files@.take(i as int), DeleteType::EqualityDelete),
            pos + eq <= i,
        decreases files@.len() - i,
    {
        proof {
            assert(files@.take(i + 1).drop_last() =~= files@.take(i as int));
        }
        match files[i].delete_type {
            DeleteType::PositionDelete => pos = pos + 1,
            DeleteType::EqualityDelete => eq = eq + 1,
        }
        i = i + 1;
    }
    proof {
        assert(files@.take(files@.len() as int) =~= files@);
    }
    (pos, eq)
}

/// Generates the fix for finding `finding_id` on `table` at the current
/// instant: exactly when the finding has a fix. (A cutoff the clock library
/// could not represent would also give `None`, but no instant from the
/// epoch on leads to one.)
pub fn generate_fix(table: &TableMetadata, finding_id: &str) -> (r: Option<FixCommand>)
    requires
        table.totals_fit(),
    ensures
        r is Some <==> has_fix(finding_id@),
        r matches Some(c) ==> exists|t: i64| 0 <= t && chrono_ms_in_range(t as int) && is_fix(c, *table, finding_id@, t),
{
    let now = now_ms();
    let days: u64 = if str_is(finding_id, "snapshot_bloat") {
        7
    } else if str_is(finding_id, "orphan_files") {
        3
    } else {
        0
    };
    proof {
        reveal_strlit("snapshot_bloat");
        reveal_strlit("orphan_files");
    }
    if days > 0 && !days_before_ok_exec(now, days) {
        return None;
    }
    let r = generate_fix_at(table, finding_id, now);
    proof {
        if r is Some {
            assert(is_fix(r->0, *table, finding_id@, now));
        }
    }
    r
}

} // verus!

verus! {

/// The snapshot was committed strictly before `cutoff` (an out-of-range
/// commit time counts as the epoch).
pub open spec fn committed_before(cutoff: int) -> spec_fn(crate::metadata::Snapshot) -> bool {
    |s: crate::metadata::Snapshot| (crate::clock::effective_ms(s.timestamp_ms) as int) < cutoff
}

proof fn lemma_snapshots_before_counts(snaps: Seq<crate::metadata::Snapshot>, cutoff: i64)
    ensures
        snapshots_before(snaps, cutoff) == snaps.filter(committed_before(cutoff as int)).len(),
        (forall|i: int| 0 <= i < snaps.len() ==> !committed_before(cutoff as int)(#[trigger] snaps[i]))
            ==> snapshots_before(snaps, cutoff) == 0,
        (forall|i: int| 0 <= i < snaps.len() ==> committed_before(cutoff as int)(#[trigger] snaps[i]))
            ==> snapshots_before(snaps, cutoff) == snaps.len(),
    decreases snaps.len(),
{
    reveal(Seq::filter);
    if snaps.len() > 0 {
        let d = snaps.drop_last();
        lemma_snapshots_before_counts(d, cutoff);
        let p = committed_before(cutoff as int);
        assert(p(snaps.last()) == (snapshot_instant(snaps.last()) < cutoff));
        if forall|i: int| 0 <= i < snaps.len() ==> !committed_before(cutoff as int)(#[trigger] snaps[i]) {
            assert forall|i: int| 0 <= i < d.len() implies !committed_before(cutoff as int)(#[trigger] d[i]) by {
                assert(d[i] == snaps[i]);
            }
            assert(!p(snaps[snaps.len() - 1]));
        }
        if forall|i: int| 0 <= i < snaps.len() ==> committed_before(cutoff as int)(#[trigger] snaps[i]) {
            assert forall|i: int| 0 <= i < d.len() implies committed_before(cutoff as int)(#[trigger] d[i]) by {
                assert(d[i] == snaps[i]);
            }
            assert(p(snaps[snaps.len() - 1]));
        }
    }
}

/// The snapshot-bloat fix expires the snapshots older than its seven-day
/// cutoff: its estimate counts exactly the snapshots committed strictly
/// before `now` minus seven days, so it is zero when all are newer and the
/// whole list when all are older.
pub proof fn law_snapshot_fix_counts_expired(c: FixCommand, m: TableMetadata, now: i64)
    requires
        is_fix(c, m, "snapshot_bloat"@, now),
        chrono_ms_in_range(now - 604_800_000),
    ensures
        c.scope.estimated_snapshots_expired == m.snapshots@.filter(committed_before(now - 604_800_000)).len(),
        (forall|i: int| 0 <= i < m.snapshots@.len()
            ==> !committed_before(now - 604_800_000)(#[trigger] m.snapshots@[i]))
            ==> c.scope.estimated_snapshots_expired == 0,
        (forall|i: int| 0 <= i < m.snapshots@.len()
            ==> committed_before(now - 604_800_000)(#[trigger] m.snapshots@[i]))
            ==> c.scope.estimated_snapshots_expired == m.snapshots@.len(),
{
    reveal_strlit("snapshot_bloat");
    reveal_strlit("small_files");
    let cutoff = (now - 7 * 86_400_000) as i64;
    assert(cutoff as int == now - 604_800_000);
    assert("snapshot_bloat"@ != "small_files"@) by {
        assert("snapshot_bloat"@.len() != "small_files"@.len());
    }
    assert(c.scope.estimated_snapshots_expired == snapshots_before(m.snapshots@, cutoff));
    lemma_snapshots_before_counts(m.snapshots@, cutoff);
    assert(committed_before(cutoff as int) == committed_before(now - 604_800_000));
}


/// Files smaller than 8 MiB.
pub open spec fn under_8_mib() -> spec_fn(DataFile) -> bool {
    |f: DataFile| f.file_size_bytes < 8_388_608
}

/// Files written under a known partition spec other than `id`.
pub open spec fn under_other_spec(id: i32) -> spec_fn(DataFile) -> bool {
    |f: DataFile| f.spec_id is Some && f.spec_id->0 != id
}

/// Files recording a sort order other than `id`.
pub open spec fn under_other_sort_order(id: i32) -> spec_fn(DataFile) -> bool {
    |f: DataFile| f.sort_order_id is Some && f.sort_order_id->0 != id
}

proof fn lemma_selection_is_filter(files: Seq<DataFile>, s: FileSelection, p: spec_fn(DataFile) -> bool)
    requires
        forall|f: DataFile| #[trigger] p(f) == selected(f, s),
    ensures
        selected_count(files, s) == files.filter(p).len(),
        selected_bytes(files, s) == data_bytes(files.filter(p)),
    decreases files.len(),
{
    reveal(Seq::filter);
    if files.len() > 0 {
        lemma_selection_is_filter(files.drop_last(), s, p);
        let q = files.drop_last().filter(p);
        assert(p(files.last()) == selected(files.last(), s));
        if p(files.last()) {
            assert(q.push(files.last()).drop_last() =~= q);
        }
    }
}

/// The rewrite fixes aim at the right files: the small-files fix counts and
/// sums the files under 8 MiB; the spec-evolution fix those written under a
/// known spec other than the default; the sort-compliance fix those
/// recording a sort order other than the declared one (order 0 when none is
/// declared).
pub proof fn law_rewrite_fixes_select_files(c: FixCommand, m: TableMetadata, id: Seq<char>, now: i64)
    requires
        is_fix(c, m, id, now),
    ensures
        id == "small_files"@ ==> {
            &&& c.scope.estimated_files == m.data_files@.filter(under_8_mib()).len()
            &&& c.scope.estimated_bytes == data_bytes(m.data_files@.filter(under_8_mib()))
        },
        id == "partition_spec_evolution"@ ==> {
            &&& c.scope.estimated_files == m.data_files@.filter(under_other_spec(m.partition_spec.spec_id)).len()
            &&& c.scope.estimated_bytes == data_bytes(m.data_files@.filter(under_other_spec(m.partition_spec.spec_id)))
        },
        id == "sort_compliance"@ ==> {
            let target = match m.sort_order { Some(so) => so.order_id, None => 0 };
            &&& c.scope.estimated_files == m.data_files@.filter(under_other_sort_order(target)).len()
            &&& c.scope.estimated_bytes == data_bytes(m.data_files@.filter(under_other_sort_order(target)))
        },
{
    reveal_strlit("small_files");
    reveal_strlit("snapshot_bloat");
    reveal_strlit("orphan_files");
    reveal_strlit("delete_pressure");
    reveal_strlit("metadata_size");
    reveal_strlit("partition_skew");
    reveal_strlit("format_v1");
    reveal_strlit("properties_drift");
    reveal_strlit("partition_spec_evolution");
    reveal_strlit("sort_compliance");
    let files = m.data_files@;
    lemma_selection_is_filter(files, FileSelection::Small, under_8_mib());
    lemma_selection_is_filter(files, FileSelection::OtherSpec(m.partition_spec.spec_id),
        under_other_spec(m.partition_spec.spec_id));
    let target = match m.sort_order { Some(so) => so.order_id, None => 0 };
    lemma_selection_is_filter(files, FileSelection::OtherSortOrder(target), under_other_sort_order(target));
    if id == "partition_spec_evolution"@ {
        assert(id != "small_files"@) by {
            assert(id.len() != "small_files"@.len() || id[0] != "small_files"@[0] || id[1] != "small_files"@[1]);
        }
        assert(id != "snapshot_bloat"@) by {
            assert(id.len() != "snapshot_bloat"@.len() || id[0] != "snapshot_bloat"@[0] || id[1] != "snapshot_bloat"@[1]);
        }
        assert(id != "orphan_files"@) by {
            assert(id.len() != "orphan_files"@.len() || id[0] != "orphan_files"@[0] || id[1] != "orphan_files"@[1]);
        }
        assert(id != "delete_pressure"@) by {
            assert(id.len() != "delete_pressure"@.len() || id[0] != "delete_pressure"@[0] || id[1] != "delete_pressure"@[1]);
        }
        assert(id != "metadata_size"@) by {
            assert(id.len() != "metadata_size"@.len() || id[0] != "metadata_size"@[0] || id[1] != "metadata_size"@[1]);
        }
        assert(id != "partition_skew"@) by {
            assert(id.len() != "partition_skew"@.len() || id[0] != "partition_skew"@[0] || id[1] != "partition_skew"@[1]);
        }
        assert(id != "format_v1"@) by {
            assert(id.len() != "format_v1"@.len() || id[0] != "format_v1"@[0] || id[1] != "format_v1"@[1]);
        }
        assert(id != "properties_drift"@) by {
            assert(id.len() != "properties_drift"@.len() || id[0] != "properties_drift"@[0] || id[1] != "properties_drift"@[1]);
        }
    }
    if id == "sort_compliance"@ {
        assert(id != "small_files"@) by {
            assert(id.len() != "small_files"@.len() || id[0] != "small_files"@[0] || id[1] != "small_files"@[1]);
        }
        assert(id != "snapshot_bloat"@) by {
            assert(id.len() != "snapshot_bloat"@.len() || id[0] != "snapshot_bloat"@[0] || id[1] != "snapshot_bloat"@[1]);
        }
        assert(id != "orphan_files"@) by {
            assert(id.len() != "orphan_files"@.len() || id[0] != "orphan_files"@[0] || id[1] != "orphan_files"@[1]);
        }
        assert(id != "delete_pressure"@) by {
            assert(id.len() != "delete_pressure"@.len() || id[0] != "delete_pressure"@[0] || id[1] != "delete_pressure"@[1]);
        }
        assert(id != "metadata_size"@) by {
            assert(id.len() != "metadata_size"@.len() || id[0] != "metadata_size"@[0] || id[1] != "metadata_size"@[1]);
        }
        assert(id != "partition_skew"@) by {
            assert(id.len() != "partition_skew"@.len() || id[0] != "partition_skew"@[0] || id[1] != "partition_skew"@[1]);
        }
        assert(id != "format_v1"@) by {
            assert(id.len() != "format_v1"@.len() || id[0] != "format_v1"@[0] || id[1] != "format_v1"@[1]);
        }
        assert(id != "properties_drift"@) by {
            assert(id.len() != "properties_drift"@.len() || id[0] != "properties_drift"@[0] || id[1] != "properties_drift"@[1]);
        }
        assert(id != "partition_spec_evolution"@) by {
            assert(id.len() != "partition_spec_evolution"@.len() || id[0] != "partition_spec_evolution"@[0] || id[1] != "partition_spec_evolution"@[1]);
        }
    }
}

} // verus!
