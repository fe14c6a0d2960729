//! Detects unreferenced files in the table's data directory.
//!
//! A pure-metadata read has no file modification times, so the usual
//! "ignore young files" filter is impossible; the fix therefore always
//! carries an `older_than` argument.

use vstd::prelude::*;
use crate::checks::{entry, lit, pass_finding};
use crate::clock::{days_before_ok, format_utc_datetime, utc_datetime_text};
use crate::config::Thresholds;
use crate::metadata::{DataFile, DeleteFile, TableMetadata};
use crate::partition::{seq_lt, str_lt};
use crate::report::{has_entry, has_text_list, keys_are, string_views, text_list, Detail, Finding, Severity};
use crate::text::{dec, u64_text};

verus! {

pub struct OrphanFilesCheck;

/// `p` is the path of some data file or delete file.
pub open spec fn is_referenced(data: Seq<DataFile>, deletes: Seq<DeleteFile>, p: Seq<char>) -> bool {
    (exists|i: int| 0 <= i < data.len() && data[i].file_path@ == p)
        || (exists|i: int| 0 <= i < deletes.len() && deletes[i].file_path@ == p)
}

/// The storage paths no data or delete file references, in order.
pub open spec fn orphan_paths(data: Seq<DataFile>, deletes: Seq<DeleteFile>, paths: Seq<String>) -> Seq<String>
    decreases paths.len(),
{
    if paths.len() == 0 {
        Seq::empty()
    } else if is_referenced(data, deletes, paths.last()@) {
        orphan_paths(data, deletes, paths.drop_last())
    } else {
        orphan_paths(data, deletes, paths.drop_last()).push(paths.last())
    }
}

/// The orphans of a table.
pub open spec fn table_orphans(m: TableMetadata) -> Seq<String> {
    orphan_paths(m.data_files@, m.delete_files@, m.all_storage_paths@)
}

/// Whether some data or delete file has path `p`.
pub fn referenced(data: &Vec<DataFile>, deletes: &Vec<DeleteFile>, p: &String) -> (r: bool)
    ensures
        r == is_referenced(data@, deletes@, p@),
{
    let mut i: usize = 0;
    while i < data.len()
        invariant
            i <= data@.len(),
            forall|j: int| 0 <= j < i ==> data@[j].file_path@ != p@,
        decreases data@.len() - i,
    {
        if data[i].file_path == *p {
            return true;
        }
        i = i + 1;
    }
    let mut k: usize = 0;
    while k < deletes.len()
        invariant
            k <= deletes@.len(),
            forall|j: int| 0 <= j < data@.len() ==> data@[j].file_path@ != p@,
            forall|j: int| 0 <= j < k ==> deletes@[j].file_path@ != p@,
        decreases deletes@.len() - k,
    {
        if deletes[k].file_path == *p {
            return true;
        }
        k = k + 1;
    }
    false
}

/// The storage paths of the table that no data or delete file references.
pub fn find_orphans(metadata: &TableMetadata) -> (r: Vec<String>)
    ensures
        r@ == table_orphans(*metadata),
{
    let paths = &metadata.all_storage_paths;
    let mut out: Vec<String> = Vec::new();
    let mut i: usize = 0;
    while i < paths.len()
        invariant
            i <= paths@.len(),
            out@ == orphan_paths(metadata.data_files@, metadata.delete_files@, paths@.take(i as int)),
        decreases paths@.len() - i,
    {
        proof {
            assert(paths@.take(i + 1).drop_last() =~= paths@.take(i as int));
        }
        if !referenced(&metadata.data_files, &metadata.delete_files, &paths[i]) {
            out.push(paths[i].clone());
        }
        i = i + 1;
    }
    proof {
        assert(paths@.take(paths@.len() as int) =~= paths@);
    }
    out
}

/// `x` inserted into `s` after every path that does not sort after it.
pub open spec fn insert_path(s: Seq<String>, x: String) -> Seq<String>
    decreases s.len(),
{
    if s.len() == 0 {
        seq![x]
    } else if !seq_lt(x@, s.last()@) {
        s.push(x)
    } else {
        insert_path(s.drop_last(), x).push(s.last())
    }
}

/// The paths of `s` in ascending order.
pub open spec fn sort_paths(s: Seq<String>) -> Seq<String>
    decreases s.len(),
{
    if s.len() == 0 {
        s
    } else {
        insert_path(sort_paths(s.drop_last()), s.last())
    }
}

/// The first ten orphans in ascending order (all of them when there are fewer).
pub open spec fn orphan_sample(m: TableMetadata) -> Seq<String> {
    let s = sort_paths(table_orphans(m));
    if s.len() <= 10 { s } else { s.take(10) }
}

fn insert_path_exec(out: &mut Vec<String>, x: String)
    ensures
        final(out)@ == insert_path(old(out)@, x),
    decreases old(out)@.len(),
{
    if out.len() == 0 {
        out.push(x);
    } else {
        let n = out.len();
        let before = str_lt(&x, &out[n - 1]);
        if !before {
            out.push(x);
        } else {
            let last = out.pop().unwrap();
            proof {
                assert(out@ =~= old(out)@.drop_last());
            }
            insert_path_exec(out, x);
            out.push(last);
        }
    }
}

/// The paths of `v` in ascending order.
pub fn sorted_paths(v: &Vec<String>) -> (r: Vec<String>)
    ensures
        r@ == sort_paths(v@),
{
    let mut out: Vec<String> = Vec::new();
    let mut i: usize = 0;
    while i < v.len()
        invariant
            i <= v@.len(),
            out@ == sort_paths(v@.take(i as int)),
        decreases v@.len() - i,
    {
        let x = v[i].clone();
        proof {
            assert(v@.take(i + 1).drop_last() =~= v@.take(i as int));
        }
        insert_path_exec(&mut out, x);
        i = i + 1;
    }
    proof {
        assert(v@.take(v@.len() as int) =~= v@);
    }
    out
}

pub open spec fn orphan_impact() -> Seq<char> {
    "Orphan files consume S3 storage you're paying for but serve no purpose. They typically result from failed writes or incomplete compaction. Files from in-flight commits can falsely look orphaned — always pass an `older_than` argument to the fix."@
}

pub open spec fn orphan_suggestion() -> Seq<char> {
    "Run remove_orphan_files with `older_than` set to at least 3 days to avoid deleting files from incomplete commits."@
}

/// `CALL catalog.system.remove_orphan_files(table => '<t>', older_than => TIMESTAMP '<cutoff>')`.
pub open spec fn remove_orphans_text(table: Seq<char>, cutoff_ms: i64) -> Seq<char> {
    "CALL catalog.system.remove_orphan_files(table => '"@ + table + "', older_than => TIMESTAMP '"@
        + utc_datetime_text(cutoff_ms) + "')"@
}

pub fn remove_orphans_command(table: &String, cutoff_ms: i64) -> (s: String)
    requires
        crate::clock::chrono_ms_in_range(cutoff_ms as int),
    ensures
        s@ == remove_orphans_text(table@, cutoff_ms),
{
    let mut s = lit("CALL catalog.system.remove_orphan_files(table => '");
    s.append(table.as_str());
    s.append("', older_than => TIMESTAMP '");
    s.append(format_utc_datetime(cutoff_ms).as_str());
    s.append("')");
    s
}

/// Three days before `now`.
pub open spec fn three_days_before(now: i64) -> i64 {
    (now - 3 * 86_400_000) as i64
}

/// The finding `f` is what the check reports for `m` under `t` at `now`.
pub open spec fn orphan_files_finding(f: Finding, m: TableMetadata, t: Thresholds, now: i64) -> bool {
    &&& f.check_id@ == "orphan_files"@
    &&& f.check_name@ == "Orphan Files"@
    &&& has_entry(f.details, "orphan_count"@, Detail::UInt(table_orphans(m).len() as u64))
    &&& (table_orphans(m).len() == 0 ==> {
        &&& f.severity == Severity::Pass
        &&& f.message@ == "No orphan files detected"@
        &&& keys_are(f.details, seq!["orphan_count"@])
        &&& f.impact@ == Seq::<char>::empty()
        &&& f.fix_suggestion.is_none()
        &&& f.fix_command.is_none()
        &&& f.estimated_savings.is_none()
    })
    &&& (table_orphans(m).len() > 0 ==> {
        let n = table_orphans(m).len();
        &&& f.severity == Severity::Warning
        &&& has_text_list(f.details, "sample_orphans"@, string_views(orphan_sample(m)))
        &&& keys_are(f.details, seq!["orphan_count"@, "sample_orphans"@])
        &&& f.message@ == dec(n) + " files in data directory not referenced by any snapshot"@
        &&& f.impact@ == orphan_impact()
        &&& f.fix_suggestion matches Some(s) && s@ == orphan_suggestion()
        &&& f.fix_command matches Some(c) && c@ == remove_orphans_text(m.table_name@, three_days_before(now))
        &&& f.estimated_savings.is_none()
    })
}

impl OrphanFilesCheck {
    pub fn id(&self) -> (s: &'static str)
        ensures
            s@ == "orphan_files"@,
    {
        "orphan_files"
    }

    pub fn name(&self) -> (s: &'static str)
        ensures
            s@ == "Orphan Files"@,
    {
        "Orphan Files"
    }

    /// Flags storage paths referenced by no data or delete file with a
    /// warning, and samples the first ten of them in ascending order. The fix
    /// removes orphans older than three days before `now_ms`.
    pub fn check(&self, metadata: &TableMetadata, _thresholds: &Thresholds, now_ms: i64) -> (f: Finding)
        requires
            table_orphans(*metadata).len() > 0 ==> days_before_ok(now_ms, 3),
        ensures
            orphan_files_finding(f, *metadata, *_thresholds, now_ms),
    {
        let orphans = find_orphans(metadata);
        let count = orphans.len();
        if count == 0 {
            let details = Detail::Object(vec![entry("orphan_count", Detail::UInt(0))]);
            proof {
                assert(details->Object_0@[0].0@ == "orphan_count"@);
                assert(keys_are(details, seq!["orphan_count"@]));
            }
            return pass_finding("orphan_files", "Orphan Files", lit("No orphan files detected"), details);
        }
        let severity = Severity::Warning;
        let mut message = u64_text(count as u64);
        message.append(" files in data directory not referenced by any snapshot");
        let sorted = sorted_paths(&orphans);
        let mut first: Vec<String> = Vec::new();
        let mut i: usize = 0;
        while i < sorted.len() && i < 10
            invariant
                i <= sorted@.len(),
                i <= 10,
                first@ == sorted@.take(i as int),
            decreases sorted@.len() - i,
        {
            proof {
                assert(sorted@.take(i + 1) =~= sorted@.take(i as int).push(sorted@[i as int]));
            }
            first.push(sorted[i].clone());
            i = i + 1;
        }
        proof {
            if sorted@.len() <= 10 {
                assert(sorted@.take(sorted@.len() as int) =~= sorted@);
            }
            assert(first@ == orphan_sample(*metadata));
        }
        let sample = text_list(first);
        let details = Detail::Object(vec![
            entry("orphan_count", Detail::UInt(count as u64)),
            entry("sample_orphans", sample),
        ]);
        proof {
            assert(details->Object_0@[0].0@ == "orphan_count"@);
            assert(details->Object_0@[1].0@ == "sample_orphans"@);
            assert(keys_are(details, seq!["orphan_count"@, "sample_orphans"@]));
        }
        let cutoff = now_ms - 3 * crate::clock::MS_PER_DAY;
        Finding {
            check_id: lit("orphan_files"),
            check_name: lit("Orphan Files"),
            severity,
            message,
            impact: lit("Orphan files consume S3 storage you're paying for but serve no purpose. They typically result from failed writes or incomplete compaction. Files from in-flight commits can falsely look orphaned — always pass an `older_than` argument to the fix."),
            fix_suggestion: Some(lit("Run remove_orphan_files with `older_than` set to at least 3 days to avoid deleting files from incomplete commits.")),
            fix_command: Some(remove_orphans_command(&metadata.table_name, cutoff)),
            estimated_savings: None,
            details,
        }
    }
}

} // verus!
