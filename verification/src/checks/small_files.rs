//! Small-file detection. Reports counts and bytes trapped — bytes is the
//! dimension that drives compaction job sizing.

use vstd::prelude::*;
use crate::checks::{call_command, call_text, entry, lit, pass_finding, ratio_text, ratio_text_spec};
use crate::config::Thresholds;
use crate::metadata::{data_bytes, small_files_of, DataFile, TableMetadata};
use crate::partition::{group_data_files, group_files, groups_view, sort_by_count_desc, sort_groups_by_count, GroupSpec, PartitionGroup};
use crate::report::{has_entry, has_text, keys_are, Detail, Finding, Severity};
use crate::text::{dec, fraction_text, u64_text};

verus! {

pub struct SmallFilesCheck;

/// Severity: pass without small files; critical when more than 20% of the
/// files, or more than 500 files, are small; warning otherwise.
pub open spec fn small_files_severity(files: Seq<DataFile>, threshold: u64) -> Severity {
    let sc = small_files_of(files, threshold).len();
    if sc == 0 {
        Severity::Pass
    } else if sc * 100 > 20 * files.len() || sc > 500 {
        Severity::Critical
    } else {
        Severity::Warning
    }
}

pub open spec fn small_files_message(files: Seq<DataFile>, threshold: u64) -> Seq<char> {
    let small = small_files_of(files, threshold);
    let sc = small.len();
    if sc == 0 {
        "No small files detected"@
    } else {
        dec(sc) + " files under "@ + dec(threshold as nat / 1048576) + "MB ("@
            + ratio_text_spec(sc * 100, files.len(), 1) + "% of files, "@
            + fraction_text(data_bytes(small), 1048576, 1) + " MB trapped, "@
            + ratio_text_spec(data_bytes(small) * 100, data_bytes(files), 1) + "% of bytes)"@
    }
}

pub open spec fn small_files_impact() -> Seq<char> {
    "Each small file requires a separate S3 GET, a planning task, and adds query-planning latency proportional to file count. The 'bytes trapped' figure is what compaction has to read+rewrite."@
}

pub open spec fn small_files_suggestion() -> Seq<char> {
    "Run rewrite_data_files with binpack strategy to compact small files"@
}

/// `~P% faster scans after compaction, ~N fewer S3 GET requests per query`
/// with P = min(80% of the small-file percentage, 50), no decimals.
pub open spec fn small_files_savings(files: Seq<DataFile>, threshold: u64) -> Seq<char> {
    let sc = small_files_of(files, threshold).len();
    let total = files.len();
    let capped = if sc * 80 <= 50 * total { sc * 80 } else { 50 * total };
    "~"@ + fraction_text(capped, total, 0) + "% faster scans after compaction, ~"@ + dec(sc)
        + " fewer S3 GET requests per query"@
}

/// The five busiest groups listed as `{partition, small_file_count}` objects.
pub open spec fn hotspots_listed(d: Detail, gs: Seq<GroupSpec>) -> bool {
    match d {
        Detail::List(items) => {
            &&& items@.len() == if gs.len() < 5 { gs.len() } else { 5 }
            &&& forall|k: int| 0 <= k < items@.len() ==> {
                &&& has_text(#[trigger] items@[k], "partition"@, gs[k].key)
                &&& has_entry(items@[k], "small_file_count"@, Detail::UInt(gs[k].files as u64))
                &&& keys_are(items@[k], seq!["partition"@, "small_file_count"@])
            }
        },
        _ => false,
    }
}

/// Small files grouped by partition key, busiest first.
pub open spec fn small_file_hotspots(files: Seq<DataFile>, threshold: u64) -> Seq<GroupSpec> {
    sort_by_count_desc(group_files(files, true, Some(threshold)))
}

fn hotspot_list(sorted: &Vec<PartitionGroup>) -> (d: Detail)
    ensures
        hotspots_listed(d, groups_view(sorted@)),
{
    let mut items: Vec<Detail> = Vec::new();
    let mut k: usize = 0;
    let n = if sorted.len() < 5 { sorted.len() } else { 5 };
    while k < n
        invariant
            n <= sorted@.len(),
            n == if sorted@.len() < 5 { sorted@.len() } else { 5 },
            k <= n,
            items@.len() == k,
            forall|j: int| 0 <= j < k ==> {
                &&& has_text(#[trigger] items@[j], "partition"@, groups_view(sorted@)[j].key)
                &&& has_entry(items@[j], "small_file_count"@, Detail::UInt(groups_view(sorted@)[j].files as u64))
                &&& keys_are(items@[j], seq!["partition"@, "small_file_count"@])
            },
        decreases n - k,
    {
        let g = &sorted[k];
        let e0 = entry("partition", Detail::Text(g.key.clone()));
        let e1 = entry("small_file_count", Detail::UInt(g.file_count));
        let obj = Detail::Object(vec![e0, e1]);
        proof {
            assert(obj->Object_0@[0].0@ == "partition"@);
            assert(obj->Object_0@[1].0@ == "small_file_count"@);
            assert(keys_are(obj, seq!["partition"@, "small_file_count"@]));
        }
        items.push(obj);
        k = k + 1;
    }
    Detail::List(items)
}

/// The finding `f` is what the check reports for `m` under `t`.
pub open spec fn small_files_finding(f: Finding, m: TableMetadata, t: Thresholds) -> bool {
    &&& f.check_id@ == "small_files"@
    &&& f.check_name@ == "Small Files"@
    &&& f.severity == small_files_severity(m.data_files@, t.small_file_bytes)
    &&& f.message@ == small_files_message(m.data_files@, t.small_file_bytes)
    &&& (has_entry(f.details, "small_file_count"@,
        Detail::UInt(small_files_of(m.data_files@, t.small_file_bytes).len() as u64)))
    &&& has_entry(f.details, "total_files"@, Detail::UInt(m.data_files@.len() as u64))
    &&& (f.severity == Severity::Pass ==> keys_are(f.details, seq!["small_file_count"@, "total_files"@]))
    &&& (f.severity != Severity::Pass ==> keys_are(f.details, seq!["small_file_count"@, "total_files"@,
        "small_file_percentage"@, "bytes_trapped"@, "bytes_trapped_pct"@, "threshold_bytes"@, "top_partitions"@]))
    &&& (f.severity == Severity::Pass ==> {
        &&& f.impact@ == Seq::<char>::empty()
        &&& f.fix_suggestion.is_none()
        &&& f.fix_command.is_none()
        &&& f.estimated_savings.is_none()
    })
    &&& (f.severity != Severity::Pass ==> {
        let small = small_files_of(m.data_files@, t.small_file_bytes);
        &&& f.impact@ == small_files_impact()
        &&& f.fix_suggestion matches Some(s) && s@ == small_files_suggestion()
        &&& f.fix_command matches Some(c)
            && c@ == call_text("rewrite_data_files"@, m.table_name@, ", strategy => 'binpack')"@)
        &&& f.estimated_savings matches Some(s)
            && s@ == small_files_savings(m.data_files@, t.small_file_bytes)
        &&& has_entry(f.details, "bytes_trapped"@, Detail::UInt(data_bytes(small) as u64))
        &&& has_entry(f.details, "threshold_bytes"@, Detail::UInt(t.small_file_bytes))
        &&& has_text(f.details, "small_file_percentage"@,
            ratio_text_spec(small.len() * 100, m.data_files@.len(), 1))
        &&& has_text(f.details, "bytes_trapped_pct"@,
            ratio_text_spec(data_bytes(small) * 100, data_bytes(m.data_files@), 1))
        &&& has_entry(f.details, "top_partitions"@, f.details->Object_0@[6].1)
        &&& hotspots_listed(f.details->Object_0@[6].1,
            small_file_hotspots(m.data_files@, t.small_file_bytes))
    })
}

impl SmallFilesCheck {
    pub fn id(&self) -> (s: &'static str)
        ensures
            s@ == "small_files"@,
    {
        "small_files"
    }

    pub fn name(&self) -> (s: &'static str)
        ensures
            s@ == "Small Files"@,
    {
        "Small Files"
    }

    /// Flags data files smaller than the threshold. Reports how many there
    /// are, their share of files and of bytes, the bytes they trap, and the
    /// partitions holding most of them.
    pub fn check(&self, metadata: &TableMetadata, thresholds: &Thresholds) -> (f: Finding)
        requires
            metadata.totals_fit(),
        ensures
            small_files_finding(f, *metadata, *thresholds),
    {
        let threshold = thresholds.small_file_bytes;
        let files = &metadata.data_files;
        let total_files = files.len() as u64;
        let ghost fs = files@;

        let mut small_count: u64 = 0;
        let mut bytes_trapped: u64 = 0;
        let mut total_bytes: u64 = 0;
        let mut i: usize = 0;
        while i < files.len()
            invariant
                i <= fs.len(),
                fs == files@,
                data_bytes(fs) <= u64::MAX,
                small_count == small_files_of(fs.take(i as int), threshold).len(),
                bytes_trapped == data_bytes(small_files_of(fs.take(i as int), threshold)),
                total_bytes == data_bytes(fs.take(i as int)),
                small_count <= i,
            decreases fs.len() - i,
        {
            proof {
                assert(fs.take(i + 1).drop_last() =~= fs.take(i as int));
                assert(fs.take(i + 1).last() == fs[i as int]);
                let sm = small_files_of(fs.take(i as int), threshold);
                assert(sm.push(fs[i as int]).drop_last() =~= sm);
                lemma_small_bytes_le(fs.take(i + 1), threshold);
                crate::metadata::lemma_data_bytes_monotone(fs, i + 1, fs.len() as int);
                assert(fs.take(fs.len() as int) =~= fs);
            }
            let size = files[i].file_size_bytes;
            if size < threshold {
                small_count = small_count + 1;
                bytes_trapped = bytes_trapped + size;
            }
            total_bytes = total_bytes + size;
            i = i + 1;
        }
        proof {
            assert(fs.take(fs.len() as int) =~= fs);
        }

        if small_count == 0 {
            let e0 = entry("small_file_count", Detail::UInt(0));
            let e1 = entry("total_files", Detail::UInt(total_files));
            let details = Detail::Object(vec![e0, e1]);
            proof {
            assert(details->Object_0@[0].0@ == "small_file_count"@);
            assert(details->Object_0@[1].0@ == "total_files"@);
            assert(keys_are(details, seq!["small_file_count"@, "total_files"@]));
            }
            return pass_finding("small_files", "Small Files", lit("No small files detected"), details);
        }

        let severity = if (small_count as u128) * 100 > 20 * (total_files as u128) || small_count > 500 {
            Severity::Critical
        } else {
            Severity::Warning
        };

        let pct_text = ratio_text((small_count as u128) * 100, total_files as u128, 1);
        let trapped_pct_text = ratio_text((bytes_trapped as u128) * 100, total_bytes as u128, 1);

        let mut message = u64_text(small_count);
        message.append(" files under ");
        message.append(u64_text(threshold / (1024 * 1024)).as_str());
        message.append("MB (");
        message.append(pct_text.as_str());
        message.append("% of files, ");
        message.append(ratio_text(bytes_trapped as u128, 1048576, 1).as_str());
        message.append(" MB trapped, ");
        message.append(trapped_pct_text.as_str());
        message.append("% of bytes)");

        let capped: u128 = if (small_count as u128) * 80 <= 50 * (total_files as u128) {
            (small_count as u128) * 80
        } else {
            50 * (total_files as u128)
        };
        let mut savings = lit("~");
        savings.append(ratio_text(capped, total_files as u128, 0).as_str());
        savings.append("% faster scans after compaction, ~");
        savings.append(u64_text(small_count).as_str());
        savings.append(" fewer S3 GET requests per query");

        let groups = group_data_files(files, true, Some(threshold));
        let sorted = sort_groups_by_count(groups);
        let top = hotspot_list(&sorted);

        let details = Detail::Object(vec![
            entry("small_file_count", Detail::UInt(small_count)),
            entry("total_files", Detail::UInt(total_files)),
            entry("small_file_percentage", Detail::Text(pct_text)),
            entry("bytes_trapped", Detail::UInt(bytes_trapped)),
            entry("bytes_trapped_pct", Detail::Text(trapped_pct_text)),
            entry("threshold_bytes", Detail::UInt(threshold)),
            entry("top_partitions", top),
        ]);
        proof {
            let small = small_files_of(fs, threshold);
            assert(message@ =~= small_files_message(fs, threshold));
            assert(savings@ =~= small_files_savings(fs, threshold));
            assert(details->Object_0@[0].0@ == "small_file_count"@);
            assert(details->Object_0@[1].0@ == "total_files"@);
            assert(details->Object_0@[2].0@ == "small_file_percentage"@);
            assert(details->Object_0@[3].0@ == "bytes_trapped"@);
            assert(details->Object_0@[4].0@ == "bytes_trapped_pct"@);
            assert(details->Object_0@[5].0@ == "threshold_bytes"@);
            assert(details->Object_0@[6].0@ == "top_partitions"@);
            assert(keys_are(details, seq!["small_file_count"@, "total_files"@, "small_file_percentage"@,
                "bytes_trapped"@, "bytes_trapped_pct"@, "threshold_bytes"@, "top_partitions"@]));
        }

        Finding {
            check_id: lit("small_files"),
            check_name: lit("Small Files"),
            severity,
            message,
            impact: lit("Each small file requires a separate S3 GET, a planning task, and adds query-planning latency proportional to file count. The 'bytes trapped' figure is what compaction has to read+rewrite."),
            fix_suggestion: Some(lit("Run rewrite_data_files with binpack strategy to compact small files")),
            fix_command: Some(call_command("rewrite_data_files", &metadata.table_name, ", strategy => 'binpack')")),
            estimated_savings: Some(savings),
            details,
        }
    }
}

proof fn lemma_small_bytes_le(files: Seq<DataFile>, threshold: u64)
    ensures
        data_bytes(small_files_of(files, threshold)) <= data_bytes(files),
        small_files_of(files, threshold).len() <= files.len(),
    decreases files.len(),
{
    if files.len() > 0 {
        lemma_small_bytes_le(files.drop_last(), threshold);
        let s = small_files_of(files.drop_last(), threshold);
        if files.last().file_size_bytes < threshold {
            assert(s.push(files.last()).drop_last() =~= s);
        }
    }
}

} // verus!

verus! {

/// Files smaller than `threshold` bytes.
pub open spec fn below(threshold: u64) -> spec_fn(DataFile) -> bool {
    |x: DataFile| x.file_size_bytes < threshold
}

proof fn lemma_small_is_filter(files: Seq<DataFile>, threshold: u64)
    ensures
        small_files_of(files, threshold) == files.filter(below(threshold)),
    decreases files.len(),
{
    reveal(Seq::filter);
    if files.len() > 0 {
        lemma_small_is_filter(files.drop_last(), threshold);
        assert(below(threshold)(files.last()) == (files.last().file_size_bytes < threshold));
    } else {
        assert(files =~= Seq::<DataFile>::empty());
    }
}

/// How the small-files finding grades the table, with `S` the files under
/// the threshold and `N` all data files: it passes exactly when `S` is
/// empty, and otherwise is critical exactly when `S` is more than 20% of
/// `N` or more than 500 files; it reports `|S|` and `N`.
pub proof fn law_small_files_grades(f: Finding, m: TableMetadata, t: Thresholds)
    requires
        small_files_finding(f, m, t),
    ensures
        ({
            let s = m.data_files@.filter(below(t.small_file_bytes));
            let n = m.data_files@.len();
            &&& (f.severity == Severity::Pass <==> s.len() == 0)
            &&& (s.len() > 0 ==> (f.severity == Severity::Critical <==> (s.len() * 100 > 20 * n || s.len() > 500)))
            &&& has_entry(f.details, "small_file_count"@, Detail::UInt(s.len() as u64))
            &&& has_entry(f.details, "total_files"@, Detail::UInt(n as u64))
        }),
{
    lemma_small_is_filter(m.data_files@, t.small_file_bytes);
}

} // verus!
