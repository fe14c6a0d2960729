//! Detects mismatches between declared table properties and observed
//! reality.
//!
//! Today this checks `write.target-file-size-bytes`: if a table declares a
//! 512 MB target but the median data file is 12 MB, that is a strong signal
//! that the writer ignored the property (engine-version mismatch, missing
//! config plumb-through, or wrong commit path).

use vstd::prelude::*;
use crate::checks::{entry, lit, pass_finding, ratio_text, ratio_text_spec};
use crate::checks::partition_skew::{sort_asc, sort_values};
use crate::config::Thresholds;
use crate::metadata::{get_property, property, DataFile, TableMetadata};
use crate::report::{has_entry, has_text, keys_are, Detail, Finding, Severity};
use crate::text::{dec, fraction_text, lemma_mul_fits, parse_u64, parse_u64_spec, u64_text};

verus! {

pub struct PropertiesDriftCheck;

/// The table property holding the declared target file size.
pub const TARGET_SIZE_KEY: &'static str = "write.target-file-size-bytes";

/// The sizes of the data files, in order.
pub open spec fn file_sizes(files: Seq<DataFile>) -> Seq<u64> {
    Seq::new(files.len(), |i: int| files[i].file_size_bytes)
}

/// The size at index `n / 2` of the sorted sizes (0 without files).
pub open spec fn median_file_size(files: Seq<DataFile>) -> u64 {
    if files.len() == 0 { 0 } else { sort_asc(file_sizes(files))[(files.len() / 2) as int] }
}

/// The declared target size, when the property holds a decimal number.
pub open spec fn declared_target(m: TableMetadata) -> Option<u64> {
    match property(m.properties@, "write.target-file-size-bytes"@) {
        Some(v) => parse_u64_spec(v),
        None => None,
    }
}

/// `|median − declared|`.
pub open spec fn size_gap(median: u64, declared: u64) -> nat {
    if median >= declared { (median - declared) as nat } else { (declared - median) as nat }
}

pub open spec fn drift_severity(m: TableMetadata, t: Thresholds) -> Severity {
    let median = median_file_size(m.data_files@);
    match declared_target(m) {
        Some(d) => if d > 0 && median > 0 {
            let gap = size_gap(median, d);
            if gap * 10000 <= t.target_file_size_drift_x10000 * d {
                Severity::Pass
            } else if gap > 5 * d {
                Severity::Critical
            } else {
                Severity::Warning
            }
        } else {
            Severity::Pass
        },
        None => Severity::Pass,
    }
}

/// A byte count as `x.y GB`, `x.y MB` or `n B`.
pub open spec fn fmt_bytes_spec(b: u64) -> Seq<char> {
    if b >= 1073741824 {
        fraction_text(b as nat, 1073741824, 1) + " GB"@
    } else if b >= 1048576 {
        fraction_text(b as nat, 1048576, 1) + " MB"@
    } else {
        dec(b as nat) + " B"@
    }
}

pub fn fmt_bytes(b: u64) -> (s: String)
    ensures
        s@ == fmt_bytes_spec(b),
{
    if b >= 1073741824 {
        let mut s = ratio_text(b as u128, 1073741824, 1);
        s.append(" GB");
        s
    } else if b >= 1048576 {
        let mut s = ratio_text(b as u128, 1048576, 1);
        s.append(" MB");
        s
    } else {
        let mut s = u64_text(b);
        s.append(" B");
        s
    }
}

pub open spec fn drift_impact() -> Seq<char> {
    "When the writer ignores a declared file-size target, downstream readers and compactors disagree about what 'small' means. Common causes: engine version mismatch, missing Spark config plumb-through, or a writer that doesn't honor table properties on this commit path."@
}

pub open spec fn drift_suggestion() -> Seq<char> {
    "Audit the writer's effective config (check Spark/Flink/Trino session properties). If the property is intentional, run rewrite_data_files to reshape existing files toward the target."@
}

pub open spec fn target_size_rewrite_text(table: Seq<char>, declared: u64) -> Seq<char> {
    "CALL catalog.system.rewrite_data_files(table => '"@ + table
        + "', strategy => 'binpack', options => map('target-file-size-bytes', '"@ + dec(declared as nat) + "'))"@
}

fn size_list(files: &Vec<DataFile>) -> (r: Vec<u64>)
    ensures
        r@ == file_sizes(files@),
{
    let mut r: Vec<u64> = Vec::new();
    let mut i: usize = 0;
    while i < files.len()
        invariant
            i <= files@.len(),
            r@.len() == i,
            forall|k: int| 0 <= k < i ==> r@[k] == files@[k].file_size_bytes,
        decreases files@.len() - i,
    {
        r.push(files[i].file_size_bytes);
        i = i + 1;
    }
    proof {
        assert(r@ =~= file_sizes(files@));
    }
    r
}

/// The median data-file size: the size at index `n / 2` once sorted.
pub fn median_size(files: &Vec<DataFile>) -> (m: u64)
    ensures
        m == median_file_size(files@),
{
    if files.len() == 0 {
        return 0;
    }
    let sizes = size_list(files);
    let sorted = sort_values(&sizes);
    proof {
        crate::checks::partition_skew::lemma_sort_len(sizes@);
    }
    sorted[files.len() / 2]
}

/// The finding `f` is what the check reports for `m` under `t`.
pub open spec fn properties_drift_finding(f: Finding, m: TableMetadata, t: Thresholds) -> bool {
    &&& f.check_id@ == "properties_drift"@
    &&& f.check_name@ == "Properties Drift"@
    &&& f.severity == drift_severity(m, t)
    &&& f.estimated_savings.is_none()
    &&& has_entry(f.details, "median_file_size"@, Detail::UInt(median_file_size(m.data_files@)))
    &&& (!(declared_target(m) is Some && declared_target(m)->0 > 0) ==> {
        &&& f.message@ == "No `write.target-file-size-bytes` property declared — nothing to compare against"@
        &&& has_entry(f.details, "declared_target"@, Detail::Null)
        &&& keys_are(f.details, seq!["declared_target"@, "median_file_size"@])
    })
    &&& (declared_target(m) is Some && declared_target(m)->0 > 0 ==> {
        let d = declared_target(m)->0;
        let median = median_file_size(m.data_files@);
        let gap = size_gap(median, d);
        &&& has_entry(f.details, "declared_target"@, Detail::UInt(d))
        &&& median == 0 ==> f.message@ == "No data files yet — properties drift not assessable"@
        &&& median == 0 ==> keys_are(f.details, seq!["declared_target"@, "median_file_size"@])
        &&& median > 0 && f.severity == Severity::Pass ==> keys_are(f.details,
            seq!["declared_target"@, "median_file_size"@, "drift_pct"@])
        &&& median > 0 ==> has_text(f.details, "drift_pct"@, fraction_text(gap * 100, d as nat, 2))
        &&& median > 0 && f.severity == Severity::Pass ==> f.message@ == "Median file size "@
            + fmt_bytes_spec(median) + " aligns with declared target "@ + fmt_bytes_spec(d) + " ("@
            + fraction_text(gap * 100, d as nat, 0) + "% drift)"@
        &&& f.severity != Severity::Pass ==> {
            &&& keys_are(f.details, seq!["declared_target"@, "median_file_size"@, "drift_pct"@,
                "threshold_drift_pct"@])
            &&& f.message@ == "Median file size "@ + fmt_bytes_spec(median) + " drifts "@
                + fraction_text(gap * 100, d as nat, 0) + "% from declared target "@ + fmt_bytes_spec(d)
                + " (write.target-file-size-bytes)"@
            &&& f.fix_command matches Some(c) && c@ == target_size_rewrite_text(m.table_name@, d)
            &&& has_entry(f.details, "threshold_drift_pct"@,
                Detail::Decimal(t.target_file_size_drift_x10000 as i128, 2))
        }
    })
    &&& (f.severity == Severity::Pass ==> {
        &&& f.impact@ == Seq::<char>::empty()
        &&& f.fix_suggestion.is_none()
        &&& f.fix_command.is_none()
    })
    &&& (f.severity != Severity::Pass ==> {
        &&& f.impact@ == drift_impact()
        &&& f.fix_suggestion matches Some(s) && s@ == drift_suggestion()
    })
}

impl PropertiesDriftCheck {
    pub fn id(&self) -> (s: &'static str)
        ensures
            s@ == "properties_drift"@,
    {
        "properties_drift"
    }

    pub fn name(&self) -> (s: &'static str)
        ensures
            s@ == "Properties Drift"@,
    {
        "Properties Drift"
    }

    /// Compares the declared target file size with the median data-file
    /// size. Passes without a positive declared target, without a positive
    /// median, or while the relative drift stays within the threshold;
    /// critical when the drift exceeds 500%, warning otherwise.
    pub fn check(&self, metadata: &TableMetadata, thresholds: &Thresholds) -> (f: Finding)
        ensures
            properties_drift_finding(f, *metadata, *thresholds),
    {
        let declared = match get_property(&metadata.properties, TARGET_SIZE_KEY) {
            Some(v) => parse_u64(v.as_str()),
            None => None,
        };
        proof {
            reveal_strlit("write.target-file-size-bytes");
        }
        let median = median_size(&metadata.data_files);
        let d = match declared {
            Some(d) if d > 0 => d,
            _ => {
                let details = Detail::Object(vec![
                    entry("declared_target", Detail::Null),
                    entry("median_file_size", Detail::UInt(median)),
                ]);
                proof {
                    assert(details->Object_0@[0].0@ == "declared_target"@);
                    assert(details->Object_0@[1].0@ == "median_file_size"@);
                    assert(keys_are(details, seq!["declared_target"@, "median_file_size"@]));
                }
                return pass_finding("properties_drift", "Properties Drift",
                    lit("No `write.target-file-size-bytes` property declared — nothing to compare against"), details);
            },
        };
        if median == 0 {
            let details = Detail::Object(vec![
                entry("declared_target", Detail::UInt(d)),
                entry("median_file_size", Detail::UInt(0)),
            ]);
            proof {
                assert(details->Object_0@[0].0@ == "declared_target"@);
                assert(details->Object_0@[1].0@ == "median_file_size"@);
                assert(keys_are(details, seq!["declared_target"@, "median_file_size"@]));
            }
            return pass_finding("properties_drift", "Properties Drift",
                lit("No data files yet — properties drift not assessable"), details);
        }
        let gap: u64 = if median >= d { median - d } else { d - median };
        let limit = thresholds.target_file_size_drift_x10000;
        proof {
            lemma_mul_fits(limit as nat, d as nat);
        }
        let pct0 = ratio_text((gap as u128) * 100, d as u128, 0);
        let pct2 = ratio_text((gap as u128) * 100, d as u128, 2);
        if (gap as u128) * 10000 <= (limit as u128) * (d as u128) {
            let mut message = lit("Median file size ");
            message.append(fmt_bytes(median).as_str());
            message.append(" aligns with declared target ");
            message.append(fmt_bytes(d).as_str());
            message.append(" (");
            message.append(pct0.as_str());
            message.append("% drift)");
            let details = Detail::Object(vec![
                entry("declared_target", Detail::UInt(d)),
                entry("median_file_size", Detail::UInt(median)),
                entry("drift_pct", Detail::Text(pct2)),
            ]);
            proof {
                assert(details->Object_0@[0].0@ == "declared_target"@);
                assert(details->Object_0@[1].0@ == "median_file_size"@);
                assert(details->Object_0@[2].0@ == "drift_pct"@);
                assert(keys_are(details, seq!["declared_target"@, "median_file_size"@, "drift_pct"@]));
            }
            return pass_finding("properties_drift", "Properties Drift", message, details);
        }
        let severity = if (gap as u128) > 5 * (d as u128) { Severity::Critical } else { Severity::Warning };
        let mut message = lit("Median file size ");
        message.append(fmt_bytes(median).as_str());
        message.append(" drifts ");
        message.append(pct0.as_str());
        message.append("% from declared target ");
        message.append(fmt_bytes(d).as_str());
        message.append(" (write.target-file-size-bytes)");
        let mut command = lit("CALL catalog.system.rewrite_data_files(table => '");
        command.append(metadata.table_name.as_str());
        command.append("', strategy => 'binpack', options => map('target-file-size-bytes', '");
        command.append(u64_text(d).as_str());
        command.append("'))");
        let details = Detail::Object(vec![
            entry("declared_target", Detail::UInt(d)),
            entry("median_file_size", Detail::UInt(median)),
            entry("drift_pct", Detail::Text(pct2)),
            entry("threshold_drift_pct", Detail::Decimal(limit as i128, 2)),
        ]);
        proof {
            assert(details->Object_0@[0].0@ == "declared_target"@);
            assert(details->Object_0@[1].0@ == "median_file_size"@);
            assert(details->Object_0@[2].0@ == "drift_pct"@);
            assert(details->Object_0@[3].0@ == "threshold_drift_pct"@);
            assert(keys_are(details, seq!["declared_target"@, "median_file_size"@, "drift_pct"@, "threshold_drift_pct"@]));
            assert(command@ =~= target_size_rewrite_text(metadata.table_name@, d));
        }
        Finding {
            check_id: lit("properties_drift"),
            check_name: lit("Properties Drift"),
            severity,
            message,
            impact: lit("When the writer ignores a declared file-size target, downstream readers and compactors disagree about what 'small' means. Common causes: engine version mismatch, missing Spark config plumb-through, or a writer that doesn't honor table properties on this commit path."),
            fix_suggestion: Some(lit("Audit the writer's effective config (check Spark/Flink/Trino session properties). If the property is intentional, run rewrite_data_files to reshape existing files toward the target.")),
            fix_command: Some(command),
            estimated_savings: None,
            details,
        }
    }
}

} // verus!
