//! Checks whether data files are actually sorted according to the table's
//! declared default sort order.
//!
//! Each manifest entry records the `sort_order_id` the writer claimed to
//! honor. If a table declares a sort order but most files were written with
//! another ID, readers do not get the data-skipping benefits the sort order
//! is supposed to provide. Files without a recorded ID (older writers) are
//! left out of the ratio.

use vstd::prelude::*;
use crate::checks::{call_command, call_text, entry, lit, pass_finding, ratio_text};
use crate::config::Thresholds;
use crate::metadata::{DataFile, TableMetadata};
use crate::report::{has_entry, has_text, keys_are, Detail, Finding, Severity};
use crate::text::{dec, dec_int, fraction_text, i64_text, lemma_mul_fits, u64_text};

verus! {

pub struct SortComplianceCheck;

/// Files recording sort order `id`.
pub open spec fn compliant_count(files: Seq<DataFile>, id: i32) -> nat
    decreases files.len(),
{
    if files.len() == 0 {
        0
    } else {
        compliant_count(files.drop_last(), id) + if files.last().sort_order_id == Some(id) { 1nat } else { 0nat }
    }
}

/// Files recording no sort order.
pub open spec fn unknown_count(files: Seq<DataFile>) -> nat
    decreases files.len(),
{
    if files.len() == 0 {
        0
    } else {
        unknown_count(files.drop_last()) + if files.last().sort_order_id is None { 1nat } else { 0nat }
    }
}

proof fn lemma_counts_le(files: Seq<DataFile>, id: i32)
    ensures
        compliant_count(files, id) + unknown_count(files) <= files.len(),
    decreases files.len(),
{
    if files.len() > 0 {
        lemma_counts_le(files.drop_last(), id);
    }
}

/// The table declares a sort order with at least one field.
pub open spec fn declares_sort(m: TableMetadata) -> bool {
    m.sort_order matches Some(s) && s.fields@.len() > 0
}

pub open spec fn sort_compliance_severity(m: TableMetadata, t: Thresholds) -> Severity {
    let files = m.data_files@;
    let id = m.sort_order->0.order_id;
    let compliant = compliant_count(files, id);
    let assessable = files.len() - unknown_count(files);
    if !declares_sort(m) || files.len() == 0 {
        Severity::Pass
    } else if assessable == 0 {
        Severity::Warning
    } else if compliant * 10000 >= t.min_sort_compliance_pct_x100 * assessable {
        Severity::Pass
    } else if compliant * 20000 < t.min_sort_compliance_pct_x100 * assessable {
        Severity::Critical
    } else {
        Severity::Warning
    }
}

pub open spec fn unsorted_impact() -> Seq<char> {
    "When data isn't sorted as declared, readers can't prune by min/max bounds and queries scan more files than they should. Common cause: a streaming or backfill job that ignored the sort order."@
}

pub open spec fn unsorted_suggestion() -> Seq<char> {
    "Run rewrite_data_files with strategy=sort to rewrite non-compliant files under the table's declared sort order."@
}

pub open spec fn unknown_impact() -> Seq<char> {
    "Without sort_order_id on manifest entries, frost cannot prove compliance. Newer writers (Spark 3.5+, Trino, Flink recent) set this — older writers do not."@
}

pub open spec fn unknown_suggestion() -> Seq<char> {
    "Run rewrite_data_files with strategy=sort to rewrite files under the declared sort order."@
}

/// Counts the files recording sort order `id`, and those recording none.
pub fn sort_order_counts(files: &Vec<DataFile>, id: i32) -> (r: (usize, usize))
    ensures
        r.0 == compliant_count(files@, id),
        r.1 == unknown_count(files@),
        r.0 + r.1 <= files@.len(),
{
    let mut compliant: usize = 0;
    let mut unknown: usize = 0;
    let mut i: usize = 0;
    while i < files.len()
        invariant
            i <= files@.len(),
            compliant == compliant_count(files@.take(i as int), id),
            unknown == unknown_count(files@.take(i as int)),
            compliant + unknown <= i,
        decreases files@.len() - i,
    {
        proof {
            assert(files@.take(i + 1).drop_last() =~= files@.take(i as int));
        }
        match files[i].sort_order_id {
            Some(x) => {
                if x == id {
                    compliant = compliant + 1;
                }
            },
            None => {
                unknown = unknown + 1;
            },
        }
        i = i + 1;
    }
    proof {
        assert(files@.take(files@.len() as int) =~= files@);
    }
    (compliant, unknown)
}

/// The finding `f` is what the check reports for `m` under `t`.
pub open spec fn sort_compliance_finding(f: Finding, m: TableMetadata, t: Thresholds) -> bool {
    &&& f.check_id@ == "sort_compliance"@
    &&& f.check_name@ == "Sort Compliance"@
    &&& f.severity == sort_compliance_severity(m, t)
    &&& (!declares_sort(m) ==> {
        &&& f.message@ == "No sort order declared — compliance check not applicable"@
        &&& has_entry(f.details, "has_sort_order"@, Detail::Bool(false))
        &&& keys_are(f.details, seq!["has_sort_order"@])
    })
    &&& (declares_sort(m) && m.data_files@.len() == 0 ==> {
        &&& f.message@ == "No data files yet — compliance not assessable"@
        &&& has_entry(f.details, "has_sort_order"@, Detail::Bool(true))
        &&& has_entry(f.details, "data_files"@, Detail::UInt(0))
        &&& keys_are(f.details, seq!["has_sort_order"@, "data_files"@])
    })
    &&& (declares_sort(m) && m.data_files@.len() > 0 ==> {
        let files = m.data_files@;
        let id = m.sort_order->0.order_id;
        let compliant = compliant_count(files, id);
        let unknown = unknown_count(files);
        let assessable = (files.len() - unknown) as nat;
        let t = t.min_sort_compliance_pct_x100;
        &&& has_entry(f.details, "declared_sort_order_id"@, Detail::Int(id as i64))
        &&& assessable == 0 ==> {
            &&& f.message@ == "Sort order #"@ + dec_int(id as int)
                + " declared but no files report sort_order_id (older writer?)"@
            &&& f.impact@ == unknown_impact()
            &&& f.fix_suggestion matches Some(s) && s@ == unknown_suggestion()
            &&& f.fix_command matches Some(c)
                && c@ == call_text("rewrite_data_files"@, m.table_name@, ", strategy => 'sort')"@)
            &&& f.estimated_savings.is_none()
            &&& has_entry(f.details, "files_without_sort_order_id"@, Detail::UInt(unknown as u64))
            &&& keys_are(f.details, seq!["declared_sort_order_id"@, "data_files"@, "files_without_sort_order_id"@])
        }
        &&& assessable > 0 && f.severity == Severity::Pass ==> keys_are(f.details,
            seq!["declared_sort_order_id"@, "compliant_files"@, "assessable_files"@, "compliance_pct"@])
        &&& assessable > 0 && f.severity != Severity::Pass ==> keys_are(f.details,
            seq!["declared_sort_order_id"@, "compliant_files"@, "assessable_files"@, "files_without_sort_order_id"@, "compliance_pct"@, "threshold_pct"@])
        &&& assessable > 0 ==> {
            &&& has_entry(f.details, "compliant_files"@, Detail::UInt(compliant as u64))
            &&& has_entry(f.details, "assessable_files"@, Detail::UInt(assessable as u64))
            &&& has_text(f.details, "compliance_pct"@, fraction_text(compliant * 100, assessable, 2))
        }
        &&& assessable > 0 && f.severity == Severity::Pass ==> f.message@
            == fraction_text(compliant * 100, assessable, 1) + "% of files honor sort order #"@
            + dec_int(id as int) + " ("@ + dec(compliant) + " of "@ + dec(assessable) + " assessable)"@
        &&& assessable > 0 && f.severity != Severity::Pass ==> {
            &&& f.message@ == "Only "@ + fraction_text(compliant * 100, assessable, 1)
                + "% of files honor declared sort order #"@ + dec_int(id as int) + " ("@ + dec(compliant)
                + " of "@ + dec(assessable) + " assessable, threshold: "@ + fraction_text(t as nat, 100, 0)
                + "%)"@
            &&& f.impact@ == unsorted_impact()
            &&& f.fix_suggestion matches Some(s) && s@ == unsorted_suggestion()
            &&& f.fix_command matches Some(c)
                && c@ == call_text("rewrite_data_files"@, m.table_name@, ", strategy => 'sort')"@)
            &&& f.estimated_savings matches Some(s)
                && s@ == "Restored data-skipping reduces files scanned per query."@
            &&& has_entry(f.details, "threshold_pct"@, Detail::Decimal(t as i128, 2))
        }
    })
    &&& (f.severity == Severity::Pass ==> {
        &&& f.impact@ == Seq::<char>::empty()
        &&& f.fix_suggestion.is_none()
        &&& f.fix_command.is_none()
        &&& f.estimated_savings.is_none()
    })
}

impl SortComplianceCheck {
    pub fn id(&self) -> (s: &'static str)
        ensures
            s@ == "sort_compliance"@,
    {
        "sort_compliance"
    }

    pub fn name(&self) -> (s: &'static str)
        ensures
            s@ == "Sort Compliance"@,
    {
        "Sort Compliance"
    }

    /// Measures the share of files (among those recording a sort order)
    /// written under the declared sort order. Passes without a declared
    /// order or without files; warns when no file records an order; passes
    /// at or above the threshold, critical below half of it.
    pub fn check(&self, metadata: &TableMetadata, thresholds: &Thresholds) -> (f: Finding)
        ensures
            sort_compliance_finding(f, *metadata, *thresholds),
    {
        let declared = match &metadata.sort_order {
            Some(s) => if s.fields.len() > 0 { Some(s.order_id) } else { None },
            None => None,
        };
        let id = match declared {
            Some(id) => id,
            None => {
                let details = Detail::Object(vec![entry("has_sort_order", Detail::Bool(false))]);
                proof {
                    assert(details->Object_0@[0].0@ == "has_sort_order"@);
                    assert(keys_are(details, seq!["has_sort_order"@]));
                }
                return pass_finding("sort_compliance", "Sort Compliance",
                    lit("No sort order declared — compliance check not applicable"), details);
            },
        };
        let total = metadata.data_files.len();
        if total == 0 {
            let details = Detail::Object(vec![
                entry("has_sort_order", Detail::Bool(true)),
                entry("data_files", Detail::UInt(0)),
            ]);
            proof {
                assert(details->Object_0@[0].0@ == "has_sort_order"@);
                assert(details->Object_0@[1].0@ == "data_files"@);
                assert(keys_are(details, seq!["has_sort_order"@, "data_files"@]));
            }
            return pass_finding("sort_compliance", "Sort Compliance",
                lit("No data files yet — compliance not assessable"), details);
        }
        let (compliant, unknown) = sort_order_counts(&metadata.data_files, id);
        let assessable = total - unknown;
        if assessable == 0 {
            let mut message = lit("Sort order #");
            message.append(i64_text(id as i64).as_str());
            message.append(" declared but no files report sort_order_id (older writer?)");
            let details = Detail::Object(vec![
                entry("declared_sort_order_id", Detail::Int(id as i64)),
                entry("data_files", Detail::UInt(total as u64)),
                entry("files_without_sort_order_id", Detail::UInt(unknown as u64)),
            ]);
            proof {
                assert(details->Object_0@[0].0@ == "declared_sort_order_id"@);
                assert(details->Object_0@[1].0@ == "data_files"@);
                assert(details->Object_0@[2].0@ == "files_without_sort_order_id"@);
                assert(keys_are(details, seq!["declared_sort_order_id"@, "data_files"@, "files_without_sort_order_id"@]));
            }
            return Finding {
                check_id: lit("sort_compliance"),
                check_name: lit("Sort Compliance"),
                severity: Severity::Warning,
                message,
                impact: lit("Without sort_order_id on manifest entries, frost cannot prove compliance. Newer writers (Spark 3.5+, Trino, Flink recent) set this — older writers do not."),
                fix_suggestion: Some(lit("Run rewrite_data_files with strategy=sort to rewrite files under the declared sort order.")),
                fix_command: Some(call_command("rewrite_data_files", &metadata.table_name, ", strategy => 'sort')")),
                estimated_savings: None,
                details,
            };
        }
        let t = thresholds.min_sort_compliance_pct_x100;
        proof {
            lemma_mul_fits(t as nat, assessable as nat);
        }
        let pct1 = ratio_text((compliant as u128) * 100, assessable as u128, 1);
        let pct2 = ratio_text((compliant as u128) * 100, assessable as u128, 2);
        let compliant_text = u64_text(compliant as u64);
        let assessable_text = u64_text(assessable as u64);
        if (compliant as u128) * 10000 >= (t as u128) * (assessable as u128) {
            let mut message = pct1;
            message.append("% of files honor sort order #");
            message.append(i64_text(id as i64).as_str());
            message.append(" (");
            message.append(compliant_text.as_str());
            message.append(" of ");
            message.append(assessable_text.as_str());
            message.append(" assessable)");
            let details = Detail::Object(vec![
                entry("declared_sort_order_id", Detail::Int(id as i64)),
                entry("compliant_files", Detail::UInt(compliant as u64)),
                entry("assessable_files", Detail::UInt(assessable as u64)),
                entry("compliance_pct", Detail::Text(pct2)),
            ]);
            proof {
                assert(details->Object_0@[0].0@ == "declared_sort_order_id"@);
                assert(details->Object_0@[1].0@ == "compliant_files"@);
                assert(details->Object_0@[2].0@ == "assessable_files"@);
                assert(details->Object_0@[3].0@ == "compliance_pct"@);
                assert(keys_are(details, seq!["declared_sort_order_id"@, "compliant_files"@, "assessable_files"@, "compliance_pct"@]));
                assert(message@ =~= fraction_text((compliant * 100) as nat, assessable as nat, 1)
                    + "% of files honor sort order #"@ + dec_int(id as int) + " ("@ + dec(compliant as nat) + " of "@
                    + dec(assessable as nat) + " assessable)"@);
            }
            return pass_finding("sort_compliance", "Sort Compliance", message, details);
        }
        let severity = if (compliant as u128) * 20000 < (t as u128) * (assessable as u128) {
            Severity::Critical
        } else {
            Severity::Warning
        };
        let mut message = lit("Only ");
        message.append(pct1.as_str());
        message.append("% of files honor declared sort order #");
        message.append(i64_text(id as i64).as_str());
        message.append(" (");
        message.append(compliant_text.as_str());
        message.append(" of ");
        message.append(assessable_text.as_str());
        message.append(" assessable, threshold: ");
        message.append(ratio_text(t as u128, 100, 0).as_str());
        message.append("%)");
        let details = Detail::Object(vec![
            entry("declared_sort_order_id", Detail::Int(id as i64)),
            entry("compliant_files", Detail::UInt(compliant as u64)),
            entry("assessable_files", Detail::UInt(assessable as u64)),
            entry("files_without_sort_order_id", Detail::UInt(unknown as u64)),
            entry("compliance_pct", Detail::Text(pct2)),
            entry("threshold_pct", Detail::Decimal(t as i128, 2)),
        ]);
        proof {
            assert(details->Object_0@[0].0@ == "declared_sort_order_id"@);
            assert(details->Object_0@[1].0@ == "compliant_files"@);
            assert(details->Object_0@[2].0@ == "assessable_files"@);
            assert(details->Object_0@[3].0@ == "files_without_sort_order_id"@);
            assert(details->Object_0@[4].0@ == "compliance_pct"@);
            assert(details->Object_0@[5].0@ == "threshold_pct"@);
            assert(keys_are(details, seq!["declared_sort_order_id"@, "compliant_files"@, "assessable_files"@, "files_without_sort_order_id"@, "compliance_pct"@, "threshold_pct"@]));
            assert(message@ =~= "Only "@ + fraction_text((compliant * 100) as nat, assessable as nat, 1)
                + "% of files honor declared sort order #"@ + dec_int(id as int) + " ("@ + dec(compliant as nat)
                + " of "@ + dec(assessable as nat) + " assessable, threshold: "@ + fraction_text(t as nat, 100, 0)
                + "%)"@);
        }
        Finding {
            check_id: lit("sort_compliance"),
            check_name: lit("Sort Compliance"),
            severity,
            message,
            impact: lit("When data isn't sorted as declared, readers can't prune by min/max bounds and queries scan more files than they should. Common cause: a streaming or backfill job that ignored the sort order."),
            fix_suggestion: Some(lit("Run rewrite_data_files with strategy=sort to rewrite non-compliant files under the table's declared sort order.")),
            fix_command: Some(call_command("rewrite_data_files", &metadata.table_name, ", strategy => 'sort')")),
            estimated_savings: Some(lit("Restored data-skipping reduces files scanned per query.")),
            details,
        }
    }
}

} // verus!
