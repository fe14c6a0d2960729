//! Reports the fraction of data files that carry per-column statistics
//! (value counts, null counts, column sizes).
//!
//! Without column stats the planner cannot prune files by min/max bounds,
//! cannot push down `IS NULL` predicates, and cannot cost-model joins
//! accurately. Low coverage is a real planner-time regression even if every
//! other health metric looks fine.

use vstd::prelude::*;
use crate::checks::{entry, lit, pass_finding, ratio_text};
use crate::config::Thresholds;
use crate::metadata::{DataFile, TableMetadata};
use crate::report::{has_entry, has_text, keys_are, Detail, Finding, Severity};
use crate::text::{dec, fraction_text, lemma_mul_fits, u64_text};

verus! {

pub struct StatsCoverageCheck;

/// Which statistic a count looks at.
#[derive(Clone, Copy, Debug, PartialEq, Eq, Structural)]
pub enum StatsKind {
    ValueCounts,
    NullCounts,
    Any,
}

/// The file carries statistics of the given kind.
pub open spec fn has_stats(f: DataFile, k: StatsKind) -> bool {
    match k {
        StatsKind::ValueCounts => f.value_counts@.len() > 0,
        StatsKind::NullCounts => f.null_value_counts@.len() > 0,
        StatsKind::Any => f.value_counts@.len() > 0 || f.null_value_counts@.len() > 0 || f.column_sizes@.len() > 0,
    }
}

/// Number of files carrying statistics of the given kind.
pub open spec fn stats_count(files: Seq<DataFile>, k: StatsKind) -> nat
    decreases files.len(),
{
    if files.len() == 0 {
        0
    } else {
        stats_count(files.drop_last(), k) + if has_stats(files.last(), k) { 1nat } else { 0nat }
    }
}

pub open spec fn stats_coverage_severity(m: TableMetadata, t: Thresholds) -> Severity {
    let n = m.data_files@.len();
    let any = stats_count(m.data_files@, StatsKind::Any);
    if n == 0 || any * 10000 >= t.min_stats_coverage_pct_x100 * n {
        Severity::Pass
    } else if any * 20000 < t.min_stats_coverage_pct_x100 * n {
        Severity::Critical
    } else {
        Severity::Warning
    }
}

pub open spec fn stats_impact() -> Seq<char> {
    "Without column statistics in manifest entries, the query planner cannot prune files by min/max bounds or push down null predicates. Common cause: an older writer (Spark <3.3, some streaming paths) that emits empty stats maps."@
}

pub open spec fn stats_suggestion() -> Seq<char> {
    "Rewrite affected files with a recent writer to populate manifest column statistics. `rewrite_data_files` with strategy=binpack will do this as a side effect."@
}

pub open spec fn stats_rewrite_text(table: Seq<char>) -> Seq<char> {
    "CALL catalog.system.rewrite_data_files(table => '"@ + table
        + "', strategy => 'binpack', options => map('rewrite-all', 'true'))"@
}

/// Number of files carrying statistics of the given kind.
pub fn count_with_stats(files: &Vec<DataFile>, k: StatsKind) -> (r: usize)
    ensures
        r == stats_count(files@, k),
        r <= files@.len(),
{
    let mut c: usize = 0;
    let mut i: usize = 0;
    while i < files.len()
        invariant
            i <= files@.len(),
            c == stats_count(files@.take(i as int), k),
            c <= i,
        decreases files@.len() - i,
    {
        proof {
            assert(files@.take(i + 1).drop_last() =~= files@.take(i as int));
        }
        let f = &files[i];
        let has = match k {
            StatsKind::ValueCounts => f.value_counts.len() > 0,
            StatsKind::NullCounts => f.null_value_counts.len() > 0,
            StatsKind::Any => f.value_counts.len() > 0 || f.null_value_counts.len() > 0 || f.column_sizes.len() > 0,
        };
        if has {
            c = c + 1;
        }
        i = i + 1;
    }
    proof {
        assert(files@.take(files@.len() as int) =~= files@);
    }
    c
}

/// The finding `f` is what the check reports for `m` under `t`.
pub open spec fn stats_coverage_finding(f: Finding, m: TableMetadata, t: Thresholds) -> bool {
    &&& f.check_id@ == "stats_coverage"@
    &&& f.check_name@ == "Statistics Coverage"@
    &&& f.severity == stats_coverage_severity(m, t)
    &&& has_entry(f.details, "data_files"@, Detail::UInt(m.data_files@.len() as u64))
    &&& (m.data_files@.len() == 0 ==> f.message@ == "No data files to assess"@)
    &&& (m.data_files@.len() == 0 ==> keys_are(f.details, seq!["data_files"@]))
    &&& (m.data_files@.len() > 0 && f.severity == Severity::Pass ==> keys_are(f.details,
        seq!["data_files"@, "files_with_value_counts"@, "files_with_null_counts"@, "files_with_any_stats"@, "coverage_pct"@]))
    &&& (m.data_files@.len() > 0 && f.severity != Severity::Pass ==> keys_are(f.details,
        seq!["data_files"@, "files_with_value_counts"@, "files_with_null_counts"@, "files_with_any_stats"@, "coverage_pct"@, "threshold_pct"@]))
    &&& (m.data_files@.len() > 0 ==> {
        let files = m.data_files@;
        let n = files.len();
        let any = stats_count(files, StatsKind::Any);
        &&& has_entry(f.details, "files_with_value_counts"@,
            Detail::UInt(stats_count(files, StatsKind::ValueCounts) as u64))
        &&& has_entry(f.details, "files_with_null_counts"@,
            Detail::UInt(stats_count(files, StatsKind::NullCounts) as u64))
        &&& has_entry(f.details, "files_with_any_stats"@, Detail::UInt(any as u64))
        &&& has_text(f.details, "coverage_pct"@, fraction_text(any * 100, n, 2))
        &&& f.severity == Severity::Pass ==> f.message@
            == fraction_text(any * 100, n, 1) + "% of data files carry column statistics"@
        &&& f.severity != Severity::Pass ==> {
            &&& f.message@ == "Only "@ + fraction_text(any * 100, n, 1) + "% of files carry column statistics ("@
                + dec(any) + " of "@ + dec(n) + ", threshold: "@
                + fraction_text(t.min_stats_coverage_pct_x100 as nat, 100, 0) + "%)"@
            &&& has_entry(f.details, "threshold_pct"@,
                Detail::Decimal(t.min_stats_coverage_pct_x100 as i128, 2))
        }
    })
    &&& (f.severity == Severity::Pass ==> {
        &&& f.impact@ == Seq::<char>::empty()
        &&& f.fix_suggestion.is_none()
        &&& f.fix_command.is_none()
        &&& f.estimated_savings.is_none()
    })
    &&& (f.severity != Severity::Pass ==> {
        &&& f.impact@ == stats_impact()
        &&& f.fix_suggestion matches Some(s) && s@ == stats_suggestion()
        &&& f.fix_command matches Some(c) && c@ == stats_rewrite_text(m.table_name@)
        &&& f.estimated_savings matches Some(s) && s@ == "Restored file pruning reduces scanned files per query."@
    })
}

impl StatsCoverageCheck {
    pub fn id(&self) -> (s: &'static str)
        ensures
            s@ == "stats_coverage"@,
    {
        "stats_coverage"
    }

    pub fn name(&self) -> (s: &'static str)
        ensures
            s@ == "Statistics Coverage"@,
    {
        "Statistics Coverage"
    }

    /// Measures the share of data files carrying any column statistics:
    /// pass at or above the threshold, critical below half of it.
    pub fn check(&self, metadata: &TableMetadata, thresholds: &Thresholds) -> (f: Finding)
        ensures
            stats_coverage_finding(f, *metadata, *thresholds),
    {
        let n = metadata.data_files.len();
        if n == 0 {
            let details = Detail::Object(vec![entry("data_files", Detail::UInt(0))]);
            proof {
                assert(details->Object_0@[0].0@ == "data_files"@);
                assert(keys_are(details, seq!["data_files"@]));
            }
            return pass_finding("stats_coverage", "Statistics Coverage", lit("No data files to assess"), details);
        }
        let with_values = count_with_stats(&metadata.data_files, StatsKind::ValueCounts);
        let with_nulls = count_with_stats(&metadata.data_files, StatsKind::NullCounts);
        let with_any = count_with_stats(&metadata.data_files, StatsKind::Any);
        let t = thresholds.min_stats_coverage_pct_x100;
        proof {
            lemma_mul_fits(t as nat, n as nat);
        }
        let pct1 = ratio_text((with_any as u128) * 100, n as u128, 1);
        let pct2 = ratio_text((with_any as u128) * 100, n as u128, 2);
        if (with_any as u128) * 10000 >= (t as u128) * (n as u128) {
            let mut message = pct1;
            message.append("% of data files carry column statistics");
            let details = Detail::Object(vec![
                entry("data_files", Detail::UInt(n as u64)),
                entry("files_with_value_counts", Detail::UInt(with_values as u64)),
                entry("files_with_null_counts", Detail::UInt(with_nulls as u64)),
                entry("files_with_any_stats", Detail::UInt(with_any as u64)),
                entry("coverage_pct", Detail::Text(pct2)),
            ]);
            proof {
                assert(details->Object_0@[0].0@ == "data_files"@);
                assert(details->Object_0@[1].0@ == "files_with_value_counts"@);
                assert(details->Object_0@[2].0@ == "files_with_null_counts"@);
                assert(details->Object_0@[3].0@ == "files_with_any_stats"@);
                assert(details->Object_0@[4].0@ == "coverage_pct"@);
                assert(keys_are(details, seq!["data_files"@, "files_with_value_counts"@, "files_with_null_counts"@, "files_with_any_stats"@, "coverage_pct"@]));
            }
            return pass_finding("stats_coverage", "Statistics Coverage", message, details);
        }
        let severity = if (with_any as u128) * 20000 < (t as u128) * (n as u128) {
            Severity::Critical
        } else {
            Severity::Warning
        };
        let mut message = lit("Only ");
        message.append(pct1.as_str());
        message.append("% of files carry column statistics (");
        message.append(u64_text(with_any as u64).as_str());
        message.append(" of ");
        message.append(u64_text(n as u64).as_str());
        message.append(", threshold: ");
        message.append(ratio_text(t as u128, 100, 0).as_str());
        message.append("%)");
        let mut command = lit("CALL catalog.system.rewrite_data_files(table => '");
        command.append(metadata.table_name.as_str());
        command.append("', strategy => 'binpack', options => map('rewrite-all', 'true'))");
        let details = Detail::Object(vec![
            entry("data_files", Detail::UInt(n as u64)),
            entry("files_with_value_counts", Detail::UInt(with_values as u64)),
            entry("files_with_null_counts", Detail::UInt(with_nulls as u64)),
            entry("files_with_any_stats", Detail::UInt(with_any as u64)),
            entry("coverage_pct", Detail::Text(pct2)),
            entry("threshold_pct", Detail::Decimal(t as i128, 2)),
        ]);
        proof {
            assert(details->Object_0@[0].0@ == "data_files"@);
            assert(details->Object_0@[1].0@ == "files_with_value_counts"@);
            assert(details->Object_0@[2].0@ == "files_with_null_counts"@);
            assert(details->Object_0@[3].0@ == "files_with_any_stats"@);
            assert(details->Object_0@[4].0@ == "coverage_pct"@);
            assert(details->Object_0@[5].0@ == "threshold_pct"@);
            assert(keys_are(details, seq!["data_files"@, "files_with_value_counts"@, "files_with_null_counts"@, "files_with_any_stats"@, "coverage_pct"@, "threshold_pct"@]));
            assert(command@ =~= stats_rewrite_text(metadata.table_name@));
        }
        Finding {
            check_id: lit("stats_coverage"),
            check_name: lit("Statistics Coverage"),
            severity,
            message,
            impact: lit("Without column statistics in manifest entries, the query planner cannot prune files by min/max bounds or push down null predicates. Common cause: an older writer (Spark <3.3, some streaming paths) that emits empty stats maps."),
            fix_suggestion: Some(lit("Rewrite affected files with a recent writer to populate manifest column statistics. `rewrite_data_files` with strategy=binpack will do this as a side effect.")),
            fix_command: Some(command),
            estimated_savings: Some(lit("Restored file pruning reduces scanned files per query.")),
            details,
        }
    }
}

} // verus!

verus! {

/// Files carrying value counts, null counts or column sizes.
pub open spec fn carries_stats() -> spec_fn(DataFile) -> bool {
    |x: DataFile| x.value_counts@.len() > 0 || x.null_value_counts@.len() > 0 || x.column_sizes@.len() > 0
}

proof fn lemma_any_is_filter(files: Seq<DataFile>)
    ensures
        stats_count(files, StatsKind::Any) == files.filter(carries_stats()).len(),
    decreases files.len(),
{
    reveal(Seq::filter);
    if files.len() > 0 {
        lemma_any_is_filter(files.drop_last());
        assert(carries_stats()(files.last()) == has_stats(files.last(), StatsKind::Any));
    }
}

/// How the statistics-coverage finding grades the table, with `A` the
/// files carrying any column statistics, `N` all data files and `p` the
/// minimum coverage in hundredths of a percent: it passes exactly when
/// there are no files or `A/N >= p`, and is critical exactly when
/// `A/N < p/2`.
pub proof fn law_stats_coverage_grades(f: Finding, m: TableMetadata, t: Thresholds)
    requires
        stats_coverage_finding(f, m, t),
    ensures
        ({
            let a = m.data_files@.filter(carries_stats()).len();
            let n = m.data_files@.len();
            let p = t.min_stats_coverage_pct_x100 as nat;
            &&& (f.severity == Severity::Pass <==> (n == 0 || a * 10000 >= p * n))
            &&& (f.severity == Severity::Critical <==> (n > 0 && a * 20000 < p * n))
            &&& has_entry(f.details, "files_with_any_stats"@, Detail::UInt(a as u64)) || n == 0
        }),
{
    lemma_any_is_filter(m.data_files@);
    let a = m.data_files@.filter(carries_stats()).len();
    let n = m.data_files@.len();
    let p = t.min_stats_coverage_pct_x100 as nat;
    if a * 20000 < p * n {
        assert(a * 10000 < p * n) by (nonlinear_arith)
            requires a * 20000 < p * n;
    }
}

} // verus!
