//! Health checks.
//!
//! Each check is a unit struct whose `check` method reads the table
//! metadata and produces one finding. `HealthCheck` names every built-in
//! check and dispatches to it.

pub mod branch_health;
pub mod delete_pressure;
pub mod format_v1;
pub mod freshness;
pub mod metadata_size;
pub mod orphan_files;
pub mod partition_skew;
pub mod partition_spec_evolution;
pub mod properties_drift;
pub mod schema_history;
pub mod small_files;
pub mod snapshot_bloat;
pub mod sort_compliance;
pub mod sort_order;
pub mod stats_coverage;

use vstd::prelude::*;
use crate::clock::{chrono_ms_in_range, days_before_ok, days_before_ok_exec};
use crate::config::Thresholds;
use crate::metadata::TableMetadata;
use crate::report::{Detail, Finding, Severity};
use crate::text::{fraction_text, pow10};

verus! {

/// Text of `num / den` with `places` digits after the point; the text of 0
/// when `den` is 0.
pub open spec fn ratio_text_spec(num: nat, den: nat, places: nat) -> Seq<char> {
    if den == 0 {
        fraction_text(0, 1, places)
    } else {
        fraction_text(num, den, places)
    }
}

/// Text of `num / den` with `places` digits after the point (0 when `den`
/// is 0), rounded half to even.
pub fn ratio_text(num: u128, den: u128, places: u32) -> (s: String)
    requires
        num <= 0x1_0000_0000_0000_0000_0000_0000,
        places <= 4,
    ensures
        s@ == ratio_text_spec(num as nat, den as nat, places as nat),
{
    proof {
        crate::text::lemma_pow10_le_10000(places as nat);
        assert(num * pow10(places as nat) <= 0x1_0000_0000_0000_0000_0000_0000 * 10000) by (nonlinear_arith)
            requires num <= 0x1_0000_0000_0000_0000_0000_0000, pow10(places as nat) <= 10000;
    }
    if den == 0 {
        proof {
            assert(0 * pow10(places as nat) == 0);
        }
        crate::text::fraction_value_text(0, 1, places)
    } else {
        crate::text::fraction_value_text(num, den, places)
    }
}

/// A string holding the text of a literal.
pub fn lit(s: &str) -> (r: String)
    ensures
        r@ == s@,
{
    String::from_str(s)
}

/// An object detail entry.
pub fn entry(key: &str, value: Detail) -> (e: (String, Detail))
    ensures
        e.0@ == key@,
        e.1 == value,
{
    (String::from_str(key), value)
}

/// A passing finding with no impact, suggestion, command or savings.
pub fn pass_finding(id: &str, name: &str, message: String, details: Detail) -> (f: Finding)
    ensures
        f.check_id@ == id@,
        f.check_name@ == name@,
        f.severity == Severity::Pass,
        f.message == message,
        f.impact@ == Seq::<char>::empty(),
        f.fix_suggestion.is_none(),
        f.fix_command.is_none(),
        f.estimated_savings.is_none(),
        f.details == details,
{
    Finding {
        check_id: String::from_str(id),
        check_name: String::from_str(name),
        severity: Severity::Pass,
        message,
        impact: String::new(),
        fix_suggestion: None,
        fix_command: None,
        estimated_savings: None,
        details,
    }
}

/// `CALL catalog.system.<procedure>(table => '<table>'<rest>`.
pub open spec fn call_text(procedure: Seq<char>, table: Seq<char>, rest: Seq<char>) -> Seq<char> {
    "CALL catalog.system."@ + procedure + "(table => '"@ + table + "'"@ + rest
}

pub fn call_command(procedure: &str, table: &String, rest: &str) -> (s: String)
    ensures
        s@ == call_text(procedure@, table@, rest@),
{
    let mut s = String::from_str("CALL catalog.system.");
    s.append(procedure);
    s.append("(table => '");
    s.append(table.as_str());
    s.append("'");
    s.append(rest);
    proof {
        assert(s@ =~= call_text(procedure@, table@, rest@));
    }
    s
}

} // verus!

verus! {

/// Every built-in health check.
#[derive(Clone, Copy, Debug, PartialEq, Eq, Structural)]
pub enum HealthCheck {
    SmallFiles,
    SnapshotBloat,
    OrphanFiles,
    PartitionSkew,
    DeletePressure,
    SchemaHistory,
    MetadataSize,
    SortOrder,
    Freshness,
    FormatV1,
    PropertiesDrift,
    PartitionSpecEvolution,
    SortCompliance,
    StatsCoverage,
    BranchHealth,
}

/// The built-in checks, in report order.
pub open spec fn all_checks_spec() -> Seq<HealthCheck> {
    seq![
        HealthCheck::SmallFiles,
        HealthCheck::SnapshotBloat,
        HealthCheck::OrphanFiles,
        HealthCheck::PartitionSkew,
        HealthCheck::DeletePressure,
        HealthCheck::SchemaHistory,
        HealthCheck::MetadataSize,
        HealthCheck::SortOrder,
        HealthCheck::Freshness,
        HealthCheck::FormatV1,
        HealthCheck::PropertiesDrift,
        HealthCheck::PartitionSpecEvolution,
        HealthCheck::SortCompliance,
        HealthCheck::StatsCoverage,
        HealthCheck::BranchHealth,
    ]
}

/// Returns all built-in health checks, in report order.
pub fn all_checks() -> (r: Vec<HealthCheck>)
    ensures
        r@ == all_checks_spec(),
{
    let r = vec![
        HealthCheck::SmallFiles,
        HealthCheck::SnapshotBloat,
        HealthCheck::OrphanFiles,
        HealthCheck::PartitionSkew,
        HealthCheck::DeletePressure,
        HealthCheck::SchemaHistory,
        HealthCheck::MetadataSize,
        HealthCheck::SortOrder,
        HealthCheck::Freshness,
        HealthCheck::FormatV1,
        HealthCheck::PropertiesDrift,
        HealthCheck::PartitionSpecEvolution,
        HealthCheck::SortCompliance,
        HealthCheck::StatsCoverage,
        HealthCheck::BranchHealth,
    ];
    proof {
        assert(r@ =~= all_checks_spec());
    }
    r
}

impl HealthCheck {
    /// Machine-readable check ID.
    pub open spec fn id_spec(self) -> Seq<char> {
        match self {
            HealthCheck::SmallFiles => "small_files"@,
            HealthCheck::SnapshotBloat => "snapshot_bloat"@,
            HealthCheck::OrphanFiles => "orphan_files"@,
            HealthCheck::PartitionSkew => "partition_skew"@,
            HealthCheck::DeletePressure => "delete_pressure"@,
            HealthCheck::SchemaHistory => "schema_history"@,
            HealthCheck::MetadataSize => "metadata_size"@,
            HealthCheck::SortOrder => "sort_order"@,
            HealthCheck::Freshness => "freshness"@,
            HealthCheck::FormatV1 => "format_v1"@,
            HealthCheck::PropertiesDrift => "properties_drift"@,
            HealthCheck::PartitionSpecEvolution => "partition_spec_evolution"@,
            HealthCheck::SortCompliance => "sort_compliance"@,
            HealthCheck::StatsCoverage => "stats_coverage"@,
            HealthCheck::BranchHealth => "branch_health"@,
        }
    }

    /// Human-readable check name.
    pub open spec fn name_spec(self) -> Seq<char> {
        match self {
            HealthCheck::SmallFiles => "Small Files"@,
            HealthCheck::SnapshotBloat => "Snapshot Bloat"@,
            HealthCheck::OrphanFiles => "Orphan Files"@,
            HealthCheck::PartitionSkew => "Partition Skew"@,
            HealthCheck::DeletePressure => "Delete File Pressure"@,
            HealthCheck::SchemaHistory => "Schema Evolution"@,
            HealthCheck::MetadataSize => "Metadata Size"@,
            HealthCheck::SortOrder => "Sort Order Health"@,
            HealthCheck::Freshness => "Table Freshness"@,
            HealthCheck::FormatV1 => "Format Version"@,
            HealthCheck::PropertiesDrift => "Properties Drift"@,
            HealthCheck::PartitionSpecEvolution => "Partition Spec Evolution"@,
            HealthCheck::SortCompliance => "Sort Compliance"@,
            HealthCheck::StatsCoverage => "Statistics Coverage"@,
            HealthCheck::BranchHealth => "Branch Health"@,
        }
    }

    /// The inputs on which the check is defined.
    pub open spec fn defined(self, m: TableMetadata, t: Thresholds, now: i64) -> bool {
        match self {
            HealthCheck::SmallFiles => m.totals_fit(),
            HealthCheck::SnapshotBloat => snapshot_bloat::snapshot_bloat_defined(m, t, now),
            HealthCheck::OrphanFiles => orphan_files::table_orphans(m).len() > 0 ==> days_before_ok(now, 3),
            HealthCheck::PartitionSkew => m.totals_fit(),
            HealthCheck::DeletePressure => m.totals_fit(),
            HealthCheck::Freshness => freshness::freshness_defined(now),
            HealthCheck::BranchHealth => branch_health::branch_health_defined(m, t, now),
            _ => true,
        }
    }

    /// The severity the check reports.
    pub open spec fn severity_spec(self, m: TableMetadata, t: Thresholds, now: i64) -> Severity {
        match self {
            HealthCheck::SmallFiles => small_files::small_files_severity(m.data_files@, t.small_file_bytes),
            HealthCheck::SnapshotBloat => snapshot_bloat::snapshot_bloat_severity(m, t, now),
            HealthCheck::OrphanFiles => {
                let n = orphan_files::table_orphans(m).len();
                if n == 0 { Severity::Pass } else { Severity::Warning }
            },
            HealthCheck::PartitionSkew => partition_skew::partition_skew_severity(m, t),
            HealthCheck::DeletePressure => delete_pressure::delete_pressure_severity(m, t),
            HealthCheck::SchemaHistory => schema_history::schema_history_severity(m.schemas@),
            HealthCheck::MetadataSize => metadata_size::metadata_size_severity(m.metadata_size_bytes, t.max_metadata_bytes),
            HealthCheck::SortOrder => Severity::Pass,
            HealthCheck::Freshness => freshness::freshness_severity(m, t, now),
            HealthCheck::FormatV1 => if m.format_version >= 2 { Severity::Pass } else { Severity::Warning },
            HealthCheck::PropertiesDrift => properties_drift::drift_severity(m, t),
            HealthCheck::PartitionSpecEvolution => partition_spec_evolution::spec_evolution_severity(m, t),
            HealthCheck::SortCompliance => sort_compliance::sort_compliance_severity(m, t),
            HealthCheck::StatsCoverage => stats_coverage::stats_coverage_severity(m, t),
            HealthCheck::BranchHealth => {
                if branch_health::extra_refs(m.refs@).len() == 0 {
                    Severity::Pass
                } else {
                    branch_health::branch_health_severity(m, t, now)
                }
            },
        }
    }

    /// The finding `f` is what the check reports for `m` under `t` at
    /// instant `now`: exactly what that check's own `check` states.
    pub open spec fn finding_spec(self, f: Finding, m: TableMetadata, t: Thresholds, now: i64) -> bool {
        match self {
            HealthCheck::SmallFiles => small_files::small_files_finding(f, m, t),
            HealthCheck::SnapshotBloat => snapshot_bloat::snapshot_bloat_finding(f, m, t, now),
            HealthCheck::OrphanFiles => orphan_files::orphan_files_finding(f, m, t, now),
            HealthCheck::PartitionSkew => partition_skew::partition_skew_finding(f, m, t),
            HealthCheck::DeletePressure => delete_pressure::delete_pressure_finding(f, m, t),
            HealthCheck::SchemaHistory => schema_history::schema_history_finding(f, m, t),
            HealthCheck::MetadataSize => metadata_size::metadata_size_finding(f, m, t),
            HealthCheck::SortOrder => sort_order::sort_order_finding(f, m, t),
            HealthCheck::Freshness => freshness::freshness_finding(f, m, t, now),
            HealthCheck::FormatV1 => format_v1::format_v1_finding(f, m, t),
            HealthCheck::PropertiesDrift => properties_drift::properties_drift_finding(f, m, t),
            HealthCheck::PartitionSpecEvolution => partition_spec_evolution::partition_spec_evolution_finding(f, m, t),
            HealthCheck::SortCompliance => sort_compliance::sort_compliance_finding(f, m, t),
            HealthCheck::StatsCoverage => stats_coverage::stats_coverage_finding(f, m, t),
            HealthCheck::BranchHealth => branch_health::branch_health_finding(f, m, t, now),
        }
    }

    /// Machine-readable check ID (e.g. "small_files").
    pub fn id(&self) -> (s: &'static str)
        ensures
            s@ == self.id_spec(),
    {
        match self {
            HealthCheck::SmallFiles => small_files::SmallFilesCheck.id(),
            HealthCheck::SnapshotBloat => snapshot_bloat::SnapshotBloatCheck.id(),
            HealthCheck::OrphanFiles => orphan_files::OrphanFilesCheck.id(),
            HealthCheck::PartitionSkew => partition_skew::PartitionSkewCheck.id(),
            HealthCheck::DeletePressure => delete_pressure::DeletePressureCheck.id(),
            HealthCheck::SchemaHistory => schema_history::SchemaHistoryCheck.id(),
            HealthCheck::MetadataSize => metadata_size::MetadataSizeCheck.id(),
            HealthCheck::SortOrder => sort_order::SortOrderCheck.id(),
            HealthCheck::Freshness => freshness::FreshnessCheck.id(),
            HealthCheck::FormatV1 => format_v1::FormatV1Check.id(),
            HealthCheck::PropertiesDrift => properties_drift::PropertiesDriftCheck.id(),
            HealthCheck::PartitionSpecEvolution => partition_spec_evolution::PartitionSpecEvolutionCheck.id(),
            HealthCheck::SortCompliance => sort_compliance::SortComplianceCheck.id(),
            HealthCheck::StatsCoverage => stats_coverage::StatsCoverageCheck.id(),
            HealthCheck::BranchHealth => branch_health::BranchHealthCheck.id(),
        }
    }

    /// Human-readable check name.
    pub fn name(&self) -> (s: &'static str)
        ensures
            s@ == self.name_spec(),
    {
        match self {
            HealthCheck::SmallFiles => small_files::SmallFilesCheck.name(),
            HealthCheck::SnapshotBloat => snapshot_bloat::SnapshotBloatCheck.name(),
            HealthCheck::OrphanFiles => orphan_files::OrphanFilesCheck.name(),
            HealthCheck::PartitionSkew => partition_skew::PartitionSkewCheck.name(),
            HealthCheck::DeletePressure => delete_pressure::DeletePressureCheck.name(),
            HealthCheck::SchemaHistory => schema_history::SchemaHistoryCheck.name(),
            HealthCheck::MetadataSize => metadata_size::MetadataSizeCheck.name(),
            HealthCheck::SortOrder => sort_order::SortOrderCheck.name(),
            HealthCheck::Freshness => freshness::FreshnessCheck.name(),
            HealthCheck::FormatV1 => format_v1::FormatV1Check.name(),
            HealthCheck::PropertiesDrift => properties_drift::PropertiesDriftCheck.name(),
            HealthCheck::PartitionSpecEvolution => partition_spec_evolution::PartitionSpecEvolutionCheck.name(),
            HealthCheck::SortCompliance => sort_compliance::SortComplianceCheck.name(),
            HealthCheck::StatsCoverage => stats_coverage::StatsCoverageCheck.name(),
            HealthCheck::BranchHealth => branch_health::BranchHealthCheck.name(),
        }
    }

    /// Runs the check; `now_ms` is the instant the time-dependent checks
    /// measure ages against. The finding is the one that check states in
    /// full (`finding_spec`).
    pub fn check(&self, metadata: &TableMetadata, thresholds: &Thresholds, now_ms: i64) -> (f: Finding)
        requires
            self.defined(*metadata, *thresholds, now_ms),
        ensures
            f.check_id@ == self.id_spec(),
            f.check_name@ == self.name_spec(),
            f.severity == self.severity_spec(*metadata, *thresholds, now_ms),
            self.finding_spec(f, *metadata, *thresholds, now_ms),
    {
        match self {
            HealthCheck::SmallFiles => small_files::SmallFilesCheck.check(metadata, thresholds),
            HealthCheck::SnapshotBloat => snapshot_bloat::SnapshotBloatCheck.check(metadata, thresholds, now_ms),
            HealthCheck::OrphanFiles => orphan_files::OrphanFilesCheck.check(metadata, thresholds, now_ms),
            HealthCheck::PartitionSkew => partition_skew::PartitionSkewCheck.check(metadata, thresholds),
            HealthCheck::DeletePressure => delete_pressure::DeletePressureCheck.check(metadata, thresholds),
            HealthCheck::SchemaHistory => schema_history::SchemaHistoryCheck.check(metadata, thresholds),
            HealthCheck::MetadataSize => metadata_size::MetadataSizeCheck.check(metadata, thresholds),
            HealthCheck::SortOrder => sort_order::SortOrderCheck.check(metadata, thresholds),
            HealthCheck::Freshness => freshness::FreshnessCheck.check(metadata, thresholds, now_ms),
            HealthCheck::FormatV1 => format_v1::FormatV1Check.check(metadata, thresholds),
            HealthCheck::PropertiesDrift => properties_drift::PropertiesDriftCheck.check(metadata, thresholds),
            HealthCheck::PartitionSpecEvolution => partition_spec_evolution::PartitionSpecEvolutionCheck.check(metadata, thresholds),
            HealthCheck::SortCompliance => sort_compliance::SortComplianceCheck.check(metadata, thresholds),
            HealthCheck::StatsCoverage => stats_coverage::StatsCoverageCheck.check(metadata, thresholds),
            HealthCheck::BranchHealth => branch_health::BranchHealthCheck.check(metadata, thresholds, now_ms),
        }
    }
}

} // verus!

verus! {

impl HealthCheck {
    /// Whether the check is defined on these inputs (see `defined`).
    pub fn is_defined(&self, metadata: &TableMetadata, thresholds: &Thresholds, now: i64) -> (b: bool)
        requires
            metadata.totals_fit(),
            chrono_ms_in_range(now as int),
        ensures
            b == self.defined(*metadata, *thresholds, now),
    {
        match self {
            HealthCheck::SnapshotBloat => {
                if metadata.snapshots.len() == 0 {
                    return true;
                }
                proof {
                    snapshot_bloat::lemma_instants(metadata.snapshots@);
                }
                let oldest = snapshot_bloat::oldest_snapshot_instant(&metadata.snapshots);
                let age = crate::clock::days_between(now, oldest);
                let flagged = metadata.snapshots.len() as u64 > thresholds.max_snapshots
                    || age > #[verifier::truncate] (thresholds.max_snapshot_age_days as i64);
                !flagged || days_before_ok_exec(now, thresholds.max_snapshot_age_days)
            },
            HealthCheck::OrphanFiles => {
                let orphans = orphan_files::find_orphans(metadata);
                orphans.len() == 0 || days_before_ok_exec(now, 3)
            },
            HealthCheck::BranchHealth => {
                let main = lit("main");
                let mut any_extra = false;
                let mut i: usize = 0;
                while i < metadata.refs.len()
                    invariant
                        i <= metadata.refs@.len(),
                        main@ == "main"@,
                        any_extra == (branch_health::extra_refs(metadata.refs@.take(i as int)).len() > 0),
                    decreases metadata.refs@.len() - i,
                {
                    proof {
                        assert(metadata.refs@.take(i + 1).drop_last() =~= metadata.refs@.take(i as int));
                    }
                    if !(metadata.refs[i].0 == main) {
                        any_extra = true;
                    }
                    i = i + 1;
                }
                proof {
                    assert(metadata.refs@.take(metadata.refs@.len() as int) =~= metadata.refs@);
                }
                let days = #[verifier::truncate] (thresholds.stale_branch_days as i64);
                !any_extra || (-106_751_991_167 <= days && days <= 106_751_991_167)
            },
            _ => true,
        }
    }
}

} // verus!
