//! The health check engine: runs checks against table metadata and builds
//! the report.

use vstd::prelude::*;
use crate::checks::{all_checks, all_checks_spec, HealthCheck};
use crate::clock::{chrono_ms_in_range, days_before_ok, now_ms};
use crate::config::{FrostConfig, Thresholds};
use crate::metadata::{data_bytes, data_records, total_data_bytes, total_data_records, TableMetadata};
use crate::report::{count_severity, worst_severity, Finding, HealthReport, OverallStatus, Severity, TableSummary};

verus! {

/// Every check in `checks` is defined on these inputs.
pub open spec fn all_defined(checks: Seq<HealthCheck>, m: TableMetadata, t: Thresholds, now: i64) -> bool {
    forall|i: int| 0 <= i < checks.len() ==> (#[trigger] checks[i]).defined(m, t, now)
}

/// `r` is the report of running `checks` on `m` at instant `now`: one
/// finding per check, in order, each exactly what its check reports
/// (`finding_spec`); the overall status
/// over those findings; the table's counts and totals.
pub open spec fn is_report(r: HealthReport, checks: Seq<HealthCheck>, m: TableMetadata, t: Thresholds, now: i64) -> bool {
    &&& r.table_name@ == m.table_name@
    &&& r.location@ == m.location@
    &&& r.generated_at_ms == now
    &&& r.findings@.len() == checks.len()
    &&& forall|i: int| 0 <= i < checks.len() ==> {
        &&& (#[trigger] r.findings@[i]).check_id@ == checks[i].id_spec()
        &&& r.findings@[i].check_name@ == checks[i].name_spec()
        &&& r.findings@[i].severity == checks[i].severity_spec(m, t, now)
        &&& checks[i].finding_spec(r.findings@[i], m, t, now)
    }
    &&& r.overall.severity == worst_severity(r.findings@)
    &&& r.overall.pass_count == count_severity(r.findings@, Severity::Pass)
    &&& r.overall.warning_count == count_severity(r.findings@, Severity::Warning)
    &&& r.overall.critical_count == count_severity(r.findings@, Severity::Critical)
    &&& r.summary.snapshot_count == m.snapshots@.len()
    &&& r.summary.data_file_count == m.data_files@.len()
    &&& r.summary.total_size_bytes == data_bytes(m.data_files@)
    &&& r.summary.total_record_count == data_records(m.data_files@)
}

/// Runs `checks` against `metadata` at instant `now_ms` and builds the report.
pub fn check_table_at(metadata: &TableMetadata, thresholds: &Thresholds, checks: &[HealthCheck], now_ms: i64) -> (r: HealthReport)
    requires
        metadata.totals_fit(),
        all_defined(checks@, *metadata, *thresholds, now_ms),
    ensures
        is_report(r, checks@, *metadata, *thresholds, now_ms),
{
    let mut findings: Vec<Finding> = Vec::new();
    let mut i: usize = 0;
    while i < checks.len()
        invariant
            i <= checks@.len(),
            all_defined(checks@, *metadata, *thresholds, now_ms),
            findings@.len() == i,
            forall|k: int| 0 <= k < i ==> {
                &&& (#[trigger] findings@[k]).check_id@ == checks@[k].id_spec()
                &&& findings@[k].check_name@ == checks@[k].name_spec()
                &&& findings@[k].severity == checks@[k].severity_spec(*metadata, *thresholds, now_ms)
                &&& checks@[k].finding_spec(findings@[k], *metadata, *thresholds, now_ms)
            },
        decreases checks@.len() - i,
    {
        let c = checks[i];
        proof {
            assert(checks@[i as int].defined(*metadata, *thresholds, now_ms));
        }
        findings.push(c.check(metadata, thresholds, now_ms));
        i = i + 1;
    }
    let overall = HealthReport::compute_overall(findings.as_slice());
    let summary = TableSummary {
        snapshot_count: metadata.snapshots.len() as u64,
        data_file_count: metadata.data_files.len() as u64,
        total_size_bytes: total_data_bytes(&metadata.data_files),
        total_record_count: total_data_records(&metadata.data_files),
    };
    HealthReport {
        table_name: metadata.table_name.clone(),
        location: metadata.location.clone(),
        summary,
        findings,
        overall,
        generated_at_ms: now_ms,
    }
}

/// Whether every check in `checks` is defined at instant `now`.
pub fn checks_defined_at(checks: &[HealthCheck], metadata: &TableMetadata, thresholds: &Thresholds, now: i64) -> (b: bool)
    requires
        chrono_ms_in_range(now as int),
        metadata.totals_fit(),
    ensures
        b == all_defined(checks@, *metadata, *thresholds, now),
{
    let mut i: usize = 0;
    while i < checks.len()
        invariant
            i <= checks@.len(),
            chrono_ms_in_range(now as int),
            metadata.totals_fit(),
            forall|k: int| 0 <= k < i ==> (#[trigger] checks@[k]).defined(*metadata, *thresholds, now),
        decreases checks@.len() - i,
    {
        if !checks[i].is_defined(metadata, thresholds, now) {
            return false;
        }
        i = i + 1;
    }
    true
}

/// The thresholds' day spans can be taken back from any instant since the
/// epoch: the snapshot age limit and the branch staleness limit.
pub open spec fn spans_representable(t: Thresholds) -> bool {
    &&& t.max_snapshot_age_days <= 96_465_293
    &&& t.stale_branch_days <= 106_751_991_167
}

/// Every check is defined on a table whose totals fit, at an instant since
/// the epoch, when the thresholds' spans are representable.
pub proof fn lemma_defined_since_epoch(c: HealthCheck, m: TableMetadata, t: Thresholds, now: i64)
    requires
        m.totals_fit(),
        0 <= now,
        chrono_ms_in_range(now as int),
        spans_representable(t),
    ensures
        c.defined(m, t, now),
{
    let d = t.max_snapshot_age_days as int;
    assert(d * 86_400_000 <= 96_465_293 * 86_400_000) by (nonlinear_arith)
        requires 0 <= d <= 96_465_293;
    let b = t.stale_branch_days as int;
    assert(b * 86400 <= 106_751_991_167 * 86400) by (nonlinear_arith)
        requires 0 <= b <= 106_751_991_167;
    assert(0 <= b * 86400) by (nonlinear_arith)
        requires 0 <= b;
    assert(days_before_ok(now, d));
    assert(days_before_ok(now, 3));
    assert(crate::checks::branch_health::stale_days(t) == b);
    assert(crate::checks::branch_health::day_span_ok(crate::checks::branch_health::stale_days(t)));
}

/// Runs `checks` against `metadata` at the current instant. `None` when
/// some check is undefined at the instant read (a retention cutoff or span
/// that the clock library cannot represent), which representable spans
/// rule out; the report otherwise.
pub fn check_table_with_checks(metadata: &TableMetadata, thresholds: &Thresholds, checks: &[HealthCheck]) -> (r: Option<HealthReport>)
    requires
        metadata.totals_fit(),
    ensures
        r matches Some(rep) ==> {
            &&& chrono_ms_in_range(rep.generated_at_ms as int)
            &&& all_defined(checks@, *metadata, *thresholds, rep.generated_at_ms)
            &&& is_report(rep, checks@, *metadata, *thresholds, rep.generated_at_ms)
        },
        r is None ==> exists|t: i64| 0 <= t && chrono_ms_in_range(t as int) && !all_defined(checks@, *metadata, *thresholds, t),
        spans_representable(*thresholds) ==> r is Some,
{
    let now = now_ms();
    proof {
        if spans_representable(*thresholds) {
            assert forall|i: int| 0 <= i < checks@.len() implies (#[trigger] checks@[i]).defined(*metadata, *thresholds, now) by {
                lemma_defined_since_epoch(checks@[i], *metadata, *thresholds, now);
            }
        }
    }
    if checks_defined_at(checks, metadata, thresholds, now) {
        Some(check_table_at(metadata, thresholds, checks, now))
    } else {
        None
    }
}

/// Runs all built-in checks with the configured thresholds.
pub fn check_table(metadata: &TableMetadata, config: &FrostConfig) -> (r: Option<HealthReport>)
    requires
        metadata.totals_fit(),
    ensures
        r matches Some(rep) ==> is_report(rep, all_checks_spec(), *metadata, config.thresholds, rep.generated_at_ms),
        r is None ==> exists|t: i64| 0 <= t && chrono_ms_in_range(t as int)
            && !all_defined(all_checks_spec(), *metadata, config.thresholds, t),
        spans_representable(config.thresholds) ==> r is Some,
{
    let checks = all_checks();
    check_table_with_checks(metadata, &config.thresholds, checks.as_slice())
}

/// The checks of `all` whose ID is among `ids`, in order.
pub open spec fn select_checks(all: Seq<HealthCheck>, ids: Seq<&str>) -> Seq<HealthCheck>
    decreases all.len(),
{
    if all.len() == 0 {
        Seq::empty()
    } else if exists|j: int| 0 <= j < ids.len() && ids[j]@ == all.last().id_spec() {
        select_checks(all.drop_last(), ids).push(all.last())
    } else {
        select_checks(all.drop_last(), ids)
    }
}

fn id_listed(ids: &[&str], id: &str) -> (b: bool)
    ensures
        b == exists|j: int| 0 <= j < ids@.len() && ids@[j]@ == id@,
{
    let wanted = String::from_str(id);
    let mut j: usize = 0;
    while j < ids.len()
        invariant
            j <= ids@.len(),
            wanted@ == id@,
            forall|k: int| 0 <= k < j ==> ids@[k]@ != id@,
        decreases ids@.len() - j,
    {
        let candidate = String::from_str(ids[j]);
        if candidate == wanted {
            return true;
        }
        j = j + 1;
    }
    false
}

/// The built-in checks whose ID is among `check_ids`, in report order.
pub fn select_checks_by_id(check_ids: &[&str]) -> (r: Vec<HealthCheck>)
    ensures
        r@ == select_checks(all_checks_spec(), check_ids@),
{
    let all = all_checks();
    let mut r: Vec<HealthCheck> = Vec::new();
    let mut i: usize = 0;
    while i < all.len()
        invariant
            i <= all@.len(),
            all@ == all_checks_spec(),
            r@ == select_checks(all@.take(i as int), check_ids@),
        decreases all@.len() - i,
    {
        proof {
            assert(all@.take(i + 1).drop_last() =~= all@.take(i as int));
            assert(all@.take(i + 1).last() == all@[i as int]);
        }
        let c = all[i];
        if id_listed(check_ids, c.id()) {
            r.push(c);
        }
        i = i + 1;
    }
    proof {
        assert(all@.take(all@.len() as int) =~= all@);
    }
    r
}

/// Runs the built-in checks whose ID is among `check_ids`.
pub fn check_table_filtered(metadata: &TableMetadata, thresholds: &Thresholds, check_ids: &[&str]) -> (r: Option<HealthReport>)
    requires
        metadata.totals_fit(),
    ensures
        r matches Some(rep) ==> is_report(rep, select_checks(all_checks_spec(), check_ids@), *metadata, *thresholds,
            rep.generated_at_ms),
        r is None ==> exists|t: i64| 0 <= t && chrono_ms_in_range(t as int)
            && !all_defined(select_checks(all_checks_spec(), check_ids@), *metadata, *thresholds, t),
        spans_representable(*thresholds) ==> r is Some,
{
    let selected = select_checks_by_id(check_ids);
    check_table_with_checks(metadata, thresholds, selected.as_slice())
}

/// `id` is among `ids`.
pub open spec fn id_among(ids: Seq<&str>, id: Seq<char>) -> bool {
    exists|j: int| 0 <= j < ids.len() && ids[j]@ == id
}

/// The test of a check against the listed IDs.
pub open spec fn listed(ids: Seq<&str>) -> spec_fn(HealthCheck) -> bool {
    |c: HealthCheck| id_among(ids, c.id_spec())
}

/// Filtering by ID keeps the checks whose ID is listed, each once, in the
/// order of `all`; unknown and repeated IDs change nothing, and with no
/// listed ID known nothing is selected.
pub proof fn law_select_checks(all: Seq<HealthCheck>, ids: Seq<&str>)
    ensures
        select_checks(all, ids) == all.filter(listed(ids)),
        (forall|i: int| 0 <= i < all.len() ==> !id_among(ids, (#[trigger] all[i]).id_spec()))
            ==> select_checks(all, ids).len() == 0,
    decreases all.len(),
{
    reveal(Seq::filter);
    if all.len() == 0 {
        assert(all =~= Seq::<HealthCheck>::empty());
    } else {
        law_select_checks(all.drop_last(), ids);
        let p = listed(ids);
        assert(p(all.last()) == id_among(ids, all.last().id_spec()));
        assert(all.filter(p) == if p(all.last()) {
            all.drop_last().filter(p).push(all.last())
        } else {
            all.drop_last().filter(p)
        });
        if forall|i: int| 0 <= i < all.len() ==> !id_among(ids, (#[trigger] all[i]).id_spec()) {
            assert(!id_among(ids, all[all.len() - 1].id_spec()));
            assert forall|i: int| 0 <= i < all.drop_last().len() implies !id_among(ids, (#[trigger] all.drop_last()[i]).id_spec()) by {
                assert(all.drop_last()[i] == all[i]);
            }
        }
    }
}

/// A report over no checks has no findings and passes.
pub proof fn law_empty_report_passes(r: HealthReport, m: TableMetadata, t: Thresholds, now: i64)
    requires
        is_report(r, Seq::empty(), m, t, now),
    ensures
        r.findings@.len() == 0,
        r.overall.severity == Severity::Pass,
{
    assert(count_severity(r.findings@, Severity::Critical) == 0);
    assert(count_severity(r.findings@, Severity::Warning) == 0);
}

} // verus!
