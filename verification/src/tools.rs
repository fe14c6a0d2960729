//! Parameters and responses of the agent-facing tools (MCP), and the
//! catalog roll-up they report.

use vstd::prelude::*;
use crate::fleet::{lemma_sort_ranked_sorted, rank_ge, sort_by_rank, sort_ranked};
use crate::report::{HealthReport, Severity};
use crate::clock::{chrono_ms_in_range, format_utc_rfc3339, utc_rfc3339_text};
use crate::text::{dec, u64_text};
use crate::watch::{StoredReport, WatchAlert};

verus! {

pub struct CheckTableParams {
    /// Table identifier (e.g. "db.events").
    pub table: String,
    /// Check IDs to run (default: all).
    pub checks: Option<Vec<String>>,
}

pub struct CheckCatalogParams {
    /// Namespace filter (e.g. "production").
    pub namespace: Option<String>,
}

pub struct CheckFleetParams {
    /// Namespace filter.
    pub namespace: Option<String>,
    /// Days since the last commit before a table is dormant. Default: 90.
    pub dormant_days: Option<i64>,
}

pub struct GetFixParams {
    /// Table identifier (e.g. "db.events").
    pub table: String,
    /// Finding ID to generate a fix for (e.g. "small_files").
    pub finding_id: String,
}

pub struct DryRunFixParams {
    /// Table identifier (e.g. "db.events").
    pub table: String,
    /// Finding ID to dry-run (e.g. "small_files").
    pub finding_id: String,
}

pub struct GetCostReportParams {
    /// Table identifier (e.g. "db.events").
    pub table: String,
}

pub struct WatchStatusParams {
    /// Table identifier (default: all watched tables).
    pub table: Option<String>,
    /// Include rolling trend signals.
    pub include_trend: Option<bool>,
    /// Lookback window for trends, in days. Default: 7.
    pub trend_days: Option<i64>,
}

pub struct CatalogSummary {
    pub tables_checked: usize,
    pub tables_healthy: usize,
    pub tables_warning: usize,
    pub tables_critical: usize,
    /// Most severe first: critical, warning, unreadable ("ERROR"), healthy.
    pub table_reports: Vec<TableBrief>,
}

pub struct TableBrief {
    pub table_name: String,
    pub severity: String,
    pub finding_count: usize,
    pub critical_count: usize,
    pub warning_count: usize,
}

pub struct WatchStatusResponse {
    pub status: String,
    pub message: String,
    pub tables_watched: Option<usize>,
    pub table_health: Option<Vec<WatchTableHealth>>,
    pub recent_alerts: Option<Vec<WatchAlertBrief>>,
}

pub struct WatchTableHealth {
    pub table_name: String,
    pub severity: String,
    pub finding_count: usize,
    pub last_checked: String,
}

pub struct WatchAlertBrief {
    pub table_name: String,
    pub message: String,
    pub alerted_at: String,
}

/// Position of a table in the roll-up: critical, warning, unreadable, healthy.
pub open spec fn outcome_rank(r: Option<HealthReport>) -> nat {
    match r {
        Some(rep) => match rep.overall.severity {
            Severity::Critical => 0,
            Severity::Warning => 1,
            Severity::Pass => 3,
        },
        None => 2,
    }
}

/// Rank entries: earlier positions rank higher; ties keep table order.
pub open spec fn outcome_ranks(results: Seq<(String, Option<HealthReport>)>) -> Seq<(u64, u64, usize)> {
    Seq::new(results.len(), |i: int| ((3 - outcome_rank(results[i].1)) as u64, 0u64, i as usize))
}

/// Tables whose report has overall severity `s`.
pub open spec fn outcome_count(results: Seq<(String, Option<HealthReport>)>, s: Severity) -> nat
    decreases results.len(),
{
    if results.len() == 0 {
        0
    } else {
        outcome_count(results.drop_last(), s) + if results.last().1 matches Some(r) && r.overall.severity == s { 1nat } else { 0nat }
    }
}

/// `b` is the brief of `r`: its severity label, finding and failure counts;
/// `ERROR` and zeros for a table that could not be read.
pub open spec fn is_brief(b: TableBrief, r: (String, Option<HealthReport>)) -> bool {
    &&& b.table_name@ == r.0@
    &&& match r.1 {
        Some(rep) => {
            &&& b.severity@ == rep.overall.severity.label_spec()
            &&& b.finding_count == rep.findings@.len()
            &&& b.critical_count == rep.overall.critical_count
            &&& b.warning_count == rep.overall.warning_count
        },
        None => b.severity@ == "ERROR"@ && b.finding_count == 0 && b.critical_count == 0 && b.warning_count == 0,
    }
}

proof fn lemma_rank_entry(results: Seq<(String, Option<HealthReport>)>, e: (u64, u64, usize))
    requires
        outcome_ranks(results).contains(e),
        results.len() <= usize::MAX,
    ensures
        0 <= e.2 < results.len(),
        e == outcome_ranks(results)[e.2 as int],
        e.0 == 3 - outcome_rank(results[e.2 as int].1),
{
    let j = choose|j: int| 0 <= j < outcome_ranks(results).len() && outcome_ranks(results)[j] == e;
    assert(e.2 == j);
}

/// The catalog roll-up lists every table exactly once, most severe first:
/// critical, then warning, then unreadable, then healthy.
pub proof fn law_catalog_order(results: Seq<(String, Option<HealthReport>)>)
    requires
        results.len() <= usize::MAX,
    ensures
        sort_ranked(outcome_ranks(results)).len() == results.len(),
        forall|k: int, l: int| 0 <= k < l < results.len() ==>
            outcome_rank(results[(#[trigger] sort_ranked(outcome_ranks(results))[k]).2 as int].1)
                <= outcome_rank(results[(#[trigger] sort_ranked(outcome_ranks(results))[l]).2 as int].1),
        forall|i: int| 0 <= i < results.len() ==> exists|k: int| 0 <= k < results.len()
            && sort_ranked(outcome_ranks(results))[k] == #[trigger] outcome_ranks(results)[i],
        forall|k: int, l: int| 0 <= k < results.len() && 0 <= l < results.len() && k != l ==>
            (#[trigger] sort_ranked(outcome_ranks(results))[k]).2 != (#[trigger] sort_ranked(outcome_ranks(results))[l]).2,
{
    broadcast use vstd::seq_lib::group_to_multiset_ensures;
    let s = outcome_ranks(results);
    let o = sort_ranked(s);
    lemma_sort_ranked_sorted(s);
    assert forall|k: int| 0 <= k < o.len() implies s.contains(#[trigger] o[k]) by {
        assert(o.to_multiset().count(o[k]) > 0);
    }
    assert forall|k: int, l: int| 0 <= k < l < results.len() implies
        outcome_rank(results[(#[trigger] o[k]).2 as int].1) <= outcome_rank(results[(#[trigger] o[l]).2 as int].1) by {
        assert(rank_ge(o[k], o[l]));
        assert(s.contains(o[k]));
        assert(s.contains(o[l]));
        lemma_rank_entry(results, o[k]);
        lemma_rank_entry(results, o[l]);
    }
    assert forall|i: int| 0 <= i < results.len() implies exists|k: int| 0 <= k < results.len() && o[k] == #[trigger] s[i] by {
        assert(s.to_multiset().count(s[i]) > 0);
        assert(o.contains(s[i]));
    }
    assert(s.no_duplicates()) by {
        assert forall|i: int, j: int| 0 <= i < s.len() && 0 <= j < s.len() && i != j implies s[i] != s[j] by {
            assert(s[i].2 == i && s[j].2 == j);
        }
    }
    s.lemma_multiset_has_no_duplicates();
    assert forall|x: (u64, u64, usize)| o.to_multiset().contains(x) implies o.to_multiset().count(x) == 1 by {
        assert(s.to_multiset().contains(x));
    }
    o.lemma_multiset_has_no_duplicates_conv();
    assert forall|k: int, l: int| 0 <= k < results.len() && 0 <= l < results.len() && k != l implies
        (#[trigger] o[k]).2 != (#[trigger] o[l]).2 by {
        assert(s.contains(o[k]));
        assert(s.contains(o[l]));
        lemma_rank_entry(results, o[k]);
        lemma_rank_entry(results, o[l]);
        assert(o[k] != o[l]);
    }
}

/// Rolls up per-table results (a report, or `None` for a table that could
/// not be read): counts per overall severity, and briefs ordered critical,
/// warning, unreadable, healthy, in table order within each group.
pub fn summarize_catalog(results: &Vec<(String, Option<HealthReport>)>) -> (s: CatalogSummary)
    ensures
        s.tables_checked == results@.len(),
        s.tables_healthy == outcome_count(results@, Severity::Pass),
        s.tables_warning == outcome_count(results@, Severity::Warning),
        s.tables_critical == outcome_count(results@, Severity::Critical),
        s.table_reports@.len() == results@.len(),
        forall|k: int| 0 <= k < results@.len() ==> is_brief(#[trigger] s.table_reports@[k],
            results@[sort_ranked(outcome_ranks(results@))[k].2 as int]),
{
    let n = results.len();
    let mut healthy: usize = 0;
    let mut warning: usize = 0;
    let mut critical: usize = 0;
    let mut ranks: Vec<(u64, u64, usize)> = Vec::new();
    let mut i: usize = 0;
    while i < n
        invariant
            n == results@.len(),
            i <= n,
            healthy == outcome_count(results@.take(i as int), Severity::Pass),
            warning == outcome_count(results@.take(i as int), Severity::Warning),
            critical == outcome_count(results@.take(i as int), Severity::Critical),
            healthy + warning + critical <= i,
            ranks@ =~= outcome_ranks(results@).take(i as int),
        decreases n - i,
    {
        proof {
            assert(results@.take(i + 1).drop_last() =~= results@.take(i as int));
        }
        let rank: u64 = match &results[i].1 {
            Some(rep) => match rep.overall.severity {
                Severity::Critical => {
                    critical = critical + 1;
                    0
                },
                Severity::Warning => {
                    warning = warning + 1;
                    1
                },
                Severity::Pass => {
                    healthy = healthy + 1;
                    3
                },
            },
            None => 2,
        };
        ranks.push((3 - rank, 0, i));
        i = i + 1;
    }
    proof {
        assert(results@.take(n as int) =~= results@);
        assert(ranks@ =~= outcome_ranks(results@));
        crate::fleet::lemma_sort_ranked(ranks@, n);
    }
    let order = sort_by_rank(&ranks);
    let mut briefs: Vec<TableBrief> = Vec::new();
    let mut k: usize = 0;
    while k < n
        invariant
            n == results@.len(),
            order@ == sort_ranked(outcome_ranks(results@)),
            order@.len() == n,
            forall|j: int| 0 <= j < n ==> (#[trigger] order@[j]).2 < n,
            k <= n,
            briefs@.len() == k,
            forall|j: int| 0 <= j < k ==> is_brief(#[trigger] briefs@[j], results@[order@[j].2 as int]),
        decreases n - k,
    {
        let r = &results[order[k].2];
        let brief = match &r.1 {
            Some(rep) => TableBrief {
                table_name: r.0.clone(),
                severity: rep.overall.severity.label(),
                finding_count: rep.findings.len(),
                critical_count: rep.overall.critical_count,
                warning_count: rep.overall.warning_count,
            },
            None => TableBrief {
                table_name: r.0.clone(),
                severity: String::from_str("ERROR"),
                finding_count: 0,
                critical_count: 0,
                warning_count: 0,
            },
        };
        briefs.push(brief);
        k = k + 1;
    }
    CatalogSummary {
        tables_checked: n,
        tables_healthy: healthy,
        tables_warning: warning,
        tables_critical: critical,
        table_reports: briefs,
    }
}

/// The answer when the watch database cannot be opened.
pub fn watch_status_not_configured(sqlite_path: &str) -> (r: WatchStatusResponse)
    ensures
        r.status@ == "not_configured"@,
        r.message@ == "Watch mode database not found at '"@ + sqlite_path@ + "'. Start it with: frost watch"@,
        r.tables_watched is None,
        r.table_health is None,
        r.recent_alerts is None,
{
    let mut message = String::from_str("Watch mode database not found at '");
    message.append(sqlite_path);
    message.append("'. Start it with: frost watch");
    WatchStatusResponse {
        status: String::from_str("not_configured"),
        message,
        tables_watched: None,
        table_health: None,
        recent_alerts: None,
    }
}

/// `h` reports the stored check `r`.
pub open spec fn is_table_health(h: WatchTableHealth, r: StoredReport) -> bool {
    &&& h.table_name@ == r.table_name@
    &&& h.severity@ == r.severity@
    &&& h.finding_count == r.finding_count
    &&& h.last_checked@ == utc_rfc3339_text(r.checked_at_ms)
}

/// `b` reports the alert `a`.
pub open spec fn is_alert_brief(b: WatchAlertBrief, a: WatchAlert) -> bool {
    &&& b.table_name@ == a.table_name@
    &&& b.message@ == a.message@
    &&& b.alerted_at@ == utc_rfc3339_text(a.alerted_at_ms)
}

/// The watch state as the agent tool reports it, from the latest stored
/// check of each table and the recent alerts: `not_running` when nothing
/// was stored (watch mode has not run); otherwise `has_data` with one entry
/// per table and the alerts (none listed when there are none).
pub fn watch_status_response(latest: &Vec<StoredReport>, alerts: &Vec<WatchAlert>) -> (r: WatchStatusResponse)
    requires
        forall|i: int| 0 <= i < latest@.len() ==> chrono_ms_in_range((#[trigger] latest@[i]).checked_at_ms as int),
        forall|i: int| 0 <= i < alerts@.len() ==> chrono_ms_in_range((#[trigger] alerts@[i]).alerted_at_ms as int),
    ensures
        latest@.len() == 0 ==> {
            &&& r.status@ == "not_running"@
            &&& r.message@ == "Watch database exists but contains no check results. Run 'frost watch' to start monitoring."@
            &&& r.tables_watched == Some(0usize)
            &&& r.table_health is None
            &&& r.recent_alerts is None
        },
        latest@.len() > 0 ==> {
            &&& r.status@ == "has_data"@
            &&& r.message@ == dec(latest@.len()) + " table(s) monitored, "@ + dec(alerts@.len()) + " recent alert(s)"@
            &&& r.tables_watched == Some(latest@.len() as usize)
            &&& r.table_health matches Some(hs) && hs@.len() == latest@.len()
                && forall|i: int| 0 <= i < latest@.len() ==> is_table_health(#[trigger] hs@[i], latest@[i])
            &&& if alerts@.len() == 0 {
                r.recent_alerts is None
            } else {
                r.recent_alerts matches Some(bs) && bs@.len() == alerts@.len()
                    && forall|i: int| 0 <= i < alerts@.len() ==> is_alert_brief(#[trigger] bs@[i], alerts@[i])
            }
        },
{
    if latest.len() == 0 {
        return WatchStatusResponse {
            status: String::from_str("not_running"),
            message: String::from_str(
                "Watch database exists but contains no check results. Run 'frost watch' to start monitoring.",
            ),
            tables_watched: Some(0),
            table_health: None,
            recent_alerts: None,
        };
    }
    let mut health: Vec<WatchTableHealth> = Vec::new();
    let mut i: usize = 0;
    while i < latest.len()
        invariant
            i <= latest@.len(),
            health@.len() == i,
            forall|j: int| 0 <= j < latest@.len() ==> chrono_ms_in_range((#[trigger] latest@[j]).checked_at_ms as int),
            forall|j: int| 0 <= j < i ==> is_table_health(#[trigger] health@[j], latest@[j]),
        decreases latest@.len() - i,
    {
        let r = &latest[i];
        health.push(WatchTableHealth {
            table_name: r.table_name.clone(),
            severity: r.severity.clone(),
            finding_count: r.finding_count,
            last_checked: format_utc_rfc3339(r.checked_at_ms),
        });
        i = i + 1;
    }
    let mut briefs: Vec<WatchAlertBrief> = Vec::new();
    let mut k: usize = 0;
    while k < alerts.len()
        invariant
            k <= alerts@.len(),
            briefs@.len() == k,
            forall|j: int| 0 <= j < alerts@.len() ==> chrono_ms_in_range((#[trigger] alerts@[j]).alerted_at_ms as int),
            forall|j: int| 0 <= j < k ==> is_alert_brief(#[trigger] briefs@[j], alerts@[j]),
        decreases alerts@.len() - k,
    {
        let a = &alerts[k];
        briefs.push(WatchAlertBrief {
            table_name: a.table_name.clone(),
            message: a.message.clone(),
            alerted_at: format_utc_rfc3339(a.alerted_at_ms),
        });
        k = k + 1;
    }
    let mut message = u64_text(health.len() as u64);
    message.append(" table(s) monitored, ");
    message.append(u64_text(briefs.len() as u64).as_str());
    message.append(" recent alert(s)");
    let n = health.len();
    WatchStatusResponse {
        status: String::from_str("has_data"),
        message,
        tables_watched: Some(n),
        table_health: Some(health),
        recent_alerts: if briefs.len() == 0 { None } else { Some(briefs) },
    }
}

} // verus!
