//! Flags tables whose last commit is older than the staleness threshold.

use vstd::prelude::*;
use crate::checks::{entry, lit};
use crate::clock::{chrono_ms_in_range, format_utc_rfc3339, hours_between, utc_rfc3339_text, whole_hours};
use crate::config::Thresholds;
use crate::metadata::TableMetadata;
use crate::report::{has_entry, has_text, keys_are, Detail, Finding, Severity};
use crate::text::{dec, dec_int, i64_text};
use crate::checks::snapshot_bloat::snapshot_instant;

verus! {

pub struct FreshnessCheck;

/// The commit instant of the last snapshot in the list.
pub open spec fn last_commit(m: TableMetadata) -> i64 {
    snapshot_instant(m.snapshots@.last())
}

/// Whole hours from the last commit to `now`.
pub open spec fn hours_since_commit(m: TableMetadata, now: i64) -> int {
    whole_hours(now - last_commit(m))
}

/// The threshold in hours as the check compares it (a signed 64-bit value).
pub open spec fn stale_hours_limit(t: Thresholds) -> i64 {
    t.stale_table_hours as i64
}

/// Whole days in `h` hours, truncated toward zero.
pub open spec fn hours_to_days(h: int) -> int {
    if h >= 0 { h / 24 } else { -((-h) / 24) }
}

pub open spec fn freshness_severity(m: TableMetadata, t: Thresholds, now: i64) -> Severity {
    if m.snapshots@.len() == 0 {
        Severity::Warning
    } else if hours_since_commit(m, now) <= stale_hours_limit(t) {
        Severity::Pass
    } else {
        Severity::Warning
    }
}

/// The check is defined on these inputs: the clock reading is an instant.
pub open spec fn freshness_defined(now: i64) -> bool {
    chrono_ms_in_range(now as int)
}

/// The finding `f` is what the check reports for `m` under `t` at `now`.
pub open spec fn freshness_finding(f: Finding, m: TableMetadata, t: Thresholds, now: i64) -> bool {
    &&& f.check_id@ == "freshness"@
    &&& f.check_name@ == "Table Freshness"@
    &&& f.severity == freshness_severity(m, t, now)
    &&& f.fix_command.is_none()
    &&& f.estimated_savings.is_none()
    &&& (m.snapshots@.len() == 0 ==> {
        &&& f.message@ == "No snapshots — table has never been written to"@
        &&& f.impact@ == "Table exists but contains no data."@
        &&& f.fix_suggestion.is_none()
        &&& has_entry(f.details, "has_snapshots"@, Detail::Bool(false))
        &&& keys_are(f.details, seq!["has_snapshots"@])
    })
    &&& (m.snapshots@.len() > 0 ==> {
        let h = hours_since_commit(m, now);
        &&& has_text(f.details, "last_commit"@, utc_rfc3339_text(last_commit(m)))
        &&& has_entry(f.details, "hours_since_commit"@, Detail::Int(h as i64))
        &&& has_entry(f.details, "threshold_hours"@, Detail::UInt(t.stale_table_hours))
        &&& f.severity == Severity::Pass ==> {
            &&& f.message@ == "Last commit "@ + dec_int(h) + " hours ago (threshold: "@
                + dec(t.stale_table_hours as nat) + " hours)"@
            &&& f.impact@ == Seq::<char>::empty()
            &&& f.fix_suggestion.is_none()
            &&& keys_are(f.details, seq!["last_commit"@, "hours_since_commit"@, "threshold_hours"@])
        }
        &&& f.severity != Severity::Pass ==> {
            &&& keys_are(f.details, seq!["last_commit"@, "hours_since_commit"@, "days_since_commit"@,
                "threshold_hours"@])
            &&& f.message@ == "Table is stale — last commit "@ + dec_int(hours_to_days(h)) + " days ago ("@
                + dec_int(h) + " hours)"@
            &&& f.impact@ == "Stale tables may indicate a broken pipeline, failed scheduler, or decommissioned data source."@
            &&& f.fix_suggestion matches Some(s)
                && s@ == "Investigate the upstream pipeline that writes to this table"@
            &&& has_entry(f.details, "days_since_commit"@, Detail::Int(hours_to_days(h) as i64))
        }
    })
}

impl FreshnessCheck {
    pub fn id(&self) -> (s: &'static str)
        ensures
            s@ == "freshness"@,
    {
        "freshness"
    }

    pub fn name(&self) -> (s: &'static str)
        ensures
            s@ == "Table Freshness"@,
    {
        "Table Freshness"
    }

    /// Warns when the table has no snapshots. Otherwise measures the hours
    /// from the last snapshot's commit to `now_ms`: pass within the
    /// threshold, warning beyond it.
    pub fn check(&self, metadata: &TableMetadata, thresholds: &Thresholds, now_ms: i64) -> (f: Finding)
        requires
            freshness_defined(now_ms),
        ensures
            freshness_finding(f, *metadata, *thresholds, now_ms),
    {
        let n = metadata.snapshots.len();
        if n == 0 {
            let details = Detail::Object(vec![entry("has_snapshots", Detail::Bool(false))]);
            proof {
                assert(details->Object_0@[0].0@ == "has_snapshots"@);
                assert(keys_are(details, seq!["has_snapshots"@]));
            }
            return Finding {
                check_id: lit("freshness"),
                check_name: lit("Table Freshness"),
                severity: Severity::Warning,
                message: lit("No snapshots — table has never been written to"),
                impact: lit("Table exists but contains no data."),
                fix_suggestion: None,
                fix_command: None,
                estimated_savings: None,
                details,
            };
        }
        let last = metadata.snapshots[n - 1].timestamp();
        proof {
            assert(metadata.snapshots@[n - 1] == metadata.snapshots@.last());
        }
        let hours = hours_between(now_ms, last);
        let limit = #[verifier::truncate] (thresholds.stale_table_hours as i64);
        let last_text = format_utc_rfc3339(last);

        if hours <= limit {
            let mut message = lit("Last commit ");
            message.append(i64_text(hours).as_str());
            message.append(" hours ago (threshold: ");
            message.append(crate::text::u64_text(thresholds.stale_table_hours).as_str());
            message.append(" hours)");
            let details = Detail::Object(vec![
                entry("last_commit", Detail::Text(last_text)),
                entry("hours_since_commit", Detail::Int(hours)),
                entry("threshold_hours", Detail::UInt(thresholds.stale_table_hours)),
            ]);
            proof {
                assert(details->Object_0@[0].0@ == "last_commit"@);
                assert(details->Object_0@[1].0@ == "hours_since_commit"@);
                assert(details->Object_0@[2].0@ == "threshold_hours"@);
                assert(keys_are(details, seq!["last_commit"@, "hours_since_commit"@, "threshold_hours"@]));
                assert(message@ =~= "Last commit "@ + dec_int(hours as int) + " hours ago (threshold: "@
                    + dec(thresholds.stale_table_hours as nat) + " hours)"@);
            }
            return crate::checks::pass_finding("freshness", "Table Freshness", message, details);
        }

        let days = hours / 24;
        let severity = Severity::Warning;
        let mut message = lit("Table is stale — last commit ");
        message.append(i64_text(days).as_str());
        message.append(" days ago (");
        message.append(i64_text(hours).as_str());
        message.append(" hours)");
        let details = Detail::Object(vec![
            entry("last_commit", Detail::Text(last_text)),
            entry("hours_since_commit", Detail::Int(hours)),
            entry("days_since_commit", Detail::Int(days)),
            entry("threshold_hours", Detail::UInt(thresholds.stale_table_hours)),
        ]);
        proof {
            assert(details->Object_0@[0].0@ == "last_commit"@);
            assert(details->Object_0@[1].0@ == "hours_since_commit"@);
            assert(details->Object_0@[2].0@ == "days_since_commit"@);
            assert(details->Object_0@[3].0@ == "threshold_hours"@);
            assert(keys_are(details, seq!["last_commit"@, "hours_since_commit"@, "days_since_commit"@, "threshold_hours"@]));
            assert(message@ =~= "Table is stale — last commit "@ + dec_int(days as int) + " days ago ("@
                + dec_int(hours as int) + " hours)"@);
        }
        Finding {
            check_id: lit("freshness"),
            check_name: lit("Table Freshness"),
            severity,
            message,
            impact: lit("Stale tables may indicate a broken pipeline, failed scheduler, or decommissioned data source."),
            fix_suggestion: Some(lit("Investigate the upstream pipeline that writes to this table")),
            fix_command: None,
            estimated_savings: None,
            details,
        }
    }
}

} // verus!

verus! {

/// How the freshness finding grades a table whose snapshots are listed in
/// commit order, with `l` the latest commit: it passes exactly when `l` is
/// at most the threshold's hours old, and warns otherwise; a table without
/// snapshots warns.
pub proof fn law_freshness_grades(f: Finding, m: TableMetadata, t: Thresholds, now: i64, l: i64)
    requires
        freshness_finding(f, m, t, now),
        forall|i: int, j: int| 0 <= i < j < m.snapshots@.len()
            ==> snapshot_instant(#[trigger] m.snapshots@[i]) <= snapshot_instant(#[trigger] m.snapshots@[j]),
        m.snapshots@.len() > 0 ==> exists|i: int| 0 <= i < m.snapshots@.len() && snapshot_instant(#[trigger] m.snapshots@[i]) == l,
        forall|i: int| 0 <= i < m.snapshots@.len() ==> snapshot_instant(#[trigger] m.snapshots@[i]) <= l,
    ensures
        m.snapshots@.len() == 0 ==> f.severity == Severity::Warning,
        m.snapshots@.len() > 0 ==> (f.severity == Severity::Pass <==> whole_hours(now - l) <= t.stale_table_hours as i64),
        f.severity != Severity::Critical,
{
    let s = m.snapshots@;
    if s.len() > 0 {
        let n = s.len() - 1;
        let i = choose|i: int| 0 <= i < s.len() && snapshot_instant(#[trigger] s[i]) == l;
        if i < n {
            assert(snapshot_instant(s[i]) <= snapshot_instant(s[n]));
        }
        assert(snapshot_instant(s[n]) <= l);
        assert(s.last() == s[n]);
        assert(last_commit(m) == l);
    }
}

} // verus!
