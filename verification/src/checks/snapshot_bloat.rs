//! Flags tables that keep too many snapshots, or snapshots that are too old.

use vstd::prelude::*;
use crate::checks::{entry, lit, pass_finding, ratio_text};
use crate::clock::{
    chrono_ms_in_range, days_before_ok, days_between, effective_ms, format_utc_datetime,
    format_utc_rfc3339, utc_datetime_text, utc_rfc3339_text, whole_days,
};
use crate::config::Thresholds;
use crate::metadata::{Snapshot, TableMetadata};
use crate::report::{has_entry, has_text, keys_are, Detail, Finding, Severity};
use crate::text::{dec, dec_int, fraction_text, i64_text, u64_text};

verus! {

pub struct SnapshotBloatCheck;

/// The commit instant of a snapshot as the checks see it.
pub open spec fn snapshot_instant(s: Snapshot) -> i64 {
    effective_ms(s.timestamp_ms)
}

/// The earliest commit instant among `snaps` (meaningful when non-empty).
pub open spec fn oldest_instant(snaps: Seq<Snapshot>) -> i64
    decreases snaps.len(),
{
    if snaps.len() <= 1 {
        snapshot_instant(snaps[0])
    } else {
        let rest = oldest_instant(snaps.drop_last());
        if snapshot_instant(snaps.last()) < rest { snapshot_instant(snaps.last()) } else { rest }
    }
}

/// The latest commit instant among `snaps` (meaningful when non-empty).
pub open spec fn newest_instant(snaps: Seq<Snapshot>) -> i64
    decreases snaps.len(),
{
    if snaps.len() <= 1 {
        snapshot_instant(snaps[0])
    } else {
        let rest = newest_instant(snaps.drop_last());
        if snapshot_instant(snaps.last()) > rest { snapshot_instant(snaps.last()) } else { rest }
    }
}

pub proof fn lemma_instants(snaps: Seq<Snapshot>)
    requires
        snaps.len() > 0,
    ensures
        chrono_ms_in_range(oldest_instant(snaps) as int),
        chrono_ms_in_range(newest_instant(snaps) as int),
        forall|i: int| 0 <= i < snaps.len() ==> oldest_instant(snaps) <= #[trigger] snapshot_instant(snaps[i]),
        forall|i: int| 0 <= i < snaps.len() ==> snapshot_instant(snaps[i]) <= newest_instant(snaps),
        exists|i: int| 0 <= i < snaps.len() && oldest_instant(snaps) == #[trigger] snapshot_instant(snaps[i]),
        exists|i: int| 0 <= i < snaps.len() && newest_instant(snaps) == #[trigger] snapshot_instant(snaps[i]),
    decreases snaps.len(),
{
    if snaps.len() > 1 {
        let rest = snaps.drop_last();
        lemma_instants(rest);
        assert forall|i: int| 0 <= i < snaps.len() implies oldest_instant(snaps) <= #[trigger] snapshot_instant(snaps[i]) by {
            if i < snaps.len() - 1 {
                assert(snaps[i] == rest[i]);
            }
        }
        assert forall|i: int| 0 <= i < snaps.len() implies snapshot_instant(snaps[i]) <= newest_instant(snaps) by {
            if i < snaps.len() - 1 {
                assert(snaps[i] == rest[i]);
            }
        }
        let j = choose|j: int| 0 <= j < rest.len() && oldest_instant(rest) == #[trigger] snapshot_instant(rest[j]);
        assert(snaps[j] == rest[j]);
        assert(snapshot_instant(snaps[snaps.len() - 1]) == snapshot_instant(snaps.last()));
        let k = choose|k: int| 0 <= k < rest.len() && newest_instant(rest) == #[trigger] snapshot_instant(rest[k]);
        assert(snaps[k] == rest[k]);
    } else {
        assert(snapshot_instant(snaps[0]) == oldest_instant(snaps));
    }
}

/// The earliest commit instant of a non-empty list of snapshots.
pub fn oldest_snapshot_instant(snaps: &Vec<Snapshot>) -> (t: i64)
    requires
        snaps@.len() > 0,
    ensures
        t == oldest_instant(snaps@),
{
    let mut best = snaps[0].timestamp();
    let mut i: usize = 1;
    while i < snaps.len()
        invariant
            1 <= i <= snaps@.len(),
            best == oldest_instant(snaps@.take(i as int)),
        decreases snaps@.len() - i,
    {
        proof {
            assert(snaps@.take(i + 1).drop_last() =~= snaps@.take(i as int));
        }
        let t = snaps[i].timestamp();
        if t < best {
            best = t;
        }
        i = i + 1;
    }
    proof {
        assert(snaps@.take(snaps@.len() as int) =~= snaps@);
    }
    best
}

/// The latest commit instant of a non-empty list of snapshots.
pub fn newest_snapshot_instant(snaps: &Vec<Snapshot>) -> (t: i64)
    requires
        snaps@.len() > 0,
    ensures
        t == newest_instant(snaps@),
{
    let mut best = snaps[0].timestamp();
    let mut i: usize = 1;
    while i < snaps.len()
        invariant
            1 <= i <= snaps@.len(),
            best == newest_instant(snaps@.take(i as int)),
        decreases snaps@.len() - i,
    {
        proof {
            assert(snaps@.take(i + 1).drop_last() =~= snaps@.take(i as int));
        }
        let t = snaps[i].timestamp();
        if t > best {
            best = t;
        }
        i = i + 1;
    }
    proof {
        assert(snaps@.take(snaps@.len() as int) =~= snaps@);
    }
    best
}

/// Whole days between `now` and the oldest snapshot.
pub open spec fn oldest_age_days(m: TableMetadata, now: i64) -> int {
    whole_days(now - oldest_instant(m.snapshots@))
}

/// Too many snapshots, or the oldest one is older than the age threshold.
pub open spec fn bloat_flagged(m: TableMetadata, t: Thresholds, now: i64) -> bool {
    m.snapshots@.len() > t.max_snapshots || oldest_age_days(m, now) > (t.max_snapshot_age_days as i64)
}

pub open spec fn snapshot_bloat_severity(m: TableMetadata, t: Thresholds, now: i64) -> Severity {
    let n = m.snapshots@.len();
    if n == 0 || !bloat_flagged(m, t, now) {
        Severity::Pass
    } else if n > t.max_snapshots * 5 || oldest_age_days(m, now) > 365 {
        Severity::Critical
    } else {
        Severity::Warning
    }
}

/// The check is defined on these inputs: the clock reading is an instant,
/// and when the table is flagged, the retention cutoff is one too.
pub open spec fn snapshot_bloat_defined(m: TableMetadata, t: Thresholds, now: i64) -> bool {
    &&& chrono_ms_in_range(now as int)
    &&& (m.snapshots@.len() > 0 && bloat_flagged(m, t, now)) ==> days_before_ok(now, t.max_snapshot_age_days as int)
}

pub open spec fn expire_snapshots_text(table: Seq<char>, cutoff_ms: i64) -> Seq<char> {
    "CALL catalog.system.expire_snapshots(table => '"@ + table + "', older_than => TIMESTAMP '"@
        + utc_datetime_text(cutoff_ms) + "', retain_last => 1)"@
}

pub fn expire_snapshots_command(table: &String, cutoff_ms: i64) -> (s: String)
    requires
        chrono_ms_in_range(cutoff_ms as int),
    ensures
        s@ == expire_snapshots_text(table@, cutoff_ms),
{
    let mut s = lit("CALL catalog.system.expire_snapshots(table => '");
    s.append(table.as_str());
    s.append("', older_than => TIMESTAMP '");
    s.append(format_utc_datetime(cutoff_ms).as_str());
    s.append("', retain_last => 1)");
    s
}

pub open spec fn snapshot_bloat_impact(n: nat) -> Seq<char> {
    "Metadata grows linearly with snapshot count. "@ + dec(n)
        + " snapshots means slow table loading and wasted S3 storage on retained data files."@
}

/// Snapshots beyond the count threshold, 4 KiB of metadata each, in GiB.
pub open spec fn snapshot_bloat_savings(n: nat, max: nat) -> Seq<char> {
    let excess: nat = if n > max { (n - max) as nat } else { 0 };
    "~"@ + fraction_text(excess * 4096, 1073741824, 1) + " GB metadata reduction, faster table loading"@
}

/// The finding `f` is what the check reports for `m` under `t` at `now`.
pub open spec fn snapshot_bloat_finding(f: Finding, m: TableMetadata, t: Thresholds, now: i64) -> bool {
    &&& f.check_id@ == "snapshot_bloat"@
    &&& f.check_name@ == "Snapshot Bloat"@
    &&& f.severity == snapshot_bloat_severity(m, t, now)
    &&& has_entry(f.details, "snapshot_count"@, Detail::UInt(m.snapshots@.len() as u64))
    &&& (m.snapshots@.len() == 0 ==> {
        &&& f.message@ == "No snapshots (new or empty table)"@
        &&& f.fix_command.is_none()
        &&& keys_are(f.details, seq!["snapshot_count"@])
    })
    &&& (m.snapshots@.len() > 0 && f.severity == Severity::Pass ==> keys_are(f.details,
        seq!["snapshot_count"@, "oldest_age_days"@]))
    &&& (f.severity != Severity::Pass ==> keys_are(f.details, seq!["snapshot_count"@, "oldest_snapshot"@, "newest_snapshot"@, "oldest_age_days"@, "max_snapshots_threshold"@, "max_age_days_threshold"@]))
    &&& (m.snapshots@.len() > 0 ==> {
        &&& f.message@ == dec(m.snapshots@.len()) + " snapshots, oldest: "@
            + dec_int(oldest_age_days(m, now)) + " days ago"@
        &&& has_entry(f.details, "oldest_age_days"@, Detail::Int(oldest_age_days(m, now) as i64))
    })
    &&& (f.severity == Severity::Pass ==> {
        &&& f.impact@ == Seq::<char>::empty()
        &&& f.fix_suggestion.is_none()
        &&& f.fix_command.is_none()
        &&& f.estimated_savings.is_none()
    })
    &&& (f.severity != Severity::Pass ==> {
        let n = m.snapshots@.len();
        let days = t.max_snapshot_age_days;
        &&& f.impact@ == snapshot_bloat_impact(n)
        &&& f.fix_suggestion matches Some(s) && s@ == "Expire snapshots older than "@ + dec(days as nat) + " days"@
        &&& f.fix_command matches Some(c)
            && c@ == expire_snapshots_text(m.table_name@, (now - days * 86_400_000) as i64)
        &&& f.estimated_savings matches Some(s) && s@ == snapshot_bloat_savings(n, t.max_snapshots as nat)
        &&& has_text(f.details, "oldest_snapshot"@, utc_rfc3339_text(oldest_instant(m.snapshots@)))
        &&& has_text(f.details, "newest_snapshot"@, utc_rfc3339_text(newest_instant(m.snapshots@)))
        &&& has_entry(f.details, "max_snapshots_threshold"@, Detail::UInt(t.max_snapshots))
        &&& has_entry(f.details, "max_age_days_threshold"@, Detail::UInt(days))
    })
}

impl SnapshotBloatCheck {
    pub fn id(&self) -> (s: &'static str)
        ensures
            s@ == "snapshot_bloat"@,
    {
        "snapshot_bloat"
    }

    pub fn name(&self) -> (s: &'static str)
        ensures
            s@ == "Snapshot Bloat"@,
    {
        "Snapshot Bloat"
    }

    /// Passes when there are no snapshots, or when both the count and the
    /// age of the oldest snapshot are within their thresholds. Otherwise
    /// warns; critical above five times the count threshold or when the
    /// oldest snapshot is more than a year old. The fix expires snapshots
    /// older than the age threshold, counted back from `now_ms`.
    pub fn check(&self, metadata: &TableMetadata, thresholds: &Thresholds, now_ms: i64) -> (f: Finding)
        requires
            snapshot_bloat_defined(*metadata, *thresholds, now_ms),
        ensures
            snapshot_bloat_finding(f, *metadata, *thresholds, now_ms),
    {
        let count = metadata.snapshots.len() as u64;
        if count == 0 {
            let details = Detail::Object(vec![entry("snapshot_count", Detail::UInt(0))]);
            proof {
                assert(details->Object_0@[0].0@ == "snapshot_count"@);
                assert(keys_are(details, seq!["snapshot_count"@]));
            }
            return pass_finding("snapshot_bloat", "Snapshot Bloat", lit("No snapshots (new or empty table)"), details);
        }
        proof {
            lemma_instants(metadata.snapshots@);
        }
        let oldest = oldest_snapshot_instant(&metadata.snapshots);
        let newest = newest_snapshot_instant(&metadata.snapshots);
        let age_days = days_between(now_ms, oldest);

        let mut message = u64_text(count);
        message.append(" snapshots, oldest: ");
        message.append(i64_text(age_days).as_str());
        message.append(" days ago");

        let count_exceeded = count > thresholds.max_snapshots;
        let age_exceeded = age_days > #[verifier::truncate] (thresholds.max_snapshot_age_days as i64);
        if !count_exceeded && !age_exceeded {
            let details = Detail::Object(vec![
                entry("snapshot_count", Detail::UInt(count)),
                entry("oldest_age_days", Detail::Int(age_days)),
            ]);
            proof {
                assert(details->Object_0@[0].0@ == "snapshot_count"@);
                assert(details->Object_0@[1].0@ == "oldest_age_days"@);
                assert(keys_are(details, seq!["snapshot_count"@, "oldest_age_days"@]));
                assert(message@ =~= dec(metadata.snapshots@.len()) + " snapshots, oldest: "@
                    + dec_int(oldest_age_days(*metadata, now_ms)) + " days ago"@);
            }
            return pass_finding("snapshot_bloat", "Snapshot Bloat", message, details);
        }

        let excess: u64 = if count > thresholds.max_snapshots { count - thresholds.max_snapshots } else { 0 };
        let severity = if (count as u128) > (thresholds.max_snapshots as u128) * 5 || age_days > 365 {
            Severity::Critical
        } else {
            Severity::Warning
        };
        let days = thresholds.max_snapshot_age_days;

        let mut impact = lit("Metadata grows linearly with snapshot count. ");
        impact.append(u64_text(count).as_str());
        impact.append(" snapshots means slow table loading and wasted S3 storage on retained data files.");

        let mut suggestion = lit("Expire snapshots older than ");
        suggestion.append(u64_text(days).as_str());
        suggestion.append(" days");

        let cutoff = now_ms - (days as i64) * crate::clock::MS_PER_DAY;
        let command = expire_snapshots_command(&metadata.table_name, cutoff);

        let mut savings = lit("~");
        savings.append(ratio_text((excess as u128) * 4096, 1073741824, 1).as_str());
        savings.append(" GB metadata reduction, faster table loading");

        let details = Detail::Object(vec![
            entry("snapshot_count", Detail::UInt(count)),
            entry("oldest_snapshot", Detail::Text(format_utc_rfc3339(oldest))),
            entry("newest_snapshot", Detail::Text(format_utc_rfc3339(newest))),
            entry("oldest_age_days", Detail::Int(age_days)),
            entry("max_snapshots_threshold", Detail::UInt(thresholds.max_snapshots)),
            entry("max_age_days_threshold", Detail::UInt(days)),
        ]);
        proof {
            assert(details->Object_0@[0].0@ == "snapshot_count"@);
            assert(details->Object_0@[1].0@ == "oldest_snapshot"@);
            assert(details->Object_0@[2].0@ == "newest_snapshot"@);
            assert(details->Object_0@[3].0@ == "oldest_age_days"@);
            assert(details->Object_0@[4].0@ == "max_snapshots_threshold"@);
            assert(details->Object_0@[5].0@ == "max_age_days_threshold"@);
            assert(keys_are(details, seq!["snapshot_count"@, "oldest_snapshot"@, "newest_snapshot"@, "oldest_age_days"@, "max_snapshots_threshold"@, "max_age_days_threshold"@]));
            assert(message@ =~= dec(metadata.snapshots@.len()) + " snapshots, oldest: "@
                + dec_int(oldest_age_days(*metadata, now_ms)) + " days ago"@);
            assert(impact@ =~= snapshot_bloat_impact(metadata.snapshots@.len()));
            assert(suggestion@ =~= "Expire snapshots older than "@ + dec(days as nat) + " days"@);
            assert(savings@ =~= snapshot_bloat_savings(metadata.snapshots@.len(), thresholds.max_snapshots as nat));
        }
        Finding {
            check_id: lit("snapshot_bloat"),
            check_name: lit("Snapshot Bloat"),
            severity,
            message,
            impact,
            fix_suggestion: Some(suggestion),
            fix_command: Some(command),
            estimated_savings: Some(savings),
            details,
        }
    }
}

} // verus!

verus! {

/// `o` is the earliest commit instant among `snaps`.
pub open spec fn is_earliest(snaps: Seq<Snapshot>, o: i64) -> bool {
    &&& exists|i: int| 0 <= i < snaps.len() && snapshot_instant(#[trigger] snaps[i]) == o
    &&& forall|i: int| 0 <= i < snaps.len() ==> o <= snapshot_instant(#[trigger] snaps[i])
}

/// How the snapshot-bloat finding grades the table, with `o` the earliest
/// commit: it passes exactly when there are no snapshots, or at most
/// `max_snapshots` of them and `o` at most `max_snapshot_age_days` whole
/// days old; past that it is critical exactly when there are more than
/// five times `max_snapshots` or `o` is more than 365 days old.
pub proof fn law_snapshot_bloat_grades(f: Finding, m: TableMetadata, t: Thresholds, now: i64, o: i64)
    requires
        snapshot_bloat_finding(f, m, t, now),
        m.snapshots@.len() > 0 ==> is_earliest(m.snapshots@, o),
    ensures
        m.snapshots@.len() == 0 ==> f.severity == Severity::Pass,
        m.snapshots@.len() > 0 ==> {
            let n = m.snapshots@.len();
            let age = whole_days(now - o);
            &&& (f.severity == Severity::Pass <==> (n <= t.max_snapshots && age <= t.max_snapshot_age_days as i64))
            &&& (f.severity == Severity::Critical <==> ((n > t.max_snapshots || age > t.max_snapshot_age_days as i64)
                && (n > t.max_snapshots * 5 || age > 365)))
        },
{
    if m.snapshots@.len() > 0 {
        lemma_instants(m.snapshots@);
        let s = m.snapshots@;
        let i = choose|i: int| 0 <= i < s.len() && oldest_instant(s) == #[trigger] snapshot_instant(s[i]);
        let j = choose|j: int| 0 <= j < s.len() && snapshot_instant(#[trigger] s[j]) == o;
        assert(oldest_instant(s) <= snapshot_instant(s[j]));
        assert(o <= snapshot_instant(s[i]));
        assert(oldest_instant(s) == o);
    }
}

} // verus!
