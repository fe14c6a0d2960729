//! Per-branch and per-tag health.
//!
//! Each named ref targets a specific snapshot. A branch pinned to a snapshot
//! from months ago prevents snapshot expiration (a snapshot cannot be
//! expired while a ref points at it), bloating metadata. Stale refs are
//! flagged, and refs whose snapshot is missing from the metadata are
//! reported as dangling. The `main` branch is skipped: its staleness is the
//! freshness check's concern.

use vstd::prelude::*;
use crate::checks::{entry, lit, pass_finding};
use crate::checks::snapshot_bloat::snapshot_instant;
use crate::clock::{chrono_ms_in_range, days_between, whole_days};
use crate::config::Thresholds;
use crate::metadata::{Snapshot, SnapshotRef, TableMetadata};
use crate::report::{has_entry, has_text, keys_are, Detail, Finding, Severity};
use crate::text::{dec, u64_text};

verus! {

pub struct BranchHealthCheck;

/// The commit instant of the snapshot with ID `id` (its last occurrence).
pub open spec fn snapshot_time(snaps: Seq<Snapshot>, id: i64) -> Option<i64>
    decreases snaps.len(),
{
    if snaps.len() == 0 {
        None
    } else if snaps.last().snapshot_id == id {
        Some(snapshot_instant(snaps.last()))
    } else {
        snapshot_time(snaps.drop_last(), id)
    }
}

proof fn lemma_snapshot_time_in_range(snaps: Seq<Snapshot>, id: i64)
    ensures
        snapshot_time(snaps, id) matches Some(t) ==> chrono_ms_in_range(t as int),
    decreases snaps.len(),
{
    if snaps.len() > 0 {
        lemma_snapshot_time_in_range(snaps.drop_last(), id);
    }
}

/// How a ref stands against the staleness limit.
#[derive(Clone, Copy, Debug, PartialEq, Eq, Structural)]
pub enum RefState {
    Healthy,
    Stale,
    Dangling,
}

/// The staleness limit in days, as the check reads it (a signed value).
pub open spec fn stale_days(t: Thresholds) -> i64 {
    t.stale_branch_days as i64
}

/// Dangling without its snapshot; stale when the snapshot is older than
/// the limit; healthy otherwise.
pub open spec fn ref_state(snaps: Seq<Snapshot>, r: SnapshotRef, days: i64, now: i64) -> RefState {
    match snapshot_time(snaps, r.snapshot_id) {
        None => RefState::Dangling,
        Some(ts) => if now - ts > days * 86_400_000 { RefState::Stale } else { RefState::Healthy },
    }
}

/// The refs other than `main`, in order.
pub open spec fn extra_refs(refs: Seq<(String, SnapshotRef)>) -> Seq<(String, SnapshotRef)>
    decreases refs.len(),
{
    if refs.len() == 0 {
        Seq::empty()
    } else if refs.last().0@ == "main"@ {
        extra_refs(refs.drop_last())
    } else {
        extra_refs(refs.drop_last()).push(refs.last())
    }
}

/// The refs other than `main` in state `st`, in order.
pub open spec fn refs_in_state(refs: Seq<(String, SnapshotRef)>, snaps: Seq<Snapshot>, days: i64, now: i64, st: RefState)
    -> Seq<(String, SnapshotRef)>
    decreases refs.len(),
{
    if refs.len() == 0 {
        Seq::empty()
    } else {
        let prev = refs_in_state(refs.drop_last(), snaps, days, now, st);
        let r = refs.last();
        if r.0@ != "main"@ && ref_state(snaps, r.1, days, now) == st { prev.push(r) } else { prev }
    }
}

/// Refs other than `main` that are branches.
pub open spec fn branch_count(refs: Seq<(String, SnapshotRef)>) -> nat
    decreases refs.len(),
{
    if refs.len() == 0 {
        0
    } else {
        branch_count(refs.drop_last()) + if refs.last().0@ != "main"@ && refs.last().1.ref_type@ == "branch"@ {
            1nat
        } else {
            0nat
        }
    }
}

/// Refs other than `main` that are not branches.
pub open spec fn tag_count(refs: Seq<(String, SnapshotRef)>) -> nat
    decreases refs.len(),
{
    if refs.len() == 0 {
        0
    } else {
        tag_count(refs.drop_last()) + if refs.last().0@ != "main"@ && refs.last().1.ref_type@ != "branch"@ {
            1nat
        } else {
            0nat
        }
    }
}

proof fn lemma_counts(refs: Seq<(String, SnapshotRef)>, snaps: Seq<Snapshot>, days: i64, now: i64)
    ensures
        branch_count(refs) + tag_count(refs) == extra_refs(refs).len(),
        refs_in_state(refs, snaps, days, now, RefState::Healthy).len()
            + refs_in_state(refs, snaps, days, now, RefState::Stale).len()
            + refs_in_state(refs, snaps, days, now, RefState::Dangling).len() == extra_refs(refs).len(),
        extra_refs(refs).len() <= refs.len(),
    decreases refs.len(),
{
    if refs.len() > 0 {
        lemma_counts(refs.drop_last(), snaps, days, now);
    }
}

/// `d` describes the ref `r`; with its snapshot's age in days when the
/// ref is not dangling.
pub open spec fn is_ref_detail(d: Detail, r: (String, SnapshotRef), snaps: Seq<Snapshot>, now: i64, aged: bool) -> bool {
    &&& has_text(d, "name"@, r.0@)
    &&& has_text(d, "type"@, r.1.ref_type@)
    &&& has_entry(d, "snapshot_id"@, Detail::Int(r.1.snapshot_id))
    &&& aged ==> has_entry(d, "snapshot_age_days"@,
        Detail::Int(whole_days(now - snapshot_time(snaps, r.1.snapshot_id)->0) as i64))
    &&& aged ==> keys_are(d, seq!["name"@, "type"@, "snapshot_id"@, "snapshot_age_days"@])
    &&& !aged ==> keys_are(d, seq!["name"@, "type"@, "snapshot_id"@])
}

/// `d` is a list describing `rs`, in order.
pub open spec fn is_ref_list(d: Detail, rs: Seq<(String, SnapshotRef)>, snaps: Seq<Snapshot>, now: i64, aged: bool) -> bool {
    match d {
        Detail::List(items) => {
            &&& items@.len() == rs.len()
            &&& forall|k: int| 0 <= k < rs.len() ==> is_ref_detail(#[trigger] items@[k], rs[k], snaps, now, aged)
        },
        _ => false,
    }
}

/// `d` is an object whose entry `key` is a list describing `rs`.
pub open spec fn has_ref_list(d: Detail, key: Seq<char>, rs: Seq<(String, SnapshotRef)>, snaps: Seq<Snapshot>, now: i64, aged: bool) -> bool {
    match d {
        Detail::Object(es) => exists|i: int| 0 <= i < es@.len() && es@[i].0@ == key && is_ref_list(es@[i].1, rs, snaps, now, aged),
        _ => false,
    }
}

/// `days` days fit in chrono's `TimeDelta` (at most `i64::MAX` ms either way).
pub open spec fn day_span_ok(days: i64) -> bool {
    -9_223_372_036_854_775 <= days * 86400 <= 9_223_372_036_854_775
}

/// The check is defined: the clock reading is an instant, and when there
/// are refs to age, the staleness limit is a representable span.
pub open spec fn branch_health_defined(m: TableMetadata, t: Thresholds, now: i64) -> bool {
    &&& chrono_ms_in_range(now as int)
    &&& extra_refs(m.refs@).len() > 0 ==> day_span_ok(stale_days(t))
}

pub open spec fn branch_health_severity(m: TableMetadata, t: Thresholds, now: i64) -> Severity {
    let d = stale_days(t);
    let stale = refs_in_state(m.refs@, m.snapshots@, d, now, RefState::Stale).len();
    let dangling = refs_in_state(m.refs@, m.snapshots@, d, now, RefState::Dangling).len();
    if dangling > 0 {
        Severity::Critical
    } else if stale > 0 {
        Severity::Warning
    } else {
        Severity::Pass
    }
}

pub open spec fn branch_health_message(m: TableMetadata, t: Thresholds, now: i64) -> Seq<char> {
    let d = stale_days(t);
    let stale = refs_in_state(m.refs@, m.snapshots@, d, now, RefState::Stale).len();
    let dangling = refs_in_state(m.refs@, m.snapshots@, d, now, RefState::Dangling).len();
    let stale_part = dec(stale) + " stale ref(s) older than "@ + dec(t.stale_branch_days as nat) + " days"@;
    let dangling_part = dec(dangling) + " ref(s) pointing at snapshots no longer in metadata"@;
    if stale > 0 && dangling > 0 {
        stale_part + "; "@ + dangling_part
    } else if stale > 0 {
        stale_part
    } else {
        dangling_part
    }
}

pub open spec fn branch_health_impact() -> Seq<char> {
    "Refs pin their target snapshot open — `expire_snapshots` cannot drop a snapshot that any ref points at. Stale branches and forgotten tags silently bloat metadata. Dangling refs (pointing at expired snapshots) indicate metadata corruption."@
}

pub open spec fn branch_health_suggestion() -> Seq<char> {
    "Drop refs that are no longer needed. For audit/release branches, set `max-ref-age-ms` so they auto-expire."@
}

/// The commit instant of the snapshot with ID `id`, if any.
pub fn find_snapshot_time(snaps: &Vec<Snapshot>, id: i64) -> (r: Option<i64>)
    ensures
        r == snapshot_time(snaps@, id),
{
    let mut r: Option<i64> = None;
    let mut i: usize = 0;
    while i < snaps.len()
        invariant
            i <= snaps@.len(),
            r == snapshot_time(snaps@.take(i as int), id),
        decreases snaps@.len() - i,
    {
        proof {
            assert(snaps@.take(i + 1).drop_last() =~= snaps@.take(i as int));
        }
        if snaps[i].snapshot_id == id {
            r = Some(snaps[i].timestamp());
        }
        i = i + 1;
    }
    proof {
        assert(snaps@.take(snaps@.len() as int) =~= snaps@);
    }
    r
}

fn ref_detail(r: &(String, SnapshotRef), age_days: Option<i64>) -> (d: Detail)
    ensures
        has_text(d, "name"@, r.0@),
        has_text(d, "type"@, r.1.ref_type@),
        has_entry(d, "snapshot_id"@, Detail::Int(r.1.snapshot_id)),
        age_days matches Some(a) ==> has_entry(d, "snapshot_age_days"@, Detail::Int(a)),
        age_days is Some ==> keys_are(d, seq!["name"@, "type"@, "snapshot_id"@, "snapshot_age_days"@]),
        age_days is None ==> keys_are(d, seq!["name"@, "type"@, "snapshot_id"@]),
{
    let mut es = vec![
        entry("name", Detail::Text(r.0.clone())),
        entry("type", Detail::Text(r.1.ref_type.clone())),
        entry("snapshot_id", Detail::Int(r.1.snapshot_id)),
    ];
    match age_days {
        Some(a) => es.push(entry("snapshot_age_days", Detail::Int(a))),
        None => {},
    }
    let d = Detail::Object(es);
    proof {
        assert(d->Object_0@[0].0@ == "name"@);
        assert(d->Object_0@[1].0@ == "type"@);
        assert(d->Object_0@[2].0@ == "snapshot_id"@);
        if age_days is Some {
            assert(d->Object_0@[3].0@ == "snapshot_age_days"@);
            assert(keys_are(d, seq!["name"@, "type"@, "snapshot_id"@, "snapshot_age_days"@]));
        } else {
            assert(keys_are(d, seq!["name"@, "type"@, "snapshot_id"@]));
        }
    }
    d
}

/// The refs other than `main`, sorted by state and described.
struct RefSurvey {
    branches: u64,
    tags: u64,
    healthy: Vec<Detail>,
    stale: Vec<Detail>,
    dangling: Vec<Detail>,
}

fn survey_refs(m: &TableMetadata, days: i64, now: i64) -> (s: RefSurvey)
    requires
        chrono_ms_in_range(now as int),
        day_span_ok(days),
    ensures
        s.branches == branch_count(m.refs@),
        s.tags == tag_count(m.refs@),
        is_ref_list(Detail::List(s.healthy), refs_in_state(m.refs@, m.snapshots@, days, now, RefState::Healthy), m.snapshots@, now, true),
        is_ref_list(Detail::List(s.stale), refs_in_state(m.refs@, m.snapshots@, days, now, RefState::Stale), m.snapshots@, now, true),
        is_ref_list(Detail::List(s.dangling), refs_in_state(m.refs@, m.snapshots@, days, now, RefState::Dangling), m.snapshots@, now, false),
{
    let refs = &m.refs;
    let ghost snaps = m.snapshots@;
    let main = lit("main");
    let branch = lit("branch");
    let limit_ms: i64 = days * crate::clock::MS_PER_DAY;
    let mut s = RefSurvey { branches: 0, tags: 0, healthy: Vec::new(), stale: Vec::new(), dangling: Vec::new() };
    let mut i: usize = 0;
    while i < refs.len()
        invariant
            i <= refs@.len(),
            main@ == "main"@,
            branch@ == "branch"@,
            chrono_ms_in_range(now as int),
            limit_ms == days * 86_400_000,
            snaps == m.snapshots@,
            s.branches == branch_count(refs@.take(i as int)),
            s.tags == tag_count(refs@.take(i as int)),
            s.branches + s.tags <= i,
            is_ref_list(Detail::List(s.healthy), refs_in_state(refs@.take(i as int), snaps, days, now, RefState::Healthy), snaps, now, true),
            is_ref_list(Detail::List(s.stale), refs_in_state(refs@.take(i as int), snaps, days, now, RefState::Stale), snaps, now, true),
            is_ref_list(Detail::List(s.dangling), refs_in_state(refs@.take(i as int), snaps, days, now, RefState::Dangling), snaps, now, false),
        decreases refs@.len() - i,
    {
        let ghost prefix = refs@.take(i as int);
        proof {
            assert(refs@.take(i + 1).drop_last() =~= prefix);
            assert(refs@.take(i + 1).last() == refs@[i as int]);
            lemma_counts(prefix, snaps, days, now);
        }
        let r = &refs[i];
        if !(r.0 == main) {
            if r.1.ref_type == branch {
                s.branches = s.branches + 1;
            } else {
                s.tags = s.tags + 1;
            }
            let ghost before_h = s.healthy@;
            let ghost before_s = s.stale@;
            let ghost before_d = s.dangling@;
            match find_snapshot_time(&m.snapshots, r.1.snapshot_id) {
                Some(ts) => {
                    proof {
                        lemma_snapshot_time_in_range(snaps, r.1.snapshot_id);
                    }
                    let age_days = days_between(now, ts);
                    let d = ref_detail(r, Some(age_days));
                    if now - ts > limit_ms {
                        s.stale.push(d);
                        proof {
                            let rs = refs_in_state(refs@.take(i + 1), snaps, days, now, RefState::Stale);
                            assert forall|k: int| 0 <= k < rs.len() implies is_ref_detail(#[trigger] s.stale@[k], rs[k], snaps, now, true) by {
                                if k < rs.len() - 1 {
                                    assert(s.stale@[k] == before_s[k]);
                                }
                            }
                        }
                    } else {
                        s.healthy.push(d);
                        proof {
                            let rs = refs_in_state(refs@.take(i + 1), snaps, days, now, RefState::Healthy);
                            assert forall|k: int| 0 <= k < rs.len() implies is_ref_detail(#[trigger] s.healthy@[k], rs[k], snaps, now, true) by {
                                if k < rs.len() - 1 {
                                    assert(s.healthy@[k] == before_h[k]);
                                }
                            }
                        }
                    }
                },
                None => {
                    let d = ref_detail(r, None);
                    s.dangling.push(d);
                    proof {
                        let rs = refs_in_state(refs@.take(i + 1), snaps, days, now, RefState::Dangling);
                        assert forall|k: int| 0 <= k < rs.len() implies is_ref_detail(#[trigger] s.dangling@[k], rs[k], snaps, now, false) by {
                            if k < rs.len() - 1 {
                                assert(s.dangling@[k] == before_d[k]);
                            }
                        }
                    }
                },
            }
        }
        i = i + 1;
    }
    proof {
        assert(refs@.take(refs@.len() as int) =~= refs@);
    }
    s
}

/// The finding `f` is what the check reports for `m` under `t` at `now`.
pub open spec fn branch_health_finding(f: Finding, m: TableMetadata, t: Thresholds, now: i64) -> bool {
    &&& f.check_id@ == "branch_health"@
    &&& f.check_name@ == "Branch Health"@
    &&& (extra_refs(m.refs@).len() == 0 ==> {
        &&& f.severity == Severity::Pass
        &&& f.message@ == "No branches or tags beyond `main`"@
        &&& f.details matches Detail::Object(es) && es@.len() == 1
            && es@[0].0@ == "ref_count"@ && es@[0].1 == Detail::UInt(0)
    })
    &&& (extra_refs(m.refs@).len() > 0 ==> {
        let d = stale_days(t);
        let snaps = m.snapshots@;
        &&& f.severity == branch_health_severity(m, t, now)
        &&& has_entry(f.details, "branches"@, Detail::UInt(branch_count(m.refs@) as u64))
        &&& has_entry(f.details, "tags"@, Detail::UInt(tag_count(m.refs@) as u64))
        &&& has_ref_list(f.details, "healthy_refs"@,
            refs_in_state(m.refs@, snaps, d, now, RefState::Healthy), snaps, now, true)
        &&& f.severity == Severity::Pass ==> f.message@ == dec(branch_count(m.refs@)) + " branch(es), "@
            + dec(tag_count(m.refs@)) + " tag(s) — all healthy"@
        &&& f.severity == Severity::Pass ==> keys_are(f.details, seq!["branches"@, "tags"@, "healthy_refs"@])
        &&& f.severity != Severity::Pass ==> keys_are(f.details, seq!["branches"@, "tags"@, "stale_refs"@,
            "dangling_refs"@, "healthy_refs"@, "stale_threshold_days"@])
        &&& f.severity != Severity::Pass ==> {
            &&& f.message@ == branch_health_message(m, t, now)
            &&& has_ref_list(f.details, "stale_refs"@,
                refs_in_state(m.refs@, snaps, d, now, RefState::Stale), snaps, now, true)
            &&& has_ref_list(f.details, "dangling_refs"@,
                refs_in_state(m.refs@, snaps, d, now, RefState::Dangling), snaps, now, false)
            &&& has_entry(f.details, "stale_threshold_days"@, Detail::UInt(t.stale_branch_days))
        }
    })
    &&& (f.severity == Severity::Pass ==> {
        &&& f.impact@ == Seq::<char>::empty()
        &&& f.fix_suggestion.is_none()
        &&& f.fix_command.is_none()
        &&& f.estimated_savings.is_none()
    })
    &&& (f.severity != Severity::Pass ==> {
        &&& f.impact@ == branch_health_impact()
        &&& f.fix_suggestion matches Some(s) && s@ == branch_health_suggestion()
        &&& f.fix_command matches Some(c)
            && c@ == "ALTER TABLE "@ + m.table_name@ + " DROP BRANCH `<name>`  -- repeat per stale ref"@
        &&& f.estimated_savings matches Some(s) && s@ == "Unblocking snapshot expiration reduces metadata size."@
    })
}

impl BranchHealthCheck {
    pub fn id(&self) -> (s: &'static str)
        ensures
            s@ == "branch_health"@,
    {
        "branch_health"
    }

    pub fn name(&self) -> (s: &'static str)
        ensures
            s@ == "Branch Health"@,
    {
        "Branch Health"
    }

    /// Ages each ref other than `main` by its snapshot's commit instant:
    /// stale beyond the limit (warning), dangling without its snapshot
    /// (critical).
    pub fn check(&self, metadata: &TableMetadata, thresholds: &Thresholds, now_ms: i64) -> (f: Finding)
        requires
            branch_health_defined(*metadata, *thresholds, now_ms),
        ensures
            branch_health_finding(f, *metadata, *thresholds, now_ms),
    {
        let main = lit("main");
        let mut any_extra = false;
        let mut i: usize = 0;
        while i < metadata.refs.len()
            invariant
                i <= metadata.refs@.len(),
                main@ == "main"@,
                any_extra == (extra_refs(metadata.refs@.take(i as int)).len() > 0),
            decreases metadata.refs@.len() - i,
        {
            proof {
                assert(metadata.refs@.take(i + 1).drop_last() =~= metadata.refs@.take(i as int));
            }
            if !(metadata.refs[i].0 == main) {
                any_extra = true;
            }
            i = i + 1;
        }
        proof {
            assert(metadata.refs@.take(metadata.refs@.len() as int) =~= metadata.refs@);
        }
        if !any_extra {
            let details = Detail::Object(vec![entry("ref_count", Detail::UInt(0))]);
            proof {
                assert(details->Object_0@[0].0@ == "ref_count"@);
                assert(keys_are(details, seq!["ref_count"@]));
            }
            return pass_finding("branch_health", "Branch Health", lit("No branches or tags beyond `main`"), details);
        }
        let days = #[verifier::truncate] (thresholds.stale_branch_days as i64);
        let s = survey_refs(metadata, days, now_ms);
        proof {
            lemma_counts(metadata.refs@, metadata.snapshots@, days, now_ms);
        }
        let n_stale = s.stale.len();
        let n_dangling = s.dangling.len();
        let branches = s.branches;
        let tags = s.tags;
        if n_stale == 0 && n_dangling == 0 {
            let mut message = u64_text(branches);
            message.append(" branch(es), ");
            message.append(u64_text(tags).as_str());
            message.append(" tag(s) — all healthy");
            let details = Detail::Object(vec![
                entry("branches", Detail::UInt(branches)),
                entry("tags", Detail::UInt(tags)),
                entry("healthy_refs", Detail::List(s.healthy)),
            ]);
            proof {
                assert(details->Object_0@[0].0@ == "branches"@);
                assert(details->Object_0@[1].0@ == "tags"@);
                assert(details->Object_0@[2].0@ == "healthy_refs"@);
                assert(keys_are(details, seq!["branches"@, "tags"@, "healthy_refs"@]));
            }
            return pass_finding("branch_health", "Branch Health", message, details);
        }
        let severity = if n_dangling > 0 { Severity::Critical } else { Severity::Warning };
        let mut stale_part = u64_text(n_stale as u64);
        stale_part.append(" stale ref(s) older than ");
        stale_part.append(u64_text(thresholds.stale_branch_days).as_str());
        stale_part.append(" days");
        let mut dangling_part = u64_text(n_dangling as u64);
        dangling_part.append(" ref(s) pointing at snapshots no longer in metadata");
        let message = if n_stale > 0 && n_dangling > 0 {
            let mut m = stale_part;
            m.append("; ");
            m.append(dangling_part.as_str());
            m
        } else if n_stale > 0 {
            stale_part
        } else {
            dangling_part
        };
        let mut command = lit("ALTER TABLE ");
        command.append(metadata.table_name.as_str());
        command.append(" DROP BRANCH `<name>`  -- repeat per stale ref");
        let details = Detail::Object(vec![
            entry("branches", Detail::UInt(branches)),
            entry("tags", Detail::UInt(tags)),
            entry("stale_refs", Detail::List(s.stale)),
            entry("dangling_refs", Detail::List(s.dangling)),
            entry("healthy_refs", Detail::List(s.healthy)),
            entry("stale_threshold_days", Detail::UInt(thresholds.stale_branch_days)),
        ]);
        proof {
            assert(details->Object_0@[0].0@ == "branches"@);
            assert(details->Object_0@[1].0@ == "tags"@);
            assert(details->Object_0@[2].0@ == "stale_refs"@);
            assert(details->Object_0@[3].0@ == "dangling_refs"@);
            assert(details->Object_0@[4].0@ == "healthy_refs"@);
            assert(details->Object_0@[5].0@ == "stale_threshold_days"@);
            assert(keys_are(details, seq!["branches"@, "tags"@, "stale_refs"@, "dangling_refs"@, "healthy_refs"@, "stale_threshold_days"@]));
            assert(message@ =~= branch_health_message(*metadata, *thresholds, now_ms));
        }
        Finding {
            check_id: lit("branch_health"),
            check_name: lit("Branch Health"),
            severity,
            message,
            impact: lit("Refs pin their target snapshot open — `expire_snapshots` cannot drop a snapshot that any ref points at. Stale branches and forgotten tags silently bloat metadata. Dangling refs (pointing at expired snapshots) indicate metadata corruption."),
            fix_suggestion: Some(lit("Drop refs that are no longer needed. For audit/release branches, set `max-ref-age-ms` so they auto-expire.")),
            fix_command: Some(command),
            estimated_savings: Some(lit("Unblocking snapshot expiration reduces metadata size.")),
            details,
        }
    }
}

} // verus!
