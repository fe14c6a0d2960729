//! Fleet-level signals — health computed across many tables.
//!
//! Per-table checks miss problems that only show up when zooming out:
//! tables with no commits in 90 days, namespaces with many unhealthy tables,
//! tables on format-version 1 or without a partition spec, and the worst
//! offenders overall.
//!
//! Groups (namespaces, severities) are listed in order of first appearance
//! before sorting; sorts are stable.

use vstd::prelude::*;
use crate::checks::snapshot_bloat::snapshot_instant;
use crate::clock::{chrono_ms_in_range, days_between, now_ms, whole_days};
use crate::config::FrostConfig;
use crate::metadata::TableMetadata;
use crate::report::{HealthReport, Severity};

verus! {

/// Aggregate fleet-level findings across all checked tables.
pub struct FleetReport {
    /// Total tables scanned.
    pub tables_scanned: usize,
    /// Tables that failed to load (catalog/parse errors).
    pub tables_unreadable: usize,
    /// Per-namespace counts, most critical first.
    pub namespaces: Vec<NamespaceSummary>,
    /// Tables without a commit for the dormancy threshold or longer, longest first.
    pub dormant_tables: Vec<DormantTable>,
    /// Tables with no partition spec declared (whole-table scans).
    pub unpartitioned_tables: Vec<String>,
    /// Tables on Iceberg format-version 1.
    pub format_v1_tables: Vec<String>,
    /// Tables per overall severity label.
    pub by_severity: Vec<(String, usize)>,
    /// Up to ten tables, most critical findings first, then most warnings.
    pub top_offenders: Vec<TableBrief>,
    /// When the report was generated (ms since the epoch).
    pub generated_at_ms: i64,
}

pub struct NamespaceSummary {
    pub namespace: String,
    pub table_count: usize,
    pub critical: usize,
    pub warning: usize,
    pub healthy: usize,
}

pub struct DormantTable {
    pub table_name: String,
    pub days_since_last_commit: i64,
    pub snapshot_count: u64,
}

pub struct TableBrief {
    pub table_name: String,
    pub severity: String,
    pub critical_count: usize,
    pub warning_count: usize,
}

/// Per-table input to the fleet aggregator.
pub struct FleetInput {
    pub table_name: String,
    pub metadata: TableMetadata,
    pub report: HealthReport,
}

/// Days without a commit after which a table is dormant, by default.
pub const DEFAULT_DORMANT_DAYS: i64 = 90;

// ---------------------------------------------------------------------------
// Stable descending sort by a pair of keys
// ---------------------------------------------------------------------------

/// `a` ranks at or above `b`: greater first key, or equal first key and
/// greater or equal second key.
pub open spec fn rank_ge(a: (u64, u64, usize), b: (u64, u64, usize)) -> bool {
    a.0 > b.0 || (a.0 == b.0 && a.1 >= b.1)
}

/// `x` inserted after every entry that ranks at or above it.
pub open spec fn insert_ranked(s: Seq<(u64, u64, usize)>, x: (u64, u64, usize)) -> Seq<(u64, u64, usize)>
    decreases s.len(),
{
    if s.len() == 0 {
        seq![x]
    } else if rank_ge(s.last(), x) {
        s.push(x)
    } else {
        insert_ranked(s.drop_last(), x).push(s.last())
    }
}

/// Entries stably sorted by rank, highest first.
pub open spec fn sort_ranked(s: Seq<(u64, u64, usize)>) -> Seq<(u64, u64, usize)>
    decreases s.len(),
{
    if s.len() == 0 { s } else { insert_ranked(sort_ranked(s.drop_last()), s.last()) }
}

proof fn lemma_insert_ranked(s: Seq<(u64, u64, usize)>, x: (u64, u64, usize), n: usize)
    requires
        forall|i: int| 0 <= i < s.len() ==> (#[trigger] s[i]).2 < n,
        x.2 < n,
    ensures
        insert_ranked(s, x).len() == s.len() + 1,
        forall|i: int| 0 <= i < s.len() + 1 ==> (#[trigger] insert_ranked(s, x)[i]).2 < n,
    decreases s.len(),
{
    if s.len() > 0 && !rank_ge(s.last(), x) {
        lemma_insert_ranked(s.drop_last(), x, n);
        let r = insert_ranked(s.drop_last(), x);
        assert forall|i: int| 0 <= i < s.len() + 1 implies (#[trigger] insert_ranked(s, x)[i]).2 < n by {
            if i < s.len() {
                assert(insert_ranked(s, x)[i] == r[i]);
            }
        }
    }
}

/// Sorting keeps the length and the range of the indices carried.
pub proof fn lemma_sort_ranked(s: Seq<(u64, u64, usize)>, n: usize)
    requires
        forall|i: int| 0 <= i < s.len() ==> (#[trigger] s[i]).2 < n,
    ensures
        sort_ranked(s).len() == s.len(),
        forall|i: int| 0 <= i < s.len() ==> (#[trigger] sort_ranked(s)[i]).2 < n,
    decreases s.len(),
{
    if s.len() > 0 {
        let d = s.drop_last();
        assert forall|i: int| 0 <= i < d.len() implies (#[trigger] d[i]).2 < n by {
            assert(d[i] == s[i]);
        }
        lemma_sort_ranked(d, n);
        lemma_insert_ranked(sort_ranked(d), s.last(), n);
    }
}

/// Entries ordered by rank, highest first.
pub open spec fn ranked_sorted(s: Seq<(u64, u64, usize)>) -> bool {
    forall|i: int, j: int| 0 <= i < j < s.len() ==> rank_ge(#[trigger] s[i], #[trigger] s[j])
}

proof fn lemma_insert_ranked_content(s: Seq<(u64, u64, usize)>, x: (u64, u64, usize))
    ensures
        insert_ranked(s, x).to_multiset() =~= s.to_multiset().insert(x),
        insert_ranked(s, x).len() == s.len() + 1,
    decreases s.len(),
{
    broadcast use vstd::seq_lib::group_to_multiset_ensures;
    if s.len() == 0 {
        assert(seq![x] =~= Seq::<(u64, u64, usize)>::empty().push(x));
    } else if rank_ge(s.last(), x) {
    } else {
        lemma_insert_ranked_content(s.drop_last(), x);
        assert(s =~= s.drop_last().push(s.last()));
    }
}

proof fn lemma_insert_ranked_sorted(s: Seq<(u64, u64, usize)>, x: (u64, u64, usize))
    requires
        ranked_sorted(s),
    ensures
        ranked_sorted(insert_ranked(s, x)),
    decreases s.len(),
{
    broadcast use vstd::seq_lib::group_to_multiset_ensures;
    if s.len() == 0 {
    } else if rank_ge(s.last(), x) {
        let r = s.push(x);
        assert forall|i: int, j: int| 0 <= i < j < r.len() implies rank_ge(#[trigger] r[i], #[trigger] r[j]) by {
            if j == s.len() && i < s.len() - 1 {
                assert(rank_ge(s[i], s[s.len() - 1]));
            }
        }
    } else {
        let d = s.drop_last();
        assert forall|i: int, j: int| 0 <= i < j < d.len() implies rank_ge(#[trigger] d[i], #[trigger] d[j]) by {
            assert(rank_ge(s[i], s[j]));
        }
        lemma_insert_ranked_sorted(d, x);
        lemma_insert_ranked_content(d, x);
        let m = insert_ranked(d, x);
        let r = m.push(s.last());
        assert forall|i: int, j: int| 0 <= i < j < r.len() implies rank_ge(#[trigger] r[i], #[trigger] r[j]) by {
            if j == m.len() {
                let e = m[i];
                assert(m.to_multiset().count(e) > 0);
                if e != x {
                    assert(d.to_multiset().count(e) > 0);
                    assert(d.contains(e));
                    let k = choose|k: int| 0 <= k < d.len() && d[k] == e;
                    assert(rank_ge(s[k], s[s.len() - 1]));
                }
            }
        }
    }
}

/// Sorting by rank orders the entries, highest first, and keeps exactly
/// the entries it was given.
pub proof fn lemma_sort_ranked_sorted(s: Seq<(u64, u64, usize)>)
    ensures
        ranked_sorted(sort_ranked(s)),
        sort_ranked(s).to_multiset() =~= s.to_multiset(),
        sort_ranked(s).len() == s.len(),
    decreases s.len(),
{
    broadcast use vstd::seq_lib::group_to_multiset_ensures;
    if s.len() > 0 {
        lemma_sort_ranked_sorted(s.drop_last());
        lemma_insert_ranked_sorted(sort_ranked(s.drop_last()), s.last());
        lemma_insert_ranked_content(sort_ranked(s.drop_last()), s.last());
        assert(s =~= s.drop_last().push(s.last()));
    }
}

fn insert_rank(out: &mut Vec<(u64, u64, usize)>, x: (u64, u64, usize))
    ensures
        final(out)@ == insert_ranked(old(out)@, x),
    decreases old(out)@.len(),
{
    let ghost old_v = out@;
    let n = out.len();
    if n == 0 {
        out.push(x);
        proof {
            assert(out@ =~= seq![x]);
        }
    } else {
        let last = out[n - 1];
        if last.0 > x.0 || (last.0 == x.0 && last.1 >= x.1) {
            out.push(x);
        } else {
            let last = out.pop().unwrap();
            proof {
                assert(out@ =~= old_v.drop_last());
            }
            insert_rank(out, x);
            out.push(last);
        }
    }
}

/// Entries stably sorted by rank, highest first.
pub fn sort_by_rank(entries: &Vec<(u64, u64, usize)>) -> (r: Vec<(u64, u64, usize)>)
    ensures
        r@ == sort_ranked(entries@),
{
    let mut out: Vec<(u64, u64, usize)> = Vec::new();
    let mut i: usize = 0;
    while i < entries.len()
        invariant
            i <= entries@.len(),
            out@ == sort_ranked(entries@.take(i as int)),
        decreases entries@.len() - i,
    {
        proof {
            assert(entries@.take(i + 1).drop_last() =~= entries@.take(i as int));
        }
        insert_rank(&mut out, entries[i]);
        i = i + 1;
    }
    proof {
        assert(entries@.take(entries@.len() as int) =~= entries@);
    }
    out
}

/// Order-preserving image of a signed day count among unsigned keys.
pub open spec fn day_key(d: i64) -> u64 {
    (d as int + 9_223_372_036_854_775_808) as u64
}

// ---------------------------------------------------------------------------
// Per-table signals
// ---------------------------------------------------------------------------

/// The namespace of a table name: everything before the last `.`, or
/// `<root>` without a dot.
pub open spec fn namespace_of(name: Seq<char>) -> Seq<char> {
    match last_dot(name) {
        Some(i) => name.take(i),
        None => "<root>"@,
    }
}

/// Index of the last `.` in `s`.
pub open spec fn last_dot(s: Seq<char>) -> Option<int>
    decreases s.len(),
{
    if s.len() == 0 {
        None
    } else if s.last() == '.' {
        Some(s.len() - 1)
    } else {
        last_dot(s.drop_last())
    }
}

proof fn lemma_last_dot(s: Seq<char>)
    ensures
        last_dot(s) matches Some(i) ==> 0 <= i < s.len() && s[i] == '.',
        last_dot(s) is None ==> forall|j: int| 0 <= j < s.len() ==> s[j] != '.',
    decreases s.len(),
{
    if s.len() > 0 {
        lemma_last_dot(s.drop_last());
        assert forall|j: int| 0 <= j < s.len() - 1 implies s.drop_last()[j] == s[j] by {}
    }
}

/// The namespace of a table name.
pub fn namespace_name(name: &String) -> (r: String)
    ensures
        r@ == namespace_of(name@),
{
    let n = name.unicode_len();
    let mut i: usize = n;
    proof {
        assert(name@.take(n as int) =~= name@);
    }
    while i > 0
        invariant
            n == name@.len(),
            i <= n,
            last_dot(name@) == last_dot(name@.take(i as int)),
        decreases i,
    {
        proof {
            assert(name@.take(i as int).last() == name@[i - 1]);
            assert(name@.take(i as int).drop_last() =~= name@.take(i - 1));
        }
        if name.as_str().get_char(i - 1) == '.' {
            let r = name.as_str().substring_char(0, i - 1).to_string();
            proof {
                assert(r@ =~= name@.take(i - 1));
            }
            return r;
        }
        i = i - 1;
    }
    String::from_str("<root>")
}

/// Whole days since the table's last snapshot (the last in the list).
pub open spec fn days_since_last_commit(m: TableMetadata, now: i64) -> int {
    whole_days(now - snapshot_instant(m.snapshots@.last()))
}

/// The table has snapshots and its last commit is `threshold` days old or older.
pub open spec fn is_dormant(m: TableMetadata, now: i64, threshold: i64) -> bool {
    m.snapshots@.len() > 0 && days_since_last_commit(m, now) >= threshold
}

/// Names of the inputs whose metadata satisfies the selection, in order.
pub open spec fn names_where(inputs: Seq<FleetInput>, unpartitioned: bool) -> Seq<Seq<char>>
    decreases inputs.len(),
{
    if inputs.len() == 0 {
        Seq::empty()
    } else {
        let m = inputs.last().metadata;
        let hit = if unpartitioned { m.partition_spec.fields@.len() == 0 } else { m.format_version == 1 };
        if hit {
            names_where(inputs.drop_last(), unpartitioned).push(inputs.last().table_name@)
        } else {
            names_where(inputs.drop_last(), unpartitioned)
        }
    }
}

// ---------------------------------------------------------------------------
// Namespace and severity roll-ups (spec side)
// ---------------------------------------------------------------------------

/// A namespace tally.
pub struct NamespaceTally {
    pub namespace: Seq<char>,
    pub tables: nat,
    pub critical: nat,
    pub warning: nat,
    pub healthy: nat,
}

/// Index of the tally for namespace `ns`, or -1.
pub open spec fn tally_index(ts: Seq<NamespaceTally>, ns: Seq<char>) -> int
    decreases ts.len(),
{
    if ts.len() == 0 {
        -1
    } else {
        let j = tally_index(ts.drop_last(), ns);
        if j >= 0 { j } else if ts.last().namespace == ns { ts.len() - 1 } else { -1 }
    }
}

proof fn lemma_tally_index(ts: Seq<NamespaceTally>, ns: Seq<char>)
    ensures
        -1 <= tally_index(ts, ns) < ts.len(),
        tally_index(ts, ns) >= 0 ==> ts[tally_index(ts, ns)].namespace == ns,
        tally_index(ts, ns) < 0 ==> forall|i: int| 0 <= i < ts.len() ==> ts[i].namespace != ns,
    decreases ts.len(),
{
    if ts.len() > 0 {
        lemma_tally_index(ts.drop_last(), ns);
        assert forall|i: int| 0 <= i < ts.len() - 1 implies ts[i] == ts.drop_last()[i] by {}
    }
}

/// `t` with one more table of severity `s`.
pub open spec fn bump(t: NamespaceTally, s: Severity) -> NamespaceTally {
    NamespaceTally {
        namespace: t.namespace,
        tables: t.tables + 1,
        critical: t.critical + if s == Severity::Critical { 1nat } else { 0nat },
        warning: t.warning + if s == Severity::Warning { 1nat } else { 0nat },
        healthy: t.healthy + if s == Severity::Pass { 1nat } else { 0nat },
    }
}

/// Tallies per namespace, in order of first appearance.
pub open spec fn namespace_tallies(inputs: Seq<FleetInput>) -> Seq<NamespaceTally>
    decreases inputs.len(),
{
    if inputs.len() == 0 {
        Seq::empty()
    } else {
        let prev = namespace_tallies(inputs.drop_last());
        let ns = namespace_of(inputs.last().table_name@);
        let s = inputs.last().report.overall.severity;
        let j = tally_index(prev, ns);
        if j >= 0 {
            prev.update(j, bump(prev[j], s))
        } else {
            prev.push(bump(NamespaceTally { namespace: ns, tables: 0, critical: 0, warning: 0, healthy: 0 }, s))
        }
    }
}

/// Tables per overall-severity label, labels in order of first appearance.
pub open spec fn severity_tallies(inputs: Seq<FleetInput>) -> Seq<(Seq<char>, nat)>
    decreases inputs.len(),
{
    if inputs.len() == 0 {
        Seq::empty()
    } else {
        let prev = severity_tallies(inputs.drop_last());
        let label = inputs.last().report.overall.severity.label_spec();
        let j = label_index(prev, label);
        if j >= 0 { prev.update(j, (label, prev[j].1 + 1)) } else { prev.push((label, 1nat)) }
    }
}

pub open spec fn label_index(ts: Seq<(Seq<char>, nat)>, label: Seq<char>) -> int
    decreases ts.len(),
{
    if ts.len() == 0 {
        -1
    } else {
        let j = label_index(ts.drop_last(), label);
        if j >= 0 { j } else if ts.last().0 == label { ts.len() - 1 } else { -1 }
    }
}

proof fn lemma_label_index(ts: Seq<(Seq<char>, nat)>, label: Seq<char>)
    ensures
        -1 <= label_index(ts, label) < ts.len(),
        label_index(ts, label) >= 0 ==> ts[label_index(ts, label)].0 == label,
        label_index(ts, label) < 0 ==> forall|i: int| 0 <= i < ts.len() ==> ts[i].0 != label,
    decreases ts.len(),
{
    if ts.len() > 0 {
        lemma_label_index(ts.drop_last(), label);
        assert forall|i: int| 0 <= i < ts.len() - 1 implies ts[i] == ts.drop_last()[i] by {}
    }
}

impl NamespaceSummary {
    pub open spec fn tally(&self) -> NamespaceTally {
        NamespaceTally {
            namespace: self.namespace@,
            tables: self.table_count as nat,
            critical: self.critical as nat,
            warning: self.warning as nat,
            healthy: self.healthy as nat,
        }
    }
}

pub open spec fn tallies_of(ns: Seq<NamespaceSummary>) -> Seq<NamespaceTally> {
    Seq::new(ns.len(), |i: int| ns[i].tally())
}

pub open spec fn severity_pairs(v: Seq<(String, usize)>) -> Seq<(Seq<char>, nat)> {
    Seq::new(v.len(), |i: int| (v[i].0@, v[i].1 as nat))
}

/// Rank entries for the namespaces: critical count, then nothing.
pub open spec fn namespace_ranks(ts: Seq<NamespaceTally>) -> Seq<(u64, u64, usize)> {
    Seq::new(ts.len(), |i: int| (ts[i].critical as u64, 0u64, i as usize))
}

/// The namespace tallies, most critical first (stable).
pub open spec fn ranked_namespaces(inputs: Seq<FleetInput>) -> Seq<NamespaceTally> {
    let ts = namespace_tallies(inputs);
    let order = sort_ranked(namespace_ranks(ts));
    Seq::new(order.len(), |k: int| ts[order[k].2 as int])
}

/// Rank entries for the tables: critical count, then warning count.
pub open spec fn brief_ranks(inputs: Seq<FleetInput>) -> Seq<(u64, u64, usize)> {
    Seq::new(inputs.len(), |i: int| (
        inputs[i].report.overall.critical_count as u64,
        inputs[i].report.overall.warning_count as u64,
        i as usize,
    ))
}

/// Indices of the top offenders: the first ten of the stable ranking.
pub open spec fn top_offender_order(inputs: Seq<FleetInput>) -> Seq<(u64, u64, usize)> {
    let order = sort_ranked(brief_ranks(inputs));
    if order.len() <= 10 { order } else { order.take(10) }
}

/// Indices of the dormant tables, in input order.
pub open spec fn dormant_indices(inputs: Seq<FleetInput>, now: i64, threshold: i64) -> Seq<usize>
    decreases inputs.len(),
{
    if inputs.len() == 0 {
        Seq::empty()
    } else if is_dormant(inputs.last().metadata, now, threshold) {
        dormant_indices(inputs.drop_last(), now, threshold).push((inputs.len() - 1) as usize)
    } else {
        dormant_indices(inputs.drop_last(), now, threshold)
    }
}

/// Rank entries for dormant tables: days since the last commit.
pub open spec fn dormant_ranks(inputs: Seq<FleetInput>, now: i64, threshold: i64) -> Seq<(u64, u64, usize)> {
    let idx = dormant_indices(inputs, now, threshold);
    Seq::new(idx.len(), |k: int| (day_key(days_since_last_commit(inputs[idx[k] as int].metadata, now) as i64), 0u64, k as usize))
}

proof fn lemma_tallies_consistent(inputs: Seq<FleetInput>)
    ensures
        namespace_tallies(inputs).len() <= inputs.len(),
        forall|j: int| 0 <= j < namespace_tallies(inputs).len() ==> {
            let t = #[trigger] namespace_tallies(inputs)[j];
            &&& t.critical + t.warning + t.healthy == t.tables
            &&& t.tables <= inputs.len()
        },
    decreases inputs.len(),
{
    if inputs.len() > 0 {
        let d = inputs.drop_last();
        lemma_tallies_consistent(d);
        let prev = namespace_tallies(d);
        let ns = namespace_of(inputs.last().table_name@);
        lemma_tally_index(prev, ns);
        let ts = namespace_tallies(inputs);
        assert forall|j: int| 0 <= j < ts.len() implies {
            let t = #[trigger] ts[j];
            &&& t.critical + t.warning + t.healthy == t.tables
            &&& t.tables <= inputs.len()
        } by {
            if j < prev.len() {
                let t0 = prev[j];
                assert(t0.critical + t0.warning + t0.healthy == t0.tables);
            }
        }
    }
}

/// The namespace roll-up: each namespace's critical, warning and healthy
/// tables add up to its table count, and the namespaces come with the
/// most critical tables first.
pub proof fn law_namespace_rollup(inputs: Seq<FleetInput>)
    requires
        inputs.len() <= usize::MAX,
    ensures
        forall|k: int| 0 <= k < ranked_namespaces(inputs).len() ==> {
            let t = #[trigger] ranked_namespaces(inputs)[k];
            t.critical + t.warning + t.healthy == t.tables
        },
        forall|k: int, l: int| 0 <= k < l < ranked_namespaces(inputs).len() ==>
            (#[trigger] ranked_namespaces(inputs)[k]).critical >= (#[trigger] ranked_namespaces(inputs)[l]).critical,
{
    broadcast use vstd::seq_lib::group_to_multiset_ensures;
    let ts = namespace_tallies(inputs);
    lemma_tallies_consistent(inputs);
    let rs = namespace_ranks(ts);
    let order = sort_ranked(rs);
    lemma_sort_ranked_sorted(rs);
    let ranked = ranked_namespaces(inputs);
    assert forall|k: int| 0 <= k < order.len() implies {
        &&& 0 <= (#[trigger] order[k]).2 < ts.len()
        &&& order[k] == rs[order[k].2 as int]
    } by {
        assert(order.to_multiset().count(order[k]) > 0);
        assert(rs.contains(order[k]));
        let j = choose|j: int| 0 <= j < rs.len() && rs[j] == order[k];
        assert(rs[j].2 == j);
    }
    assert forall|k: int| 0 <= k < ranked.len() implies {
        let t = #[trigger] ranked[k];
        t.critical + t.warning + t.healthy == t.tables
    } by {
        let i = order[k].2 as int;
        assert(ranked[k] == ts[i]);
    }
    assert forall|k: int, l: int| 0 <= k < l < ranked.len() implies
        (#[trigger] ranked[k]).critical >= (#[trigger] ranked[l]).critical by {
        assert(rank_ge(order[k], order[l]));
        let i = order[k].2 as int;
        let j = order[l].2 as int;
        assert(ranked[k] == ts[i]);
        assert(ranked[l] == ts[j]);
        assert(ts[i].critical <= inputs.len());
        assert(ts[j].critical <= inputs.len());
    }
}

/// `r` is the fleet report of `inputs` at instant `now`.
pub open spec fn is_fleet_report(r: FleetReport, inputs: Seq<FleetInput>, unreadable: usize, threshold: i64, now: i64) -> bool {
    &&& r.tables_scanned == inputs.len()
    &&& r.tables_unreadable == unreadable
    &&& r.generated_at_ms == now
    &&& tallies_of(r.namespaces@) == ranked_namespaces(inputs)
    &&& severity_pairs(r.by_severity@) == severity_tallies(inputs)
    &&& crate::report::string_views(r.unpartitioned_tables@) == names_where(inputs, true)
    &&& crate::report::string_views(r.format_v1_tables@) == names_where(inputs, false)
    &&& {
        let order = top_offender_order(inputs);
        &&& r.top_offenders@.len() == order.len()
        &&& forall|k: int| 0 <= k < order.len() ==> {
            let input = inputs[(#[trigger] order[k]).2 as int];
            &&& r.top_offenders@[k].table_name@ == input.table_name@
            &&& r.top_offenders@[k].severity@ == input.report.overall.severity.label_spec()
            &&& r.top_offenders@[k].critical_count == input.report.overall.critical_count
            &&& r.top_offenders@[k].warning_count == input.report.overall.warning_count
        }
    }
    &&& {
        let order = sort_ranked(dormant_ranks(inputs, now, threshold));
        let idx = dormant_indices(inputs, now, threshold);
        &&& r.dormant_tables@.len() == order.len()
        &&& forall|k: int| 0 <= k < order.len() ==> {
            let input = inputs[idx[(#[trigger] order[k]).2 as int] as int];
            &&& r.dormant_tables@[k].table_name@ == input.table_name@
            &&& r.dormant_tables@[k].days_since_last_commit == days_since_last_commit(input.metadata, now)
            &&& r.dormant_tables@[k].snapshot_count == input.metadata.snapshots@.len()
        }
    }
}

// ---------------------------------------------------------------------------
// Computation
// ---------------------------------------------------------------------------

fn find_namespace(ns: &Vec<NamespaceSummary>, name: &String) -> (r: Option<usize>)
    ensures
        r matches Some(j) ==> j == tally_index(tallies_of(ns@), name@) && j < ns@.len(),
        r is None ==> tally_index(tallies_of(ns@), name@) == -1,
{
    let ghost ts = tallies_of(ns@);
    let mut i: usize = 0;
    while i < ns.len()
        invariant
            i <= ns@.len(),
            ts == tallies_of(ns@),
            tally_index(ts.take(i as int), name@) == -1,
        decreases ns@.len() - i,
    {
        proof {
            assert(ts.take(i + 1).drop_last() =~= ts.take(i as int));
        }
        if ns[i].namespace == *name {
            proof {
                lemma_tally_prefix(ts, i as int, name@);
            }
            return Some(i);
        }
        i = i + 1;
    }
    proof {
        assert(ts.take(ns@.len() as int) =~= ts);
    }
    None
}

proof fn lemma_tally_prefix(ts: Seq<NamespaceTally>, i: int, k: Seq<char>)
    requires
        0 <= i < ts.len(),
        tally_index(ts.take(i), k) == -1,
        ts[i].namespace == k,
    ensures
        tally_index(ts, k) == i,
    decreases ts.len(),
{
    if ts.len() - 1 > i {
        assert(ts.drop_last().take(i) =~= ts.take(i));
        lemma_tally_prefix(ts.drop_last(), i, k);
    } else {
        assert(ts.drop_last() =~= ts.take(i));
    }
}

fn find_label(v: &Vec<(String, usize)>, label: &String) -> (r: Option<usize>)
    ensures
        r matches Some(j) ==> j == label_index(severity_pairs(v@), label@) && j < v@.len(),
        r is None ==> label_index(severity_pairs(v@), label@) == -1,
{
    let ghost ts = severity_pairs(v@);
    let mut i: usize = 0;
    while i < v.len()
        invariant
            i <= v@.len(),
            ts == severity_pairs(v@),
            label_index(ts.take(i as int), label@) == -1,
        decreases v@.len() - i,
    {
        proof {
            assert(ts.take(i + 1).drop_last() =~= ts.take(i as int));
        }
        if v[i].0 == *label {
            proof {
                lemma_label_prefix(ts, i as int, label@);
            }
            return Some(i);
        }
        i = i + 1;
    }
    proof {
        assert(ts.take(v@.len() as int) =~= ts);
    }
    None
}

proof fn lemma_label_prefix(ts: Seq<(Seq<char>, nat)>, i: int, k: Seq<char>)
    requires
        0 <= i < ts.len(),
        label_index(ts.take(i), k) == -1,
        ts[i].0 == k,
    ensures
        label_index(ts, k) == i,
    decreases ts.len(),
{
    if ts.len() - 1 > i {
        assert(ts.drop_last().take(i) =~= ts.take(i));
        lemma_label_prefix(ts.drop_last(), i, k);
    } else {
        assert(ts.drop_last() =~= ts.take(i));
    }
}

/// Namespace tallies stay within the number of tables seen.
pub open spec fn tallies_bounded(ts: Seq<NamespaceTally>, n: nat) -> bool {
    forall|i: int| 0 <= i < ts.len() ==> #[trigger] ts[i].tables <= n && ts[i].critical <= n
        && ts[i].warning <= n && ts[i].healthy <= n
}

pub open spec fn labels_bounded(ts: Seq<(Seq<char>, nat)>, n: nat) -> bool {
    forall|i: int| 0 <= i < ts.len() ==> (#[trigger] ts[i]).1 <= n
}

/// Computes the fleet report of `inputs` at instant `now_ms`, with tables
/// dormant after `dormant_days` days (90 by default).
pub fn compute_fleet_report_at(inputs: Vec<FleetInput>, unreadable_count: usize, dormant_days: Option<i64>, now_ms: i64)
    -> (r: FleetReport)
    requires
        chrono_ms_in_range(now_ms as int),
    ensures
        is_fleet_report(r, inputs@, unreadable_count, match dormant_days { Some(d) => d, None => 90 }, now_ms),
{
    let threshold: i64 = match dormant_days {
        Some(d) => d,
        None => DEFAULT_DORMANT_DAYS,
    };
    let ghost ins = inputs@;
    let n = inputs.len();
    let mut namespaces: Vec<NamespaceSummary> = Vec::new();
    let mut by_severity: Vec<(String, usize)> = Vec::new();
    let mut unpartitioned: Vec<String> = Vec::new();
    let mut v1: Vec<String> = Vec::new();
    let mut dormant_idx: Vec<usize> = Vec::new();
    let mut dormant_days_of: Vec<i64> = Vec::new();
    let mut i: usize = 0;
    while i < n
        invariant
            n == ins.len(),
            ins == inputs@,
            i <= n,
            chrono_ms_in_range(now_ms as int),
            tallies_of(namespaces@) == namespace_tallies(ins.take(i as int)),
            tallies_bounded(tallies_of(namespaces@), i as nat),
            severity_pairs(by_severity@) == severity_tallies(ins.take(i as int)),
            labels_bounded(severity_pairs(by_severity@), i as nat),
            crate::report::string_views(unpartitioned@) == names_where(ins.take(i as int), true),
            crate::report::string_views(v1@) == names_where(ins.take(i as int), false),
            dormant_idx@ == dormant_indices(ins.take(i as int), now_ms, threshold),
            dormant_days_of@.len() == dormant_idx@.len(),
            forall|k: int| 0 <= k < dormant_idx@.len() ==> {
                &&& (#[trigger] dormant_idx@[k]) < i
                &&& dormant_days_of@[k] == days_since_last_commit(ins[dormant_idx@[k] as int].metadata, now_ms)
            },
        decreases n - i,
    {
        let ghost prefix = ins.take(i as int);
        let ghost next = ins.take(i + 1);
        proof {
            assert(next.drop_last() =~= prefix);
            assert(next.last() == ins[i as int]);
        }
        let input = &inputs[i];
        let sev = input.report.overall.severity;

        // Namespace tally.
        let ns_name = namespace_name(&input.table_name);
        let ghost old_ts = tallies_of(namespaces@);
        proof {
            lemma_tally_index(old_ts, ns_name@);
        }
        match find_namespace(&namespaces, &ns_name) {
            Some(j) => {
                let old = &namespaces[j];
                proof {
                    assert(old_ts[j as int] == namespaces@[j as int].tally());
                    assert(old_ts[j as int].tables <= i);
                }
                let updated = NamespaceSummary {
                    namespace: ns_name,
                    table_count: old.table_count + 1,
                    critical: old.critical + if sev.rank_exec() == 2 { 1 } else { 0 },
                    warning: old.warning + if sev.rank_exec() == 1 { 1 } else { 0 },
                    healthy: old.healthy + if sev.rank_exec() == 0 { 1 } else { 0 },
                };
                namespaces.set(j, updated);
                proof {
                    assert(tallies_of(namespaces@) =~= old_ts.update(j as int, bump(old_ts[j as int], sev)));
                    assert(tallies_bounded(tallies_of(namespaces@), (i + 1) as nat));
                }
            },
            None => {
                namespaces.push(NamespaceSummary {
                    namespace: ns_name,
                    table_count: 1,
                    critical: if sev.rank_exec() == 2 { 1 } else { 0 },
                    warning: if sev.rank_exec() == 1 { 1 } else { 0 },
                    healthy: if sev.rank_exec() == 0 { 1 } else { 0 },
                });
                proof {
                    let z = NamespaceTally { namespace: ns_name@, tables: 0, critical: 0, warning: 0, healthy: 0 };
                    assert(tallies_of(namespaces@) =~= old_ts.push(bump(z, sev)));
                }
            },
        }

        // Severity tally.
        let label = sev.label();
        let ghost old_ls = severity_pairs(by_severity@);
        proof {
            lemma_label_index(old_ls, label@);
        }
        match find_label(&by_severity, &label) {
            Some(j) => {
                let count = by_severity[j].1;
                proof {
                    assert(old_ls[j as int].1 == count);
                    assert(old_ls[j as int].1 <= i);
                }
                by_severity.set(j, (label, count + 1));
                proof {
                    assert(severity_pairs(by_severity@) =~= old_ls.update(j as int, (sev.label_spec(), old_ls[j as int].1 + 1)));
                }
            },
            None => {
                by_severity.push((label, 1));
                proof {
                    assert(severity_pairs(by_severity@) =~= old_ls.push((sev.label_spec(), 1nat)));
                }
            },
        }

        // Dormancy.
        let ns_count = input.metadata.snapshots.len();
        if ns_count > 0 {
            let last = input.metadata.snapshots[ns_count - 1].timestamp();
            proof {
                assert(input.metadata.snapshots@[ns_count - 1] == input.metadata.snapshots@.last());
            }
            let age = days_between(now_ms, last);
            if age >= threshold {
                dormant_idx.push(i);
                dormant_days_of.push(age);
            }
        }

        // Unpartitioned and format-version 1 tables.
        if input.metadata.partition_spec.fields.len() == 0 {
            let ghost before = crate::report::string_views(unpartitioned@);
            unpartitioned.push(input.table_name.clone());
            proof {
                assert(crate::report::string_views(unpartitioned@) =~= before.push(input.table_name@));
            }
        }
        if input.metadata.format_version == 1 {
            let ghost before = crate::report::string_views(v1@);
            v1.push(input.table_name.clone());
            proof {
                assert(crate::report::string_views(v1@) =~= before.push(input.table_name@));
            }
        }
        i = i + 1;
    }
    proof {
        assert(ins.take(n as int) =~= ins);
    }

    // Namespaces, most critical first.
    let mut ns_ranks: Vec<(u64, u64, usize)> = Vec::new();
    let mut k: usize = 0;
    while k < namespaces.len()
        invariant
            k <= namespaces@.len(),
            ns_ranks@ =~= namespace_ranks(tallies_of(namespaces@)).take(k as int),
        decreases namespaces@.len() - k,
    {
        ns_ranks.push((namespaces[k].critical as u64, 0, k));
        k = k + 1;
    }
    proof {
        assert(ns_ranks@ =~= namespace_ranks(tallies_of(namespaces@)));
    }
    let ns_order = sort_by_rank(&ns_ranks);
    proof {
        lemma_sort_ranked(ns_ranks@, namespaces@.len() as usize);
    }
    let mut sorted_ns: Vec<NamespaceSummary> = Vec::new();
    let mut k: usize = 0;
    while k < ns_order.len()
        invariant
            k <= ns_order@.len(),
            ns_order@.len() == namespaces@.len(),
            forall|j: int| 0 <= j < ns_order@.len() ==> (#[trigger] ns_order@[j]).2 < namespaces@.len(),
            sorted_ns@.len() == k,
            forall|j: int| 0 <= j < k ==> (#[trigger] sorted_ns@[j]).tally() == namespaces@[ns_order@[j].2 as int].tally(),
        decreases ns_order@.len() - k,
    {
        let src = &namespaces[ns_order[k].2];
        sorted_ns.push(NamespaceSummary {
            namespace: src.namespace.clone(),
            table_count: src.table_count,
            critical: src.critical,
            warning: src.warning,
            healthy: src.healthy,
        });
        k = k + 1;
    }
    proof {
        assert(tallies_of(sorted_ns@) =~= ranked_namespaces(inputs@));
    }

    // Top offenders.
    let mut ranks: Vec<(u64, u64, usize)> = Vec::new();
    let mut k: usize = 0;
    while k < n
        invariant
            n == inputs@.len(),
            k <= n,
            ranks@ =~= brief_ranks(inputs@).take(k as int),
        decreases n - k,
    {
        ranks.push((inputs[k].report.overall.critical_count as u64, inputs[k].report.overall.warning_count as u64, k));
        k = k + 1;
    }
    proof {
        assert(ranks@ =~= brief_ranks(inputs@));
    }
    let order = sort_by_rank(&ranks);
    proof {
        lemma_sort_ranked(ranks@, n);
    }
    let top_n = if order.len() < 10 { order.len() } else { 10 };
    let mut top: Vec<TableBrief> = Vec::new();
    let mut k: usize = 0;
    while k < top_n
        invariant
            n == inputs@.len(),
            top_n <= order@.len(),
            order@ == sort_ranked(brief_ranks(inputs@)),
            order@.len() == n,
            top_n == if order@.len() <= 10 { order@.len() } else { 10 },
            forall|j: int| 0 <= j < order@.len() ==> (#[trigger] order@[j]).2 < n,
            k <= top_n,
            top@.len() == k,
            forall|j: int| 0 <= j < k ==> {
                let input = inputs@[(#[trigger] order@[j]).2 as int];
                &&& top@[j].table_name@ == input.table_name@
                &&& top@[j].severity@ == input.report.overall.severity.label_spec()
                &&& top@[j].critical_count == input.report.overall.critical_count
                &&& top@[j].warning_count == input.report.overall.warning_count
            },
        decreases top_n - k,
    {
        let input = &inputs[order[k].2];
        top.push(TableBrief {
            table_name: input.table_name.clone(),
            severity: input.report.overall.severity.label(),
            critical_count: input.report.overall.critical_count,
            warning_count: input.report.overall.warning_count,
        });
        k = k + 1;
    }
    proof {
        let o = top_offender_order(inputs@);
        assert(o.len() == top_n);
        assert forall|j: int| 0 <= j < o.len() implies o[j] == order@[j] by {}
    }

    // Dormant tables, longest since the last commit first.
    let mut d_ranks: Vec<(u64, u64, usize)> = Vec::new();
    let mut k: usize = 0;
    while k < dormant_idx.len()
        invariant
            k <= dormant_idx@.len(),
            dormant_days_of@.len() == dormant_idx@.len(),
            d_ranks@.len() == k,
            forall|j: int| 0 <= j < k ==> #[trigger] d_ranks@[j] == (day_key(dormant_days_of@[j]), 0u64, j as usize),
        decreases dormant_idx@.len() - k,
    {
        let key = ((dormant_days_of[k] as i128) + 9_223_372_036_854_775_808i128) as u64;
        d_ranks.push((key, 0, k));
        k = k + 1;
    }
    let d_order = sort_by_rank(&d_ranks);
    proof {
        lemma_sort_ranked(d_ranks@, dormant_idx@.len() as usize);
    }
    let mut dormant: Vec<DormantTable> = Vec::new();
    let mut k: usize = 0;
    while k < d_order.len()
        invariant
            n == inputs@.len(),
            d_order@.len() == dormant_idx@.len(),
            dormant_days_of@.len() == dormant_idx@.len(),
            forall|j: int| 0 <= j < d_order@.len() ==> (#[trigger] d_order@[j]).2 < dormant_idx@.len(),
            forall|j: int| 0 <= j < dormant_idx@.len() ==> (#[trigger] dormant_idx@[j]) < n,
            k <= d_order@.len(),
            dormant@.len() == k,
            forall|j: int| 0 <= j < k ==> {
                let idx = dormant_idx@[(#[trigger] d_order@[j]).2 as int];
                &&& dormant@[j].table_name@ == inputs@[idx as int].table_name@
                &&& dormant@[j].days_since_last_commit == dormant_days_of@[d_order@[j].2 as int]
                &&& dormant@[j].snapshot_count == inputs@[idx as int].metadata.snapshots@.len()
            },
        decreases d_order@.len() - k,
    {
        let slot = d_order[k].2;
        let idx = dormant_idx[slot];
        let input = &inputs[idx];
        dormant.push(DormantTable {
            table_name: input.table_name.clone(),
            days_since_last_commit: dormant_days_of[slot],
            snapshot_count: input.metadata.snapshots.len() as u64,
        });
        k = k + 1;
    }
    proof {
        let dr = dormant_ranks(inputs@, now_ms, threshold);
        assert forall|j: int| 0 <= j < d_ranks@.len() implies d_ranks@[j] == dr[j] by {
            assert(d_ranks@[j] == (day_key(dormant_days_of@[j]), 0u64, j as usize));
        }
        assert(d_ranks@ =~= dr);
    }

    FleetReport {
        tables_scanned: n,
        tables_unreadable: unreadable_count,
        namespaces: sorted_ns,
        dormant_tables: dormant,
        unpartitioned_tables: unpartitioned,
        format_v1_tables: v1,
        by_severity,
        top_offenders: top,
        generated_at_ms: now_ms,
    }
}

/// Computes the fleet report at the current instant.
pub fn compute_fleet_report(inputs: Vec<FleetInput>, unreadable_count: usize, dormant_days: Option<i64>) -> (r: FleetReport)
    ensures
        chrono_ms_in_range(r.generated_at_ms as int),
        is_fleet_report(r, inputs@, unreadable_count, match dormant_days { Some(d) => d, None => 90 }, r.generated_at_ms),
{
    let now = now_ms();
    compute_fleet_report_at(inputs, unreadable_count, dormant_days, now)
}

impl FleetInput {
    /// Checks the table with the configured thresholds and pairs the report
    /// with its metadata. `None` when the engine produces no report (see
    /// `engine::check_table`).
    pub fn from_metadata(table_name: String, metadata: TableMetadata, config: &FrostConfig) -> (r: Option<FleetInput>)
        requires
            metadata.totals_fit(),
        ensures
            r matches Some(fi) ==> {
                &&& fi.table_name == table_name
                &&& fi.metadata == metadata
                &&& crate::engine::is_report(fi.report, crate::checks::all_checks_spec(), metadata, config.thresholds,
                    fi.report.generated_at_ms)
            },
            r is None ==> exists|t: i64| 0 <= t && chrono_ms_in_range(t as int)
                && !crate::engine::all_defined(crate::checks::all_checks_spec(), metadata, config.thresholds, t),
            crate::engine::spans_representable(config.thresholds) ==> r is Some,
    {
        match crate::engine::check_table(&metadata, config) {
            Some(report) => Some(FleetInput { table_name, metadata, report }),
            None => None,
        }
    }
}

} // verus!
