//! Partition skew, measured by bytes and rows — not file counts.
//!
//! File-count skew misses the real problem (a partition with one 100 GB file
//! is not "balanced" with neighbors holding one 1 KB file). The check reports
//! the max/median ratio for bytes, rows and files, plus p95/p99 percentiles,
//! and flags whichever dimension trips the threshold.
//!
//! Ratios are exact fractions `(numerator, denominator)`. A percentile `p`
//! of `n` sorted values is the value at index `p·(n−1)/100` rounded half up.

use vstd::prelude::*;
use crate::checks::{entry, lit, pass_finding, ratio_text, ratio_text_spec};
use crate::config::Thresholds;
use crate::metadata::{data_bytes, data_records, PartitionField, TableMetadata};
use crate::partition::{
    add_to_groups, group_data_files, group_files, group_key, groups_view, key_index, lemma_key_index_bounds,
    GroupSpec, PartitionGroup,
};
use crate::report::{has_entry, has_text, keys_are, Detail, Finding, Severity};
use crate::text::{dec, lemma_mul_fits};

verus! {

pub struct PartitionSkewCheck;

// ---------------------------------------------------------------------------
// Totals per dimension
// ---------------------------------------------------------------------------

/// A dimension along which partitions are compared.
#[derive(Clone, Copy, Debug, PartialEq, Eq, Structural)]
pub enum SkewDimension {
    Bytes,
    Rows,
    Files,
}

pub open spec fn dim_value(g: GroupSpec, d: SkewDimension) -> nat {
    match d {
        SkewDimension::Bytes => g.bytes,
        SkewDimension::Rows => g.rows,
        SkewDimension::Files => g.files,
    }
}

pub open spec fn dim_label(d: SkewDimension) -> Seq<char> {
    match d {
        SkewDimension::Bytes => "bytes"@,
        SkewDimension::Rows => "rows"@,
        SkewDimension::Files => "files"@,
    }
}

/// Sum of a dimension over groups.
pub open spec fn groups_total(gs: Seq<GroupSpec>, d: SkewDimension) -> nat
    decreases gs.len(),
{
    if gs.len() == 0 {
        0
    } else {
        groups_total(gs.drop_last(), d) + dim_value(gs.last(), d)
    }
}

proof fn lemma_total_update(gs: Seq<GroupSpec>, j: int, g: GroupSpec, d: SkewDimension)
    requires
        0 <= j < gs.len(),
    ensures
        groups_total(gs.update(j, g), d) + dim_value(gs[j], d) == groups_total(gs, d) + dim_value(g, d),
    decreases gs.len(),
{
    if j == gs.len() - 1 {
        assert(gs.update(j, g).drop_last() =~= gs.drop_last());
    } else {
        assert(gs.update(j, g).drop_last() =~= gs.drop_last().update(j, g));
        lemma_total_update(gs.drop_last(), j, g, d);
    }
}

proof fn lemma_total_add(gs: Seq<GroupSpec>, k: Seq<char>, bytes: nat, rows: nat, d: SkewDimension)
    ensures
        groups_total(add_to_groups(gs, k, bytes, rows), d) == groups_total(gs, d) + match d {
            SkewDimension::Bytes => bytes,
            SkewDimension::Rows => rows,
            SkewDimension::Files => 1nat,
        },
{
    lemma_key_index_bounds(gs, k);
    let j = key_index(gs, k);
    if j >= 0 {
        let g = GroupSpec { key: k, files: gs[j].files + 1, bytes: gs[j].bytes + bytes, rows: gs[j].rows + rows };
        lemma_total_update(gs, j, g, d);
    } else {
        let g = GroupSpec { key: k, files: 1, bytes, rows };
        assert(gs.push(g).drop_last() =~= gs);
    }
}

/// Grouping keeps the totals: the groups' bytes, rows and file counts add
/// up to those of the files grouped.
pub proof fn law_grouping_keeps_totals(files: Seq<crate::metadata::DataFile>, mark_unpartitioned: bool)
    ensures
        groups_total(group_files(files, mark_unpartitioned, None), SkewDimension::Bytes) == data_bytes(files),
        groups_total(group_files(files, mark_unpartitioned, None), SkewDimension::Rows) == data_records(files),
        groups_total(group_files(files, mark_unpartitioned, None), SkewDimension::Files) == files.len(),
    decreases files.len(),
{
    if files.len() > 0 {
        law_grouping_keeps_totals(files.drop_last(), mark_unpartitioned);
        let prev = group_files(files.drop_last(), mark_unpartitioned, None);
        let k = group_key(files.last(), mark_unpartitioned);
        let b = files.last().file_size_bytes as nat;
        let r = files.last().record_count as nat;
        lemma_total_add(prev, k, b, r, SkewDimension::Bytes);
        lemma_total_add(prev, k, b, r, SkewDimension::Rows);
        lemma_total_add(prev, k, b, r, SkewDimension::Files);
    } else {
        assert(group_files(files, mark_unpartitioned, None) =~= Seq::<GroupSpec>::empty());
    }
}

/// The values of one dimension, one per group, in group order.
pub open spec fn dim_values(gs: Seq<GroupSpec>, d: SkewDimension) -> Seq<u64> {
    Seq::new(gs.len(), |i: int| dim_value(gs[i], d) as u64)
}

/// Sum of a sequence of values.
pub open spec fn sum_u64(s: Seq<u64>) -> nat
    decreases s.len(),
{
    if s.len() == 0 { 0 } else { sum_u64(s.drop_last()) + s.last() as nat }
}

proof fn lemma_sum_values(gs: Seq<GroupSpec>, d: SkewDimension)
    requires
        forall|i: int| 0 <= i < gs.len() ==> dim_value(#[trigger] gs[i], d) <= u64::MAX,
    ensures
        sum_u64(dim_values(gs, d)) == groups_total(gs, d),
    decreases gs.len(),
{
    if gs.len() > 0 {
        assert(dim_values(gs, d).drop_last() =~= dim_values(gs.drop_last(), d));
        assert(gs.last() == gs[gs.len() - 1]);
        lemma_sum_values(gs.drop_last(), d);
    }
}

fn dim_vec(groups: &Vec<PartitionGroup>, d: SkewDimension) -> (r: Vec<u64>)
    ensures
        r@ == dim_values(groups_view(groups@), d),
{
    let mut r: Vec<u64> = Vec::new();
    let mut i: usize = 0;
    while i < groups.len()
        invariant
            i <= groups@.len(),
            r@.len() == i,
            forall|k: int| 0 <= k < i ==> r@[k] == dim_value(groups_view(groups@)[k], d) as u64,
        decreases groups@.len() - i,
    {
        let v = match d {
            SkewDimension::Bytes => groups[i].total_bytes,
            SkewDimension::Rows => groups[i].total_rows,
            SkewDimension::Files => groups[i].file_count,
        };
        r.push(v);
        i = i + 1;
    }
    proof {
        assert(r@ =~= dim_values(groups_view(groups@), d));
    }
    r
}

// ---------------------------------------------------------------------------
// Distributions
// ---------------------------------------------------------------------------

/// `x` inserted into `s` after every value not above it.
pub open spec fn insert_asc(s: Seq<u64>, x: u64) -> Seq<u64>
    decreases s.len(),
{
    if s.len() == 0 {
        seq![x]
    } else if s.last() <= x {
        s.push(x)
    } else {
        insert_asc(s.drop_last(), x).push(s.last())
    }
}

/// The values in ascending order (insertion sort).
pub open spec fn sort_asc(s: Seq<u64>) -> Seq<u64>
    decreases s.len(),
{
    if s.len() == 0 { s } else { insert_asc(sort_asc(s.drop_last()), s.last()) }
}

proof fn lemma_insert_len(s: Seq<u64>, x: u64)
    ensures
        insert_asc(s, x).len() == s.len() + 1,
    decreases s.len(),
{
    if s.len() > 0 && s.last() > x {
        lemma_insert_len(s.drop_last(), x);
    }
}

pub proof fn lemma_sort_len(s: Seq<u64>)
    ensures
        sort_asc(s).len() == s.len(),
    decreases s.len(),
{
    if s.len() > 0 {
        lemma_sort_len(s.drop_last());
        lemma_insert_len(sort_asc(s.drop_last()), s.last());
    }
}

/// The values are in ascending order.
pub open spec fn ascending(s: Seq<u64>) -> bool {
    forall|i: int, j: int| 0 <= i < j < s.len() ==> #[trigger] s[i] <= #[trigger] s[j]
}

proof fn lemma_insert_asc_content(s: Seq<u64>, x: u64)
    ensures
        insert_asc(s, x).to_multiset() =~= s.to_multiset().insert(x),
    decreases s.len(),
{
    broadcast use vstd::seq_lib::group_to_multiset_ensures;
    if s.len() == 0 {
        assert(seq![x] =~= Seq::<u64>::empty().push(x));
    } else if s.last() > x {
        lemma_insert_asc_content(s.drop_last(), x);
        assert(s =~= s.drop_last().push(s.last()));
    }
}

proof fn lemma_insert_asc_sorted(s: Seq<u64>, x: u64)
    requires
        ascending(s),
    ensures
        ascending(insert_asc(s, x)),
    decreases s.len(),
{
    broadcast use vstd::seq_lib::group_to_multiset_ensures;
    if s.len() == 0 {
    } else if s.last() <= x {
        let r = s.push(x);
        assert forall|i: int, j: int| 0 <= i < j < r.len() implies #[trigger] r[i] <= #[trigger] r[j] by {
            if j == s.len() && i < s.len() - 1 {
                assert(s[i] <= s[s.len() - 1]);
            }
        }
    } else {
        let d = s.drop_last();
        assert forall|i: int, j: int| 0 <= i < j < d.len() implies #[trigger] d[i] <= #[trigger] d[j] by {
            assert(s[i] <= s[j]);
        }
        lemma_insert_asc_sorted(d, x);
        lemma_insert_asc_content(d, x);
        lemma_insert_len(d, x);
        let m = insert_asc(d, x);
        let r = m.push(s.last());
        assert forall|i: int, j: int| 0 <= i < j < r.len() implies #[trigger] r[i] <= #[trigger] r[j] by {
            if j == m.len() {
                let e = m[i];
                assert(m.to_multiset().count(e) > 0);
                if e != x {
                    assert(d.to_multiset().count(e) > 0);
                    assert(d.contains(e));
                    let k = choose|k: int| 0 <= k < d.len() && d[k] == e;
                    assert(s[k] <= s[s.len() - 1]);
                }
            }
        }
    }
}

/// Sorting puts the values in ascending order and keeps exactly the
/// values it was given.
pub proof fn lemma_sort_asc(s: Seq<u64>)
    ensures
        ascending(sort_asc(s)),
        sort_asc(s).to_multiset() =~= s.to_multiset(),
        sort_asc(s).len() == s.len(),
    decreases s.len(),
{
    broadcast use vstd::seq_lib::group_to_multiset_ensures;
    lemma_sort_len(s);
    if s.len() > 0 {
        lemma_sort_asc(s.drop_last());
        lemma_insert_asc_sorted(sort_asc(s.drop_last()), s.last());
        lemma_insert_asc_content(sort_asc(s.drop_last()), s.last());
        assert(s =~= s.drop_last().push(s.last()));
    }
}

fn insert_value(out: &mut Vec<u64>, x: u64)
    ensures
        final(out)@ == insert_asc(old(out)@, x),
    decreases old(out)@.len(),
{
    let ghost old_v = out@;
    let n = out.len();
    if n == 0 || out[n - 1] <= x {
        out.push(x);
    } else {
        let last = out.pop().unwrap();
        proof {
            assert(out@ =~= old_v.drop_last());
        }
        insert_value(out, x);
        out.push(last);
    }
}

/// The values in ascending order.
pub fn sort_values(values: &Vec<u64>) -> (r: Vec<u64>)
    ensures
        r@ == sort_asc(values@),
{
    let mut out: Vec<u64> = Vec::new();
    let mut i: usize = 0;
    while i < values.len()
        invariant
            i <= values@.len(),
            out@ == sort_asc(values@.take(i as int)),
        decreases values@.len() - i,
    {
        proof {
            assert(values@.take(i + 1).drop_last() =~= values@.take(i as int));
        }
        insert_value(&mut out, values[i]);
        i = i + 1;
    }
    proof {
        assert(values@.take(values@.len() as int) =~= values@);
    }
    out
}

/// Index of percentile `p` among `n` sorted values: `p·(n−1)/100`
/// rounded half up, at most `n − 1`.
pub open spec fn pct_index(p: nat, n: nat) -> int {
    let i = (p * (n - 1) + 50) / 100;
    if i < n - 1 { i } else { n - 1 }
}

/// Summary of a distribution of per-partition values.
#[derive(Clone, Copy, Debug, PartialEq, Eq, Structural)]
pub struct Distribution {
    pub median: u64,
    pub p95: u64,
    pub p99: u64,
    pub max: u64,
    pub sum: u64,
    pub count: u64,
}

/// The distribution of `values`: percentiles of the sorted values, the last
/// sorted value as the maximum, the sum and the count; all zero when empty.
pub open spec fn dist_of(values: Seq<u64>) -> Distribution {
    let s = sort_asc(values);
    let n = values.len();
    if n == 0 {
        Distribution { median: 0, p95: 0, p99: 0, max: 0, sum: 0, count: 0 }
    } else {
        Distribution {
            median: s[pct_index(50, n)],
            p95: s[pct_index(95, n)],
            p99: s[pct_index(99, n)],
            max: s[n - 1],
            sum: sum_u64(values) as u64,
            count: n as u64,
        }
    }
}

proof fn lemma_pct_index_monotone(p: nat, q: nat, n: nat)
    requires
        p <= q <= 100,
        n > 0,
    ensures
        0 <= pct_index(p, n) <= pct_index(q, n) <= n - 1,
{
    assert(p * (n - 1) <= q * (n - 1)) by (nonlinear_arith)
        requires p <= q, n > 0;
    assert((p * (n - 1) + 50) / 100 <= (q * (n - 1) + 50) / 100) by (nonlinear_arith)
        requires p * (n - 1) <= q * (n - 1);
}

/// The distribution's statistics are ordered: median, then p95, then p99,
/// then the maximum, which is the largest of the values and one of them.
pub proof fn law_distribution_ordered(values: Seq<u64>)
    requires
        values.len() > 0,
    ensures
        dist_of(values).median <= dist_of(values).p95,
        dist_of(values).p95 <= dist_of(values).p99,
        dist_of(values).p99 <= dist_of(values).max,
        forall|i: int| 0 <= i < values.len() ==> #[trigger] values[i] <= dist_of(values).max,
        values.contains(dist_of(values).max),
{
    broadcast use vstd::seq_lib::group_to_multiset_ensures;
    let s = sort_asc(values);
    let n = values.len();
    lemma_sort_asc(values);
    lemma_pct_index_monotone(50, 95, n);
    lemma_pct_index_monotone(95, 99, n);
    lemma_pct_index_monotone(99, 100, n);
    let i50 = pct_index(50, n);
    let i95 = pct_index(95, n);
    let i99 = pct_index(99, n);
    if i50 < i95 { assert(s[i50] <= s[i95]); }
    if i95 < i99 { assert(s[i95] <= s[i99]); }
    if i99 < n - 1 { assert(s[i99] <= s[n - 1]); }
    assert forall|i: int| 0 <= i < values.len() implies #[trigger] values[i] <= dist_of(values).max by {
        assert(values.to_multiset().count(values[i]) > 0);
        assert(s.contains(values[i]));
        let k = choose|k: int| 0 <= k < s.len() && s[k] == values[i];
        if k < n - 1 { assert(s[k] <= s[n - 1]); }
    }
    assert(s.to_multiset().count(s[n - 1]) > 0);
}

fn percentile(sorted: &Vec<u64>, p: u64) -> (v: u64)
    requires
        sorted@.len() > 0,
        p <= 100,
    ensures
        v == sorted@[pct_index(p as nat, sorted@.len())],
{
    let n = sorted.len();
    proof {
        assert(p * (n - 1) <= 100 * u64::MAX) by (nonlinear_arith)
            requires p <= 100, n - 1 <= u64::MAX;
    }
    let i: u128 = ((p as u128) * ((n - 1) as u128) + 50) / 100;
    let idx: usize = if i < (n - 1) as u128 { i as usize } else { n - 1 };
    sorted[idx]
}

/// Sum of the values.
fn sum_values(values: &Vec<u64>) -> (s: u64)
    requires
        sum_u64(values@) <= u64::MAX,
    ensures
        s == sum_u64(values@),
{
    let mut acc: u64 = 0;
    let mut i: usize = 0;
    while i < values.len()
        invariant
            i <= values@.len(),
            sum_u64(values@) <= u64::MAX,
            acc == sum_u64(values@.take(i as int)),
        decreases values@.len() - i,
    {
        proof {
            assert(values@.take(i + 1).drop_last() =~= values@.take(i as int));
            lemma_sum_prefix(values@, i + 1);
        }
        acc = acc + values[i];
        i = i + 1;
    }
    proof {
        assert(values@.take(values@.len() as int) =~= values@);
    }
    acc
}

proof fn lemma_sum_prefix(s: Seq<u64>, i: int)
    requires
        0 <= i <= s.len(),
    ensures
        sum_u64(s.take(i)) <= sum_u64(s),
    decreases s.len() - i,
{
    if i < s.len() {
        lemma_sum_prefix(s, i + 1);
        assert(s.take(i + 1).drop_last() =~= s.take(i));
    } else {
        assert(s.take(i) =~= s);
    }
}

impl Distribution {
    /// The distribution of `values` (see `dist_of`).
    pub fn from_values(values: &Vec<u64>) -> (d: Distribution)
        requires
            sum_u64(values@) <= u64::MAX,
        ensures
            d == dist_of(values@),
    {
        let n = values.len();
        if n == 0 {
            return Distribution { median: 0, p95: 0, p99: 0, max: 0, sum: 0, count: 0 };
        }
        let sorted = sort_values(values);
        proof {
            lemma_sort_len(values@);
        }
        Distribution {
            median: percentile(&sorted, 50),
            p95: percentile(&sorted, 95),
            p99: percentile(&sorted, 99),
            max: sorted[n - 1],
            sum: sum_values(values),
            count: n as u64,
        }
    }

    /// The max/median ratio as an exact fraction; with a zero median, 1000
    /// when the maximum is positive and 0 otherwise.
    pub open spec fn ratio(self) -> (nat, nat) {
        if self.median == 0 {
            if self.max > 0 { (1000, 1) } else { (0, 1) }
        } else {
            (self.max as nat, self.median as nat)
        }
    }

    /// The max/median ratio as `(numerator, denominator)`.
    pub fn ratio_max_over_median(&self) -> (r: (u64, u64))
        ensures
            r.0 as nat == self.ratio().0,
            r.1 as nat == self.ratio().1,
            r.1 > 0,
    {
        if self.median == 0 {
            if self.max > 0 { (1000, 1) } else { (0, 1) }
        } else {
            (self.max, self.median)
        }
    }

    /// The distribution as an object detail.
    pub fn to_detail(&self) -> (d: Detail)
        ensures
            is_dist_detail(d, *self),
    {
        let d = Detail::Object(vec![
            entry("median", Detail::UInt(self.median)),
            entry("p95", Detail::UInt(self.p95)),
            entry("p99", Detail::UInt(self.p99)),
            entry("max", Detail::UInt(self.max)),
            entry("sum", Detail::UInt(self.sum)),
            entry("count", Detail::UInt(self.count)),
        ]);
        proof {
            assert(d->Object_0@[0].0@ == "median"@);
            assert(d->Object_0@[1].0@ == "p95"@);
            assert(d->Object_0@[2].0@ == "p99"@);
            assert(d->Object_0@[3].0@ == "max"@);
            assert(d->Object_0@[4].0@ == "sum"@);
            assert(d->Object_0@[5].0@ == "count"@);
            assert(keys_are(d, seq!["median"@, "p95"@, "p99"@, "max"@, "sum"@, "count"@]));
        }
        d
    }
}

/// `d` holds the six figures of `dist`.
pub open spec fn is_dist_detail(d: Detail, dist: Distribution) -> bool {
    &&& has_entry(d, "median"@, Detail::UInt(dist.median))
    &&& has_entry(d, "p95"@, Detail::UInt(dist.p95))
    &&& has_entry(d, "p99"@, Detail::UInt(dist.p99))
    &&& has_entry(d, "max"@, Detail::UInt(dist.max))
    &&& has_entry(d, "sum"@, Detail::UInt(dist.sum))
    &&& has_entry(d, "count"@, Detail::UInt(dist.count))
    &&& keys_are(d, seq!["median"@, "p95"@, "p99"@, "max"@, "sum"@, "count"@])
}

/// `d` is an object whose entry `key` holds the figures of `dist`.
pub open spec fn has_dist(d: Detail, key: Seq<char>, dist: Distribution) -> bool {
    match d {
        Detail::Object(es) => exists|i: int| 0 <= i < es@.len() && es@[i].0@ == key && is_dist_detail(es@[i].1, dist),
        _ => false,
    }
}

// ---------------------------------------------------------------------------
// The check
// ---------------------------------------------------------------------------

/// `a ≥ b` for fractions with positive denominators.
pub open spec fn ratio_ge(a: (nat, nat), b: (nat, nat)) -> bool {
    a.0 * b.1 >= b.0 * a.1
}

/// Partitions of the table's data files, in order of first appearance.
pub open spec fn skew_groups(m: TableMetadata) -> Seq<GroupSpec> {
    group_files(m.data_files@, false, None)
}

pub open spec fn skew_dist(m: TableMetadata, d: SkewDimension) -> Distribution {
    dist_of(dim_values(skew_groups(m), d))
}

/// The largest of the three ratios.
pub open spec fn worst_ratio(m: TableMetadata) -> (nat, nat) {
    let b = skew_dist(m, SkewDimension::Bytes).ratio();
    let r = skew_dist(m, SkewDimension::Rows).ratio();
    let f = skew_dist(m, SkewDimension::Files).ratio();
    let br = if ratio_ge(b, r) { b } else { r };
    if ratio_ge(br, f) { br } else { f }
}

/// The dimension with the largest ratio, bytes before rows before files.
pub open spec fn driving_dimension(m: TableMetadata) -> SkewDimension {
    let b = skew_dist(m, SkewDimension::Bytes).ratio();
    let r = skew_dist(m, SkewDimension::Rows).ratio();
    let f = skew_dist(m, SkewDimension::Files).ratio();
    if ratio_ge(b, r) && ratio_ge(b, f) {
        SkewDimension::Bytes
    } else if ratio_ge(r, f) {
        SkewDimension::Rows
    } else {
        SkewDimension::Files
    }
}

/// Index of the group with the most bytes (the last such group on ties).
pub open spec fn max_bytes_index(gs: Seq<GroupSpec>) -> int
    decreases gs.len(),
{
    if gs.len() <= 1 {
        0
    } else {
        let j = max_bytes_index(gs.drop_last());
        if gs.last().bytes >= gs[j].bytes { gs.len() - 1 } else { j }
    }
}

proof fn lemma_max_bytes_index(gs: Seq<GroupSpec>)
    requires
        gs.len() > 0,
    ensures
        0 <= max_bytes_index(gs) < gs.len(),
    decreases gs.len(),
{
    if gs.len() > 1 {
        lemma_max_bytes_index(gs.drop_last());
    }
}

/// The key of the partition holding the most bytes.
pub open spec fn hot_partition(m: TableMetadata) -> Seq<char> {
    skew_groups(m)[max_bytes_index(skew_groups(m))].key
}

/// The ratio exceeds `limit_x100 / 100`.
pub open spec fn ratio_above(r: (nat, nat), limit_x100: nat) -> bool {
    r.0 * 100 > limit_x100 * r.1
}

pub open spec fn partition_skew_severity(m: TableMetadata, t: Thresholds) -> Severity {
    let w = worst_ratio(m);
    if m.partition_spec.fields@.len() == 0 || m.data_files@.len() == 0 || !ratio_above(w, t.partition_skew_ratio_x100 as nat) {
        Severity::Pass
    } else if ratio_above(w, 5 * (t.partition_skew_ratio_x100 as nat)) {
        Severity::Critical
    } else {
        Severity::Warning
    }
}

/// `max/median: bytes <b>x, rows <r>x, files <f>x`.
pub open spec fn ratios_text(m: TableMetadata) -> Seq<char> {
    let b = skew_dist(m, SkewDimension::Bytes).ratio();
    let r = skew_dist(m, SkewDimension::Rows).ratio();
    let f = skew_dist(m, SkewDimension::Files).ratio();
    "max/median: bytes "@ + ratio_text_spec(b.0, b.1, 1) + "x, rows "@ + ratio_text_spec(r.0, r.1, 1) + "x, files "@
        + ratio_text_spec(f.0, f.1, 1) + "x"@
}

/// The partition fields' names joined by `, `.
pub open spec fn joined_field_names(fields: Seq<PartitionField>) -> Seq<char>
    decreases fields.len(),
{
    if fields.len() == 0 {
        Seq::empty()
    } else if fields.len() == 1 {
        fields[0].name@
    } else {
        joined_field_names(fields.drop_last()) + ", "@ + fields.last().name@
    }
}

pub fn join_field_names(fields: &Vec<PartitionField>) -> (s: String)
    ensures
        s@ == joined_field_names(fields@),
{
    let mut s = String::new();
    let mut i: usize = 0;
    while i < fields.len()
        invariant
            i <= fields@.len(),
            s@ == joined_field_names(fields@.take(i as int)),
        decreases fields@.len() - i,
    {
        proof {
            assert(fields@.take(i + 1).drop_last() =~= fields@.take(i as int));
        }
        if i > 0 {
            s.append(", ");
        }
        s.append(fields[i].name.as_str());
        proof {
            if i == 0 {
                assert(s@ =~= joined_field_names(fields@.take(1)));
            } else {
                assert(s@ =~= joined_field_names(fields@.take(i + 1)));
            }
        }
        i = i + 1;
    }
    proof {
        assert(fields@.take(fields@.len() as int) =~= fields@);
    }
    s
}

pub open spec fn zorder_text(table: Seq<char>, fields: Seq<PartitionField>) -> Seq<char> {
    "CALL catalog.system.rewrite_data_files(table => '"@ + table + "', strategy => 'sort', sort_order => 'zorder("@
        + joined_field_names(fields) + ")')"@
}

pub open spec fn partition_skew_impact() -> Seq<char> {
    "Hot partitions cause Spark task stragglers — one executor does disproportionate work, turning a fast job into a slow one. Byte and row skew matter more than file-count skew."@
}

pub open spec fn partition_skew_suggestion() -> Seq<char> {
    "Repartition with a higher-cardinality transform, or rewrite with sort/zorder strategy to redistribute data more evenly."@
}

fn ratio_ge_exec(a: (u64, u64), b: (u64, u64)) -> (r: bool)
    ensures
        r == ratio_ge((a.0 as nat, a.1 as nat), (b.0 as nat, b.1 as nat)),
{
    proof {
        lemma_mul_fits(a.0 as nat, b.1 as nat);
        lemma_mul_fits(b.0 as nat, a.1 as nat);
    }
    (a.0 as u128) * (b.1 as u128) >= (b.0 as u128) * (a.1 as u128)
}

fn max_bytes_group(groups: &Vec<PartitionGroup>) -> (i: usize)
    requires
        groups@.len() > 0,
    ensures
        i == max_bytes_index(groups_view(groups@)),
        i < groups@.len(),
{
    let ghost gv = groups_view(groups@);
    let mut best: usize = 0;
    let mut i: usize = 1;
    while i < groups.len()
        invariant
            1 <= i <= groups@.len(),
            gv == groups_view(groups@),
            best < i,
            best == max_bytes_index(gv.take(i as int)),
        decreases groups@.len() - i,
    {
        proof {
            assert(gv.take(i + 1).drop_last() =~= gv.take(i as int));
            assert(gv.take(i + 1)[best as int] == gv[best as int]);
        }
        if groups[i].total_bytes >= groups[best].total_bytes {
            best = i;
        }
        i = i + 1;
    }
    proof {
        assert(gv.take(groups@.len() as int) =~= gv);
    }
    best
}

fn ratios_message(b: (u64, u64), r: (u64, u64), f: (u64, u64)) -> (s: String)
    requires
        b.1 > 0, r.1 > 0, f.1 > 0,
    ensures
        s@ == "max/median: bytes "@ + ratio_text_spec(b.0 as nat, b.1 as nat, 1) + "x, rows "@
            + ratio_text_spec(r.0 as nat, r.1 as nat, 1) + "x, files "@ + ratio_text_spec(f.0 as nat, f.1 as nat, 1)
            + "x"@,
{
    let mut s = lit("max/median: bytes ");
    s.append(ratio_text(b.0 as u128, b.1 as u128, 1).as_str());
    s.append("x, rows ");
    s.append(ratio_text(r.0 as u128, r.1 as u128, 1).as_str());
    s.append("x, files ");
    s.append(ratio_text(f.0 as u128, f.1 as u128, 1).as_str());
    s.append("x");
    s
}

/// The finding `f` is what the check reports for `m` under `t`.
pub open spec fn partition_skew_finding(f: Finding, m: TableMetadata, t: Thresholds) -> bool {
    &&& f.check_id@ == "partition_skew"@
    &&& f.check_name@ == "Partition Skew"@
    &&& f.severity == partition_skew_severity(m, t)
    &&& (m.partition_spec.fields@.len() == 0 ==> {
        &&& f.message@ == "Unpartitioned table — skew check not applicable"@
        &&& has_entry(f.details, "partitioned"@, Detail::Bool(false))
        &&& keys_are(f.details, seq!["partitioned"@])
    })
    &&& (m.partition_spec.fields@.len() > 0 && m.data_files@.len() == 0 ==> {
        &&& f.message@ == "No data files to analyze for partition skew"@
        &&& has_entry(f.details, "partitioned"@, Detail::Bool(true))
        &&& has_entry(f.details, "partition_count"@, Detail::UInt(0))
        &&& keys_are(f.details, seq!["partitioned"@, "partition_count"@])
    })
    &&& (m.partition_spec.fields@.len() > 0 && m.data_files@.len() > 0 ==> {
        &&& has_entry(f.details, "partition_count"@, Detail::UInt(skew_groups(m).len() as u64))
        &&& has_dist(f.details, "bytes"@, skew_dist(m, SkewDimension::Bytes))
        &&& has_dist(f.details, "rows"@, skew_dist(m, SkewDimension::Rows))
        &&& has_dist(f.details, "files"@, skew_dist(m, SkewDimension::Files))
        &&& has_text(f.details, "max_partition"@, hot_partition(m))
        &&& f.severity == Severity::Pass ==> keys_are(f.details, seq!["partition_count"@, "bytes"@, "rows"@,
            "files"@, "max_partition"@])
        &&& f.severity != Severity::Pass ==> keys_are(f.details, seq!["partition_count"@, "driving_dimension"@,
            "bytes"@, "rows"@, "files"@, "max_partition"@])
    })
    &&& (f.severity == Severity::Pass ==> {
        &&& m.partition_spec.fields@.len() > 0 && m.data_files@.len() > 0 ==> f.message@
            == "Partition distribution looks balanced ("@ + ratios_text(m) + ")"@
        &&& f.impact@ == Seq::<char>::empty()
        &&& f.fix_suggestion.is_none()
        &&& f.fix_command.is_none()
        &&& f.estimated_savings.is_none()
    })
    &&& (f.severity != Severity::Pass ==> {
        let w = worst_ratio(m);
        &&& f.message@ == "Partition '"@ + hot_partition(m) + "' is "@ + ratio_text_spec(w.0, w.1, 1)
            + "x median by "@ + dim_label(driving_dimension(m)) + " ("@ + ratios_text(m) + ")"@
        &&& f.impact@ == partition_skew_impact()
        &&& f.fix_suggestion matches Some(s) && s@ == partition_skew_suggestion()
        &&& f.fix_command matches Some(c)
            && c@ == zorder_text(m.table_name@, m.partition_spec.fields@)
        &&& f.estimated_savings matches Some(s)
            && s@ == "Reduces straggler time on partition '"@ + hot_partition(m) + "'"@
        &&& has_text(f.details, "driving_dimension"@, dim_label(driving_dimension(m)))
    })
}

impl PartitionSkewCheck {
    pub fn id(&self) -> (s: &'static str)
        ensures
            s@ == "partition_skew"@,
    {
        "partition_skew"
    }

    pub fn name(&self) -> (s: &'static str)
        ensures
            s@ == "Partition Skew"@,
    {
        "Partition Skew"
    }

    /// Groups data files by partition and compares, for bytes, rows and
    /// files, the largest partition with the median one. Passes for
    /// unpartitioned or empty tables and while the worst ratio stays within
    /// the threshold; critical above five times it, warning otherwise.
    pub fn check(&self, metadata: &TableMetadata, thresholds: &Thresholds) -> (f: Finding)
        requires
            metadata.totals_fit(),
        ensures
            partition_skew_finding(f, *metadata, *thresholds),
    {
        if metadata.partition_spec.fields.len() == 0 {
            let details = Detail::Object(vec![entry("partitioned", Detail::Bool(false))]);
            proof {
                assert(details->Object_0@[0].0@ == "partitioned"@);
                assert(keys_are(details, seq!["partitioned"@]));
            }
            return pass_finding("partition_skew", "Partition Skew",
                lit("Unpartitioned table — skew check not applicable"), details);
        }
        if metadata.data_files.len() == 0 {
            let details = Detail::Object(vec![
                entry("partitioned", Detail::Bool(true)),
                entry("partition_count", Detail::UInt(0)),
            ]);
            proof {
                assert(details->Object_0@[0].0@ == "partitioned"@);
                assert(details->Object_0@[1].0@ == "partition_count"@);
                assert(keys_are(details, seq!["partitioned"@, "partition_count"@]));
            }
            return pass_finding("partition_skew", "Partition Skew",
                lit("No data files to analyze for partition skew"), details);
        }
        let groups = group_data_files(&metadata.data_files, false, None);
        let ghost gv = groups_view(groups@);
        proof {
            law_grouping_keeps_totals(metadata.data_files@, false);
            assert forall|i: int| 0 <= i < gv.len() implies dim_value(#[trigger] gv[i], SkewDimension::Bytes) <= u64::MAX by {
                assert(gv[i] == groups@[i].spec_view());
            }
            assert forall|i: int| 0 <= i < gv.len() implies dim_value(#[trigger] gv[i], SkewDimension::Rows) <= u64::MAX by {
                assert(gv[i] == groups@[i].spec_view());
            }
            assert forall|i: int| 0 <= i < gv.len() implies dim_value(#[trigger] gv[i], SkewDimension::Files) <= u64::MAX by {
                assert(gv[i] == groups@[i].spec_view());
            }
            lemma_sum_values(gv, SkewDimension::Bytes);
            lemma_sum_values(gv, SkewDimension::Rows);
            lemma_sum_values(gv, SkewDimension::Files);
            assert(groups_total(gv, SkewDimension::Files) == metadata.data_files@.len());
            assert(gv.len() == groups@.len());
            if gv.len() == 0 {
                assert(groups_total(gv, SkewDimension::Files) == 0);
            }
        }
        let bytes_values = dim_vec(&groups, SkewDimension::Bytes);
        let rows_values = dim_vec(&groups, SkewDimension::Rows);
        let files_values = dim_vec(&groups, SkewDimension::Files);
        let bytes_dist = Distribution::from_values(&bytes_values);
        let rows_dist = Distribution::from_values(&rows_values);
        let files_dist = Distribution::from_values(&files_values);

        let hot = max_bytes_group(&groups);
        let hot_key = groups[hot].key.clone();
        proof {
            assert(gv[hot as int] == groups@[hot as int].spec_view());
        }

        let b = bytes_dist.ratio_max_over_median();
        let r = rows_dist.ratio_max_over_median();
        let fr = files_dist.ratio_max_over_median();
        let br = if ratio_ge_exec(b, r) { b } else { r };
        let worst = if ratio_ge_exec(br, fr) { br } else { fr };
        let limit = thresholds.partition_skew_ratio_x100;
        let ratios = ratios_message(b, r, fr);
        let count = groups.len() as u64;
        proof {
            lemma_mul_fits(limit as nat, worst.1 as nat);
        }

        if !((worst.0 as u128) * 100 > (limit as u128) * (worst.1 as u128)) {
            let mut message = lit("Partition distribution looks balanced (");
            message.append(ratios.as_str());
            message.append(")");
            let details = Detail::Object(vec![
                entry("partition_count", Detail::UInt(count)),
                entry("bytes", bytes_dist.to_detail()),
                entry("rows", rows_dist.to_detail()),
                entry("files", files_dist.to_detail()),
                entry("max_partition", Detail::Text(hot_key)),
            ]);
            proof {
                assert(details->Object_0@[0].0@ == "partition_count"@);
                assert(details->Object_0@[1].0@ == "bytes"@);
                assert(details->Object_0@[2].0@ == "rows"@);
                assert(details->Object_0@[3].0@ == "files"@);
                assert(details->Object_0@[4].0@ == "max_partition"@);
                assert(keys_are(details, seq!["partition_count"@, "bytes"@, "rows"@, "files"@, "max_partition"@]));
                assert(message@ =~= "Partition distribution looks balanced ("@ + ratios_text(*metadata) + ")"@);
            }
            return pass_finding("partition_skew", "Partition Skew", message, details);
        }

        proof {
            let w0 = worst.0 as nat;
            let w1 = worst.1 as nat;
            let t = limit as nat;
            assert((w0 * 100 > (5 * t) * w1) == (w0 * 20 > t * w1)) by (nonlinear_arith);
        }
        let severity = if (worst.0 as u128) * 20 > (limit as u128) * (worst.1 as u128) {
            Severity::Critical
        } else {
            Severity::Warning
        };
        let driving = if ratio_ge_exec(b, r) && ratio_ge_exec(b, fr) {
            "bytes"
        } else if ratio_ge_exec(r, fr) {
            "rows"
        } else {
            "files"
        };
        proof {
            reveal_strlit("bytes");
            reveal_strlit("rows");
            reveal_strlit("files");
        }

        let mut message = lit("Partition '");
        message.append(hot_key.as_str());
        message.append("' is ");
        message.append(ratio_text(worst.0 as u128, worst.1 as u128, 1).as_str());
        message.append("x median by ");
        message.append(driving);
        message.append(" (");
        message.append(ratios.as_str());
        message.append(")");

        let mut command = lit("CALL catalog.system.rewrite_data_files(table => '");
        command.append(metadata.table_name.as_str());
        command.append("', strategy => 'sort', sort_order => 'zorder(");
        command.append(join_field_names(&metadata.partition_spec.fields).as_str());
        command.append(")')");

        let mut savings = lit("Reduces straggler time on partition '");
        savings.append(hot_key.as_str());
        savings.append("'");

        let details = Detail::Object(vec![
            entry("partition_count", Detail::UInt(count)),
            entry("driving_dimension", Detail::Text(lit(driving))),
            entry("bytes", bytes_dist.to_detail()),
            entry("rows", rows_dist.to_detail()),
            entry("files", files_dist.to_detail()),
            entry("max_partition", Detail::Text(hot_key)),
        ]);
        proof {
            assert(details->Object_0@[0].0@ == "partition_count"@);
            assert(details->Object_0@[1].0@ == "driving_dimension"@);
            assert(details->Object_0@[2].0@ == "bytes"@);
            assert(details->Object_0@[3].0@ == "rows"@);
            assert(details->Object_0@[4].0@ == "files"@);
            assert(details->Object_0@[5].0@ == "max_partition"@);
            assert(keys_are(details, seq!["partition_count"@, "driving_dimension"@, "bytes"@, "rows"@, "files"@, "max_partition"@]));
            assert(driving@ == dim_label(driving_dimension(*metadata)));
            assert(message@ =~= "Partition '"@ + hot_partition(*metadata) + "' is "@
                + ratio_text_spec(worst_ratio(*metadata).0, worst_ratio(*metadata).1, 1) + "x median by "@
                + dim_label(driving_dimension(*metadata)) + " ("@ + ratios_text(*metadata) + ")"@);
            assert(command@ =~= zorder_text(metadata.table_name@, metadata.partition_spec.fields@));
            assert(savings@ =~= "Reduces straggler time on partition '"@ + hot_partition(*metadata) + "'"@);
        }
        Finding {
            check_id: lit("partition_skew"),
            check_name: lit("Partition Skew"),
            severity,
            message,
            impact: lit("Hot partitions cause Spark task stragglers — one executor does disproportionate work, turning a fast job into a slow one. Byte and row skew matter more than file-count skew."),
            fix_suggestion: Some(lit("Repartition with a higher-cardinality transform, or rewrite with sort/zorder strategy to redistribute data more evenly.")),
            fix_command: Some(command),
            estimated_savings: Some(savings),
            details,
        }
    }
}

} // verus!

verus! {

/// `a` is at least `b` as fractions with positive denominators.
proof fn lemma_fraction_ge_transitive(a: (nat, nat), b: (nat, nat), c: (nat, nat))
    requires
        a.1 > 0,
        b.1 > 0,
        c.1 > 0,
        a.0 * b.1 >= b.0 * a.1,
        b.0 * c.1 >= c.0 * b.1,
    ensures
        a.0 * c.1 >= c.0 * a.1,
{
    assert(a.0 * b.1 * c.1 >= b.0 * a.1 * c.1) by (nonlinear_arith)
        requires a.0 * b.1 >= b.0 * a.1;
    assert(b.0 * c.1 * a.1 >= c.0 * b.1 * a.1) by (nonlinear_arith)
        requires b.0 * c.1 >= c.0 * b.1;
    assert(a.0 * c.1 * b.1 >= c.0 * a.1 * b.1) by (nonlinear_arith)
        requires
            a.0 * b.1 * c.1 >= b.0 * a.1 * c.1,
            b.0 * c.1 * a.1 >= c.0 * b.1 * a.1;
    assert(a.0 * c.1 >= c.0 * a.1) by (nonlinear_arith)
        requires
            a.0 * c.1 * b.1 >= c.0 * a.1 * b.1,
            b.1 > 0;
}

/// A distribution's max/median ratio has a positive denominator.
proof fn lemma_ratio_denominator(d: Distribution)
    ensures
        d.ratio().1 > 0,
{
}

/// The dimension a failing skew finding names as driving has the largest
/// max/median ratio: its ratio is at least that of every dimension.
pub proof fn law_driving_dimension_is_worst(f: Finding, m: TableMetadata, t: Thresholds)
    requires
        partition_skew_finding(f, m, t),
        f.severity != Severity::Pass,
    ensures
        exists|d: SkewDimension| {
            &&& has_text(f.details, "driving_dimension"@, dim_label(d))
            &&& forall|e: SkewDimension| skew_dist(m, d).ratio().0 * (#[trigger] skew_dist(m, e).ratio()).1
                >= skew_dist(m, e).ratio().0 * skew_dist(m, d).ratio().1
        },
{
    let b = skew_dist(m, SkewDimension::Bytes).ratio();
    let r = skew_dist(m, SkewDimension::Rows).ratio();
    let fr = skew_dist(m, SkewDimension::Files).ratio();
    lemma_ratio_denominator(skew_dist(m, SkewDimension::Bytes));
    lemma_ratio_denominator(skew_dist(m, SkewDimension::Rows));
    lemma_ratio_denominator(skew_dist(m, SkewDimension::Files));
    let d = driving_dimension(m);
    let x = skew_dist(m, d).ratio();
    if d == SkewDimension::Bytes {
        assert(b.0 * r.1 >= r.0 * b.1 && b.0 * fr.1 >= fr.0 * b.1);
    } else if d == SkewDimension::Rows {
        assert(r.0 * fr.1 >= fr.0 * r.1);
        if !(b.0 * r.1 >= r.0 * b.1) {
            assert(r.0 * b.1 >= b.0 * r.1);
        } else {
            assert(fr.0 * b.1 >= b.0 * fr.1);
            lemma_fraction_ge_transitive(r, fr, b);
        }
    } else {
        assert(fr.0 * r.1 >= r.0 * fr.1);
        if !(b.0 * r.1 >= r.0 * b.1) {
            lemma_fraction_ge_transitive(fr, r, b);
        } else {
            assert(fr.0 * b.1 >= b.0 * fr.1);
        }
    }
    assert forall|e: SkewDimension| x.0 * (#[trigger] skew_dist(m, e).ratio()).1 >= skew_dist(m, e).ratio().0 * x.1 by {
        match e {
            SkewDimension::Bytes => {},
            SkewDimension::Rows => {},
            SkewDimension::Files => {},
        }
    }
    assert(has_text(f.details, "driving_dimension"@, dim_label(d)));
}


proof fn lemma_above_carries(a: (nat, nat), b: (nat, nat), k: nat)
    requires
        a.1 > 0,
        b.1 > 0,
        a.0 * b.1 >= b.0 * a.1,
        b.0 * 100 > k * b.1,
    ensures
        a.0 * 100 > k * a.1,
{
    assert(a.0 * b.1 * 100 >= b.0 * a.1 * 100) by (nonlinear_arith)
        requires a.0 * b.1 >= b.0 * a.1;
    assert(b.0 * 100 * a.1 > k * b.1 * a.1) by (nonlinear_arith)
        requires b.0 * 100 > k * b.1, a.1 > 0;
    assert(a.0 * 100 * b.1 > k * a.1 * b.1) by (nonlinear_arith)
        requires
            a.0 * b.1 * 100 >= b.0 * a.1 * 100,
            b.0 * 100 * a.1 > k * b.1 * a.1;
    assert(a.0 * 100 > k * a.1) by (nonlinear_arith)
        requires a.0 * 100 * b.1 > k * a.1 * b.1, b.1 > 0;
}

/// The worst ratio is one of the three and at least each of them.
proof fn lemma_worst_ratio_is_max(m: TableMetadata)
    ensures
        exists|d: SkewDimension| worst_ratio(m) == skew_dist(m, d).ratio(),
        forall|e: SkewDimension| worst_ratio(m).0 * (#[trigger] skew_dist(m, e).ratio()).1
            >= skew_dist(m, e).ratio().0 * worst_ratio(m).1,
{
    let b = skew_dist(m, SkewDimension::Bytes).ratio();
    let r = skew_dist(m, SkewDimension::Rows).ratio();
    let f = skew_dist(m, SkewDimension::Files).ratio();
    lemma_ratio_denominator(skew_dist(m, SkewDimension::Bytes));
    lemma_ratio_denominator(skew_dist(m, SkewDimension::Rows));
    lemma_ratio_denominator(skew_dist(m, SkewDimension::Files));
    let br = if ratio_ge(b, r) { b } else { r };
    let w = worst_ratio(m);
    if ratio_ge(b, r) {
        assert(w == skew_dist(m, SkewDimension::Bytes).ratio() || w == skew_dist(m, SkewDimension::Files).ratio());
    } else {
        assert(w == skew_dist(m, SkewDimension::Rows).ratio() || w == skew_dist(m, SkewDimension::Files).ratio());
    }
    assert(br.0 * b.1 >= b.0 * br.1 && br.0 * r.1 >= r.0 * br.1);
    if ratio_ge(br, f) {
        assert(w == br);
    } else {
        assert(f.0 * br.1 >= br.0 * f.1);
        lemma_fraction_ge_transitive(f, br, b);
        lemma_fraction_ge_transitive(f, br, r);
    }
    assert forall|e: SkewDimension| w.0 * (#[trigger] skew_dist(m, e).ratio()).1 >= skew_dist(m, e).ratio().0 * w.1 by {
        match e {
            SkewDimension::Bytes => {},
            SkewDimension::Rows => {},
            SkewDimension::Files => {},
        }
    }
}

/// How the skew finding grades a partitioned table with data, `k` being the
/// threshold in hundredths: it passes exactly when no dimension's
/// max/median ratio exceeds `k`, and is critical exactly when some ratio
/// exceeds five times `k`. Unpartitioned or empty tables pass.
pub proof fn law_skew_severity_from_ratios(f: Finding, m: TableMetadata, t: Thresholds)
    requires
        partition_skew_finding(f, m, t),
    ensures
        m.partition_spec.fields@.len() == 0 || m.data_files@.len() == 0 ==> f.severity == Severity::Pass,
        m.partition_spec.fields@.len() > 0 && m.data_files@.len() > 0 ==> {
            &&& (f.severity == Severity::Pass <==> forall|d: SkewDimension|
                (#[trigger] skew_dist(m, d).ratio()).0 * 100 <= (t.partition_skew_ratio_x100 as nat) * skew_dist(m, d).ratio().1)
            &&& (f.severity == Severity::Critical <==> exists|d: SkewDimension|
                (#[trigger] skew_dist(m, d).ratio()).0 * 100 > 5 * (t.partition_skew_ratio_x100 as nat) * skew_dist(m, d).ratio().1)
        },
{
    let k = t.partition_skew_ratio_x100 as nat;
    let w = worst_ratio(m);
    lemma_worst_ratio_is_max(m);
    let dw = choose|d: SkewDimension| w == skew_dist(m, d).ratio();
    lemma_ratio_denominator(skew_dist(m, dw));
    if m.partition_spec.fields@.len() > 0 && m.data_files@.len() > 0 {
        if exists|d: SkewDimension| (#[trigger] skew_dist(m, d).ratio()).0 * 100 > k * skew_dist(m, d).ratio().1 {
            let d = choose|d: SkewDimension| (#[trigger] skew_dist(m, d).ratio()).0 * 100 > k * skew_dist(m, d).ratio().1;
            lemma_ratio_denominator(skew_dist(m, d));
            lemma_above_carries(w, skew_dist(m, d).ratio(), k);
        }
        if exists|d: SkewDimension| (#[trigger] skew_dist(m, d).ratio()).0 * 100 > 5 * k * skew_dist(m, d).ratio().1 {
            let d = choose|d: SkewDimension| (#[trigger] skew_dist(m, d).ratio()).0 * 100 > 5 * k * skew_dist(m, d).ratio().1;
            lemma_ratio_denominator(skew_dist(m, d));
            lemma_above_carries(w, skew_dist(m, d).ratio(), 5 * k);
        }
        if ratio_above(w, k) {
            assert(skew_dist(m, dw).ratio().0 * 100 > k * skew_dist(m, dw).ratio().1);
        }
        if ratio_above(w, 5 * k) {
            assert(skew_dist(m, dw).ratio().0 * 100 > 5 * k * skew_dist(m, dw).ratio().1);
            assert(5 * k * w.1 >= k * w.1) by (nonlinear_arith);
            assert(ratio_above(w, k));
        }
        if !ratio_above(w, k) {
            assert forall|d: SkewDimension| (#[trigger] skew_dist(m, d).ratio()).0 * 100 <= k * skew_dist(m, d).ratio().1 by {
                if skew_dist(m, d).ratio().0 * 100 > k * skew_dist(m, d).ratio().1 {
                    lemma_ratio_denominator(skew_dist(m, d));
                    lemma_above_carries(w, skew_dist(m, d).ratio(), k);
                }
            }
        }
        if !ratio_above(w, 5 * k) {
            assert forall|d: SkewDimension| !((#[trigger] skew_dist(m, d).ratio()).0 * 100 > 5 * k * skew_dist(m, d).ratio().1) by {
                if skew_dist(m, d).ratio().0 * 100 > 5 * k * skew_dist(m, d).ratio().1 {
                    lemma_ratio_denominator(skew_dist(m, d));
                    lemma_above_carries(w, skew_dist(m, d).ratio(), 5 * k);
                }
            }
        }
    }
}

} // verus!
