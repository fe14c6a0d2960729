//! Partition keys and per-partition aggregation of data files.
//!
//! A partition key is the text `k1=v1/k2=v2/...` of a file's partition
//! values, ordered by key name (code-point order, as Rust orders strings).

use vstd::prelude::*;
use crate::metadata::{keys_unique, DataFile};

verus! {

/// `a` sorts strictly before `b` (lexicographic by code point).
pub open spec fn seq_lt(a: Seq<char>, b: Seq<char>) -> bool
    decreases a.len(),
{
    if a.len() == 0 {
        b.len() > 0
    } else if b.len() == 0 {
        false
    } else if (a[0] as u32) < (b[0] as u32) {
        true
    } else if (a[0] as u32) > (b[0] as u32) {
        false
    } else {
        seq_lt(a.drop_first(), b.drop_first())
    }
}

/// Whether `a` sorts strictly before `b`.
pub fn str_lt(a: &String, b: &String) -> (r: bool)
    ensures
        r == seq_lt(a@, b@),
{
    let la = a.unicode_len();
    let lb = b.unicode_len();
    let mut i: usize = 0;
    proof {
        assert(a@.skip(0) =~= a@);
        assert(b@.skip(0) =~= b@);
    }
    while i < la && i < lb
        invariant
            la == a@.len(),
            lb == b@.len(),
            i <= la,
            i <= lb,
            seq_lt(a@, b@) == seq_lt(a@.skip(i as int), b@.skip(i as int)),
        decreases la - i,
    {
        let ca = a.as_str().get_char(i);
        let cb = b.as_str().get_char(i);
        if (ca as u32) < (cb as u32) {
            return true;
        }
        if (ca as u32) > (cb as u32) {
            return false;
        }
        proof {
            assert(a@.skip(i as int).drop_first() =~= a@.skip(i + 1));
            assert(b@.skip(i as int).drop_first() =~= b@.skip(i + 1));
        }
        i = i + 1;
    }
    i == la && i < lb
}

/// `x` inserted into `s` after every pair whose key does not sort after
/// `x`'s key (stable insertion).
pub open spec fn insert_by_key(s: Seq<(String, String)>, x: (String, String)) -> Seq<(String, String)>
    decreases s.len(),
{
    if s.len() == 0 {
        seq![x]
    } else if !seq_lt(x.0@, s.last().0@) {
        s.push(x)
    } else {
        insert_by_key(s.drop_last(), x).push(s.last())
    }
}

/// The pairs of `s` stably sorted by key.
pub open spec fn sort_by_key(s: Seq<(String, String)>) -> Seq<(String, String)>
    decreases s.len(),
{
    if s.len() == 0 {
        s
    } else {
        insert_by_key(sort_by_key(s.drop_last()), s.last())
    }
}

/// `k1=v1/k2=v2/...` for the pairs in the given order.
pub open spec fn kv_join(s: Seq<(String, String)>) -> Seq<char>
    decreases s.len(),
{
    if s.len() == 0 {
        Seq::empty()
    } else if s.len() == 1 {
        s[0].0@ + "="@ + s[0].1@
    } else {
        kv_join(s.drop_last()) + "/"@ + s.last().0@ + "="@ + s.last().1@
    }
}

/// The partition key of a file's partition values.
pub open spec fn partition_key_spec(p: Seq<(String, String)>) -> Seq<char> {
    kv_join(sort_by_key(p))
}

/// No key sorts before an earlier key.
pub open spec fn keys_sorted(s: Seq<(String, String)>) -> bool {
    forall|i: int, j: int| 0 <= i < j < s.len() ==> !seq_lt((#[trigger] s[j]).0@, (#[trigger] s[i]).0@)
}

proof fn lemma_seq_lt_irreflexive(a: Seq<char>)
    ensures
        !seq_lt(a, a),
    decreases a.len(),
{
    if a.len() > 0 {
        lemma_seq_lt_irreflexive(a.drop_first());
    }
}

proof fn lemma_seq_lt_total(a: Seq<char>, b: Seq<char>)
    ensures
        seq_lt(a, b) || seq_lt(b, a) || a == b,
    decreases a.len(),
{
    if a.len() == 0 && b.len() == 0 {
        assert(a =~= b);
    } else if a.len() > 0 && b.len() > 0 && (a[0] as u32) == (b[0] as u32) {
        lemma_seq_lt_total(a.drop_first(), b.drop_first());
        if a.drop_first() == b.drop_first() {
            vstd::utf8::char_u32_cast(a[0], a[0] as u32);
            vstd::utf8::char_u32_cast(b[0], b[0] as u32);
            assert(a[0] == b[0]);
            assert(a =~= seq![a[0]] + a.drop_first());
            assert(b =~= seq![b[0]] + b.drop_first());
        }
    }
}

proof fn lemma_seq_lt_transitive(a: Seq<char>, b: Seq<char>, c: Seq<char>)
    requires
        seq_lt(a, b),
        seq_lt(b, c),
    ensures
        seq_lt(a, c),
    decreases a.len(),
{
    if a.len() > 0 && b.len() > 0 && c.len() > 0 && (a[0] as u32) == (b[0] as u32) && (b[0] as u32) == (c[0] as u32) {
        lemma_seq_lt_transitive(a.drop_first(), b.drop_first(), c.drop_first());
    }
}

proof fn lemma_insert_by_key(s: Seq<(String, String)>, x: (String, String))
    requires
        keys_sorted(s),
    ensures
        keys_sorted(insert_by_key(s, x)),
        insert_by_key(s, x).to_multiset() =~= s.to_multiset().insert(x),
        keys_unique(s) && (forall|k: int| 0 <= k < s.len() ==> (#[trigger] s[k]).0@ != x.0@)
            ==> keys_unique(insert_by_key(s, x)),
    decreases s.len(),
{
    broadcast use vstd::seq_lib::group_to_multiset_ensures;
    if s.len() == 0 {
        assert(seq![x] =~= s.push(x));
    } else if !seq_lt(x.0@, s.last().0@) {
        let r = s.push(x);
        let n = s.len() - 1;
        lemma_seq_lt_total(x.0@, s.last().0@);
        assert forall|i: int, j: int| 0 <= i < j < r.len() implies !seq_lt((#[trigger] r[j]).0@, (#[trigger] r[i]).0@) by {
            if j == s.len() && i < n {
                assert(!seq_lt(s[n].0@, s[i].0@));
                if seq_lt(x.0@, s[i].0@) && seq_lt(s[n].0@, x.0@) {
                    lemma_seq_lt_transitive(s[n].0@, x.0@, s[i].0@);
                }
            }
        }
    } else {
        let d = s.drop_last();
        let last = s.last();
        assert(keys_sorted(d)) by {
            assert forall|i: int, j: int| 0 <= i < j < d.len() implies !seq_lt((#[trigger] d[j]).0@, (#[trigger] d[i]).0@) by {
                assert(d[i] == s[i] && d[j] == s[j]);
            }
        }
        lemma_insert_by_key(d, x);
        let q = insert_by_key(d, x);
        let r = q.push(last);
        assert(s =~= d.push(last));
        if keys_unique(s) && (forall|k: int| 0 <= k < s.len() ==> (#[trigger] s[k]).0@ != x.0@) {
            assert(keys_unique(d)) by {
                assert forall|i: int, j: int| 0 <= i < j < d.len() implies (#[trigger] d[i]).0@ != (#[trigger] d[j]).0@ by {
                    assert(d[i] == s[i] && d[j] == s[j]);
                }
            }
            assert forall|k: int| 0 <= k < d.len() implies (#[trigger] d[k]).0@ != x.0@ by {
                assert(d[k] == s[k]);
            }
            assert forall|i: int, j: int| 0 <= i < j < r.len() implies (#[trigger] r[i]).0@ != (#[trigger] r[j]).0@ by {
                if j == q.len() {
                    let y = q[i];
                    assert(q.contains(y));
                    assert(q.to_multiset().count(y) > 0);
                    assert(s[s.len() - 1] == last);
                    if y != x {
                        assert(d.to_multiset().count(y) > 0);
                        assert(d.contains(y));
                        let k = choose|k: int| 0 <= k < d.len() && d[k] == y;
                        assert(s[k] == y);
                    }
                } else {
                    assert(r[i] == q[i] && r[j] == q[j]);
                }
            }
        }
        assert forall|i: int, j: int| 0 <= i < j < r.len() implies !seq_lt((#[trigger] r[j]).0@, (#[trigger] r[i]).0@) by {
            if j == q.len() {
                let y = q[i];
                assert(q.contains(y));
                assert(q.to_multiset().count(y) > 0);
                if y == x {
                    if seq_lt(last.0@, x.0@) {
                        lemma_seq_lt_transitive(x.0@, last.0@, x.0@);
                        lemma_seq_lt_irreflexive(x.0@);
                    }
                } else {
                    assert(d.to_multiset().count(y) > 0);
                    assert(d.contains(y));
                    let k = choose|k: int| 0 <= k < d.len() && d[k] == y;
                    assert(s[k] == y);
                    assert(s[s.len() - 1] == last);
                }
            } else {
                assert(r[i] == q[i] && r[j] == q[j]);
            }
        }
    }
}

/// Sorting partition values orders them by key and keeps every pair: the
/// result is sorted by key and holds the same pairs, each as often.
pub proof fn law_sort_by_key(p: Seq<(String, String)>)
    ensures
        keys_sorted(sort_by_key(p)),
        sort_by_key(p).to_multiset() =~= p.to_multiset(),
        keys_unique(p) ==> keys_unique(sort_by_key(p)),
    decreases p.len(),
{
    broadcast use vstd::seq_lib::group_to_multiset_ensures;
    if p.len() > 0 {
        let d = p.drop_last();
        let x = p.last();
        law_sort_by_key(d);
        let sd = sort_by_key(d);
        lemma_insert_by_key(sd, x);
        assert(p =~= d.push(x));
        if keys_unique(p) {
            assert(keys_unique(d)) by {
                assert forall|i: int, j: int| 0 <= i < j < d.len() implies (#[trigger] d[i]).0@ != (#[trigger] d[j]).0@ by {
                    assert(d[i] == p[i] && d[j] == p[j]);
                }
            }
            assert forall|k: int| 0 <= k < sd.len() implies (#[trigger] sd[k]).0@ != x.0@ by {
                let y = sd[k];
                assert(sd.contains(y));
                assert(sd.to_multiset().count(y) > 0);
                assert(d.contains(y));
                let m = choose|m: int| 0 <= m < d.len() && d[m] == y;
                assert(p[m] == y);
                assert(p[p.len() - 1] == x);
            }
        }
    }
}

proof fn lemma_sorted_unique_eq(a: Seq<(String, String)>, b: Seq<(String, String)>)
    requires
        keys_sorted(a),
        keys_sorted(b),
        keys_unique(a),
        keys_unique(b),
        a.to_multiset() =~= b.to_multiset(),
    ensures
        a == b,
    decreases a.len(),
{
    broadcast use vstd::seq_lib::group_to_multiset_ensures;
    assert(a.to_multiset().len() == b.to_multiset().len());
    assert(a.len() == b.len());
    if a.len() == 0 {
        assert(a =~= b);
    } else {
        let n = a.len() - 1;
        let la = a[n];
        let lb = b[n];
        assert(a.contains(la));
        assert(b.to_multiset().count(la) > 0);
        assert(b.contains(la));
        let k = choose|k: int| 0 <= k < b.len() && b[k] == la;
        assert(b.contains(lb));
        assert(a.to_multiset().count(lb) > 0);
        assert(a.contains(lb));
        let m = choose|m: int| 0 <= m < a.len() && a[m] == lb;
        if k < n {
            assert(!seq_lt(lb.0@, la.0@));
        }
        if m < n {
            assert(!seq_lt(la.0@, lb.0@));
        }
        lemma_seq_lt_total(la.0@, lb.0@);
        if la != lb {
            assert(k < n && m < n);
            assert(la.0@ == lb.0@);
            assert(a[m].0@ == a[n].0@);
        }
        assert(la == lb);
        let da = a.drop_last();
        let db = b.drop_last();
        assert(a.remove(n) =~= da);
        assert(b.remove(n) =~= db);
        assert(da.to_multiset() =~= a.to_multiset().remove(la));
        assert(db.to_multiset() =~= b.to_multiset().remove(lb));
        assert forall|i: int, j: int| 0 <= i < j < da.len() implies !seq_lt((#[trigger] da[j]).0@, (#[trigger] da[i]).0@)
            && (da[i]).0@ != (da[j]).0@ by {
            assert(da[i] == a[i] && da[j] == a[j]);
        }
        assert forall|i: int, j: int| 0 <= i < j < db.len() implies !seq_lt((#[trigger] db[j]).0@, (#[trigger] db[i]).0@)
            && (db[i]).0@ != (db[j]).0@ by {
            assert(db[i] == b[i] && db[j] == b[j]);
        }
        lemma_sorted_unique_eq(da, db);
        assert(a =~= da.push(la));
        assert(b =~= db.push(lb));
    }
}

/// The partition key does not depend on the order in which the partition
/// values come: two listings of the same pairs, each key once, give the
/// same key.
pub proof fn law_partition_key_order_free(p: Seq<(String, String)>, q: Seq<(String, String)>)
    requires
        keys_unique(p),
        keys_unique(q),
        p.to_multiset() =~= q.to_multiset(),
    ensures
        partition_key_spec(p) == partition_key_spec(q),
{
    law_sort_by_key(p);
    law_sort_by_key(q);
    lemma_sorted_unique_eq(sort_by_key(p), sort_by_key(q));
}

fn insert_pair(out: &mut Vec<(String, String)>, x: (String, String))
    ensures
        final(out)@ == insert_by_key(old(out)@, x),
    decreases old(out)@.len(),
{
    if out.len() == 0 {
        out.push(x);
    } else {
        let n = out.len();
        let before = str_lt(&x.0, &out[n - 1].0);
        if !before {
            out.push(x);
        } else {
            let last = out.pop().unwrap();
            proof {
                assert(out@ =~= old(out)@.drop_last());
            }
            insert_pair(out, x);
            out.push(last);
        }
    }
}

/// The pairs of `p`, stably sorted by key.
pub fn sorted_pairs(p: &Vec<(String, String)>) -> (r: Vec<(String, String)>)
    ensures
        r@ == sort_by_key(p@),
{
    let mut out: Vec<(String, String)> = Vec::new();
    let mut i: usize = 0;
    while i < p.len()
        invariant
            i <= p@.len(),
            out@ == sort_by_key(p@.take(i as int)),
        decreases p@.len() - i,
    {
        let x = (p[i].0.clone(), p[i].1.clone());
        proof {
            assert(p@.take(i + 1).drop_last() =~= p@.take(i as int));
            assert(x == p@[i as int]);
        }
        insert_pair(&mut out, x);
        i = i + 1;
    }
    proof {
        assert(p@.take(p@.len() as int) =~= p@);
    }
    out
}

/// `k1=v1/k2=v2/...` for the pairs of `s` in order.
pub fn join_pairs(s: &Vec<(String, String)>) -> (r: String)
    ensures
        r@ == kv_join(s@),
{
    let mut acc = String::new();
    let mut i: usize = 0;
    while i < s.len()
        invariant
            i <= s@.len(),
            acc@ == kv_join(s@.take(i as int)),
        decreases s@.len() - i,
    {
        proof {
            assert(s@.take(i + 1).drop_last() =~= s@.take(i as int));
        }
        if i > 0 {
            acc.append("/");
        }
        acc.append(s[i].0.as_str());
        acc.append("=");
        acc.append(s[i].1.as_str());
        proof {
            if i == 0 {
                assert(acc@ =~= s@.take(1)[0].0@ + "="@ + s@.take(1)[0].1@);
            } else {
                assert(acc@ =~= kv_join(s@.take(i as int)) + "/"@ + s@[i as int].0@ + "="@ + s@[i as int].1@);
            }
        }
        i = i + 1;
    }
    proof {
        assert(s@.take(s@.len() as int) =~= s@);
    }
    acc
}

/// The partition key of a file's partition values.
pub fn partition_key(partition: &Vec<(String, String)>) -> (r: String)
    ensures
        r@ == partition_key_spec(partition@),
{
    let sorted = sorted_pairs(partition);
    join_pairs(&sorted)
}

// ---------------------------------------------------------------------------
// Grouping
// ---------------------------------------------------------------------------

/// Per-partition aggregate (spec side).
pub struct GroupSpec {
    pub key: Seq<char>,
    pub files: nat,
    pub bytes: nat,
    pub rows: nat,
}

/// Index of the first group with key `k`, or -1.
pub open spec fn key_index(gs: Seq<GroupSpec>, k: Seq<char>) -> int
    decreases gs.len(),
{
    if gs.len() == 0 {
        -1
    } else {
        let j = key_index(gs.drop_last(), k);
        if j >= 0 {
            j
        } else if gs.last().key == k {
            gs.len() - 1
        } else {
            -1
        }
    }
}

/// Add one file of `bytes` and `rows` to the group keyed `k`, opening a
/// new group at the end when there is none yet.
pub open spec fn add_to_groups(gs: Seq<GroupSpec>, k: Seq<char>, bytes: nat, rows: nat) -> Seq<GroupSpec> {
    let j = key_index(gs, k);
    if j >= 0 {
        gs.update(j, GroupSpec { key: k, files: gs[j].files + 1, bytes: gs[j].bytes + bytes, rows: gs[j].rows + rows })
    } else {
        gs.push(GroupSpec { key: k, files: 1, bytes, rows })
    }
}

/// The group key of a data file: its partition key, or `<unpartitioned>`
/// when `mark_unpartitioned` is set and the file has no partition values.
pub open spec fn group_key(f: DataFile, mark_unpartitioned: bool) -> Seq<char> {
    if mark_unpartitioned && f.partition@.len() == 0 {
        "<unpartitioned>"@
    } else {
        partition_key_spec(f.partition@)
    }
}

/// Whether a file of `size` bytes is counted under the size limit
/// (`None`: every file is counted).
pub open spec fn under_limit(size: u64, limit: Option<u64>) -> bool {
    match limit {
        None => true,
        Some(l) => size < l,
    }
}

/// Files grouped by key (only those under the size limit), groups in order
/// of first appearance.
pub open spec fn group_files(files: Seq<DataFile>, mark_unpartitioned: bool, limit: Option<u64>) -> Seq<GroupSpec>
    decreases files.len(),
{
    if files.len() == 0 {
        Seq::empty()
    } else if under_limit(files.last().file_size_bytes, limit) {
        add_to_groups(
            group_files(files.drop_last(), mark_unpartitioned, limit),
            group_key(files.last(), mark_unpartitioned),
            files.last().file_size_bytes as nat,
            files.last().record_count as nat,
        )
    } else {
        group_files(files.drop_last(), mark_unpartitioned, limit)
    }
}

/// Per-partition aggregate.
pub struct PartitionGroup {
    pub key: String,
    pub file_count: u64,
    pub total_bytes: u64,
    pub total_rows: u64,
}

impl PartitionGroup {
    pub open spec fn spec_view(&self) -> GroupSpec {
        GroupSpec {
            key: self.key@,
            files: self.file_count as nat,
            bytes: self.total_bytes as nat,
            rows: self.total_rows as nat,
        }
    }
}

pub open spec fn groups_view(gs: Seq<PartitionGroup>) -> Seq<GroupSpec> {
    Seq::new(gs.len(), |i: int| gs[i].spec_view())
}

pub proof fn lemma_key_index_bounds(gs: Seq<GroupSpec>, k: Seq<char>)
    ensures
        -1 <= key_index(gs, k) < gs.len(),
        key_index(gs, k) >= 0 ==> gs[key_index(gs, k)].key == k,
        key_index(gs, k) < 0 ==> forall|i: int| 0 <= i < gs.len() ==> gs[i].key != k,
    decreases gs.len(),
{
    if gs.len() > 0 {
        lemma_key_index_bounds(gs.drop_last(), k);
        assert forall|i: int| 0 <= i < gs.len() - 1 implies gs[i] == gs.drop_last()[i] by {}
    }
}

/// Group totals never exceed the running file totals.
pub open spec fn groups_bounded(gs: Seq<GroupSpec>, files: nat, bytes: nat, rows: nat) -> bool {
    forall|i: int| 0 <= i < gs.len() ==> gs[i].files <= files && gs[i].bytes <= bytes && gs[i].rows <= rows
}

fn find_group(groups: &Vec<PartitionGroup>, key: &String) -> (r: Option<usize>)
    ensures
        r.is_some() ==> r.unwrap() == key_index(groups_view(groups@), key@) && r.unwrap() < groups@.len(),
        r.is_none() ==> key_index(groups_view(groups@), key@) == -1,
{
    let ghost gv = groups_view(groups@);
    let mut i: usize = 0;
    while i < groups.len()
        invariant
            i <= groups@.len(),
            gv == groups_view(groups@),
            key_index(gv.take(i as int), key@) == -1,
        decreases groups@.len() - i,
    {
        proof {
            assert(gv.take(i + 1).drop_last() =~= gv.take(i as int));
        }
        if groups[i].key == *key {
            proof {
                assert(gv.take(i + 1).last() == gv[i as int]);
                lemma_key_index_prefix(gv, i as int, key@);
            }
            return Some(i);
        }
        i = i + 1;
    }
    proof {
        assert(gv.take(groups@.len() as int) =~= gv);
    }
    None
}

proof fn lemma_key_index_prefix(gs: Seq<GroupSpec>, i: int, k: Seq<char>)
    requires
        0 <= i < gs.len(),
        key_index(gs.take(i), k) == -1,
        gs[i].key == k,
    ensures
        key_index(gs, k) == i,
    decreases gs.len(),
{
    if gs.len() - 1 > i {
        assert(gs.drop_last().take(i) =~= gs.take(i));
        lemma_key_index_prefix(gs.drop_last(), i, k);
    } else {
        assert(gs.drop_last() =~= gs.take(i));
    }
}

/// Group the data files by key (see `group_key`), summing file counts,
/// bytes and rows; groups appear in order of first appearance.
pub fn group_data_files(files: &Vec<DataFile>, mark_unpartitioned: bool, limit: Option<u64>) -> (r: Vec<PartitionGroup>)
    requires
        crate::metadata::data_bytes(files@) <= u64::MAX,
        crate::metadata::data_records(files@) <= u64::MAX,
    ensures
        groups_view(r@) == group_files(files@, mark_unpartitioned, limit),
{
    let mut groups: Vec<PartitionGroup> = Vec::new();
    let mut i: usize = 0;
    while i < files.len()
        invariant
            i <= files@.len(),
            crate::metadata::data_bytes(files@) <= u64::MAX,
            crate::metadata::data_records(files@) <= u64::MAX,
            groups_view(groups@) == group_files(files@.take(i as int), mark_unpartitioned, limit),
            groups_bounded(
                groups_view(groups@),
                i as nat,
                crate::metadata::data_bytes(files@.take(i as int)),
                crate::metadata::data_records(files@.take(i as int)),
            ),
        decreases files@.len() - i,
    {
        let f = &files[i];
        let counted = match limit {
            None => true,
            Some(l) => f.file_size_bytes < l,
        };
        if !counted {
            proof {
                assert(files@.take(i + 1).drop_last() =~= files@.take(i as int));
                crate::metadata::lemma_data_bytes_monotone(files@, i as int, i + 1);
                crate::metadata::lemma_data_records_monotone(files@, i as int, i + 1);
            }
            i = i + 1;
            continue;
        }
        let key = if mark_unpartitioned && f.partition.len() == 0 {
            String::from_str("<unpartitioned>")
        } else {
            partition_key(&f.partition)
        };
        let ghost prefix = files@.take(i as int);
        let ghost next = files@.take(i + 1);
        let ghost old_groups = groups_view(groups@);
        proof {
            assert(next.drop_last() =~= prefix);
            assert(next.last() == files@[i as int]);
            crate::metadata::lemma_data_bytes_monotone(files@, i + 1, files@.len() as int);
            crate::metadata::lemma_data_records_monotone(files@, i + 1, files@.len() as int);
            assert(files@.take(files@.len() as int) =~= files@);
            lemma_key_index_bounds(old_groups, key@);
        }
        match find_group(&groups, &key) {
            Some(j) => {
                let g = &groups[j];
                let updated = PartitionGroup {
                    key: key,
                    file_count: g.file_count + 1,
                    total_bytes: g.total_bytes + f.file_size_bytes,
                    total_rows: g.total_rows + f.record_count,
                };
                groups.set(j, updated);
                proof {
                    assert(groups_view(groups@) =~= add_to_groups(old_groups, key@, f.file_size_bytes as nat, f.record_count as nat));
                }
            },
            None => {
                groups.push(PartitionGroup { key: key, file_count: 1, total_bytes: f.file_size_bytes, total_rows: f.record_count });
                proof {
                    assert(groups_view(groups@) =~= add_to_groups(old_groups, key@, f.file_size_bytes as nat, f.record_count as nat));
                }
            },
        }
        i = i + 1;
    }
    proof {
        assert(files@.take(files@.len() as int) =~= files@);
    }
    groups
}

} // verus!

verus! {

/// `x` inserted into `s` (ordered by file count, most first) after every
/// group with at least as many files (stable insertion).
pub open spec fn insert_by_count(s: Seq<GroupSpec>, x: GroupSpec) -> Seq<GroupSpec>
    decreases s.len(),
{
    if s.len() == 0 {
        seq![x]
    } else if s.last().files >= x.files {
        s.push(x)
    } else {
        insert_by_count(s.drop_last(), x).push(s.last())
    }
}

/// Groups stably sorted by file count, most first.
pub open spec fn sort_by_count_desc(s: Seq<GroupSpec>) -> Seq<GroupSpec>
    decreases s.len(),
{
    if s.len() == 0 {
        s
    } else {
        insert_by_count(sort_by_count_desc(s.drop_last()), s.last())
    }
}

fn insert_group(out: &mut Vec<PartitionGroup>, x: PartitionGroup)
    ensures
        groups_view(final(out)@) == insert_by_count(groups_view(old(out)@), x.spec_view()),
    decreases old(out)@.len(),
{
    let ghost old_v = groups_view(out@);
    if out.len() == 0 {
        out.push(x);
        proof {
            assert(groups_view(out@) =~= seq![x.spec_view()]);
        }
    } else {
        let n = out.len();
        if out[n - 1].file_count >= x.file_count {
            out.push(x);
            proof {
                assert(groups_view(out@) =~= old_v.push(x.spec_view()));
            }
        } else {
            let last = out.pop().unwrap();
            proof {
                assert(groups_view(out@) =~= old_v.drop_last());
            }
            insert_group(out, x);
            let ghost mid = groups_view(out@);
            out.push(last);
            proof {
                assert(groups_view(out@) =~= mid.push(last.spec_view()));
            }
        }
    }
}

/// The groups stably sorted by file count, most first.
pub fn sort_groups_by_count(groups: Vec<PartitionGroup>) -> (r: Vec<PartitionGroup>)
    ensures
        groups_view(r@) == sort_by_count_desc(groups_view(groups@)),
{
    let ghost all = groups_view(groups@);
    let mut rest = groups;
    let mut out: Vec<PartitionGroup> = Vec::new();
    let ghost mut taken: int = 0;
    while rest.len() > 0
        invariant
            0 <= taken <= all.len(),
            rest@.len() == all.len() - taken,
            groups_view(rest@) == all.skip(taken),
            groups_view(out@) == sort_by_count_desc(all.take(taken)),
        decreases rest@.len(),
    {
        let ghost before = rest@;
        proof {
            assert(groups_view(before)[0] == all.skip(taken)[0]);
        }
        let x = rest.remove(0);
        proof {
            assert(x.spec_view() == all[taken]);
            assert forall|k: int| 0 <= k < rest@.len() implies groups_view(rest@)[k] == all.skip(taken + 1)[k] by {
                assert(rest@[k] == before[k + 1]);
                assert(groups_view(before)[k + 1] == all.skip(taken)[k + 1]);
            }
            assert(groups_view(rest@) =~= all.skip(taken + 1));
            assert(all.take(taken + 1).drop_last() =~= all.take(taken));
        }
        insert_group(&mut out, x);
        proof {
            taken = taken + 1;
        }
    }
    proof {
        assert(all.skip(taken).len() == 0);
        assert(all.take(taken) =~= all);
    }
    out
}

} // verus!
