//! Catalog backends: where table metadata comes from.
//!
//! The library holds each backend's configuration and the identifier and
//! path rules; reading files, calling AWS and speaking HTTP are the
//! application's part.

pub mod glue;
pub mod rest;

use vstd::prelude::*;
use crate::text::{dec_int, i64_text, parse_i32, parse_i32_spec, parse_i64, parse_i64_spec, trim_spec, trim_text};
use crate::metadata::{Snapshot, TableMetadata};

verus! {

/// Filesystem-based catalog for local development and testing: Iceberg
/// metadata JSON and manifest files read from a warehouse directory laid
/// out as `warehouse/<namespace>/<table>/{metadata,data}/`.
pub struct FilesystemCatalog {
    pub warehouse_path: String,
}

impl FilesystemCatalog {
    pub fn new(warehouse_path: String) -> (c: Self)
        ensures
            c.warehouse_path == warehouse_path,
    {
        FilesystemCatalog { warehouse_path }
    }

    /// The directory of a table: the warehouse joined with each dot-separated
    /// part of the identifier.
    pub fn resolve_table_path(&self, table_identifier: &str) -> (p: String)
        ensures
            p@ == join_all(self.warehouse_path@, split_on(table_identifier@, '.')),
    {
        let parts = split_text(table_identifier, '.');
        let mut path = self.warehouse_path.clone();
        let mut i: usize = 0;
        while i < parts.len()
            invariant
                i <= parts@.len(),
                crate::report::string_views(parts@) == split_on(table_identifier@, '.'),
                path@ == join_all(self.warehouse_path@, split_on(table_identifier@, '.').take(i as int)),
            decreases parts@.len() - i,
        {
            proof {
                let all = split_on(table_identifier@, '.');
                assert(all.take(i + 1).drop_last() =~= all.take(i as int));
                assert(all.take(i + 1).last() == parts@[i as int]@);
            }
            path = join_path(&path, &parts[i]);
            i = i + 1;
        }
        proof {
            let all = split_on(table_identifier@, '.');
            assert(all.take(all.len() as int) =~= all);
        }
        path
    }
}

/// Errors of the catalogs.
pub enum CatalogError {
    NotImplemented(String),
    TableNotFound(String),
    Io(String),
    Parse(String),
}

impl CatalogError {
    /// The error's message, as it is displayed.
    pub fn message(&self) -> (s: String)
        ensures
            s@ == match self {
                CatalogError::NotImplemented(m) => "catalog not yet implemented: "@ + m@,
                CatalogError::TableNotFound(m) => "table not found: "@ + m@,
                CatalogError::Io(m) => "catalog I/O error: "@ + m@,
                CatalogError::Parse(m) => "metadata parse error: "@ + m@,
            },
    {
        let (mut s, m) = match self {
            CatalogError::NotImplemented(m) => (String::from_str("catalog not yet implemented: "), m),
            CatalogError::TableNotFound(m) => (String::from_str("table not found: "), m),
            CatalogError::Io(m) => (String::from_str("catalog I/O error: "), m),
            CatalogError::Parse(m) => (String::from_str("metadata parse error: "), m),
        };
        s.append(m.as_str());
        s
    }
}

// ---------------------------------------------------------------------------
// Text rules
// ---------------------------------------------------------------------------

/// `s` split at every `c` (as `str::split`): one more piece than separators.
pub open spec fn split_on(s: Seq<char>, c: char) -> Seq<Seq<char>>
    decreases s.len(),
{
    if s.len() == 0 {
        seq![Seq::empty()]
    } else {
        let prev = split_on(s.drop_last(), c);
        if s.last() == c {
            prev.push(Seq::empty())
        } else {
            prev.update(prev.len() - 1, prev.last().push(s.last()))
        }
    }
}

proof fn lemma_split_nonempty(s: Seq<char>, c: char)
    ensures
        split_on(s, c).len() >= 1,
    decreases s.len(),
{
    if s.len() > 0 {
        lemma_split_nonempty(s.drop_last(), c);
    }
}

/// The pieces of `s` between the separators `c`.
pub fn split_text(s: &str, c: char) -> (r: Vec<String>)
    ensures
        crate::report::string_views(r@) == split_on(s@, c),
{
    let n = s.unicode_len();
    let mut r: Vec<String> = Vec::new();
    let mut cur = String::new();
    let mut i: usize = 0;
    while i < n
        invariant
            n == s@.len(),
            i <= n,
            crate::report::string_views(r@).push(cur@) == split_on(s@.take(i as int), c),
        decreases n - i,
    {
        proof {
            assert(s@.take(i + 1).drop_last() =~= s@.take(i as int));
            lemma_split_nonempty(s@.take(i as int), c);
        }
        let ch = s.get_char(i);
        if ch == c {
            let ghost before = crate::report::string_views(r@);
            let done = cur;
            r.push(done);
            cur = String::new();
            proof {
                assert(crate::report::string_views(r@) =~= before.push(done@));
                assert(crate::report::string_views(r@).push(cur@) =~= split_on(s@.take(i + 1), c));
            }
        } else {
            let ghost sv = crate::report::string_views(r@);
            let ghost old_cur = cur@;
            let ghost prev = sv.push(old_cur);
            let one = s.substring_char(i, i + 1);
            cur.append(one);
            proof {
                assert(one@ =~= seq![ch]);
                assert(cur@ =~= old_cur.push(ch));
                assert(prev.last() == old_cur);
                assert(prev.len() - 1 == sv.len());
                assert(s@.take(i + 1).last() == ch);
                assert(prev.update(prev.len() - 1, prev.last().push(ch))
                    =~= crate::report::string_views(r@).push(cur@));
            }
        }
        i = i + 1;
    }
    proof {
        assert(s@.take(n as int) =~= s@);
    }
    let ghost before = crate::report::string_views(r@);
    r.push(cur);
    proof {
        assert(crate::report::string_views(r@) =~= before.push(cur@));
    }
    r
}

/// `base` joined with `part` as `Path::join` does on Unix: an absolute part
/// replaces the base; otherwise one `/` separates them (none when the base
/// is empty or already ends in `/`).
pub open spec fn join_path_spec(base: Seq<char>, part: Seq<char>) -> Seq<char> {
    if part.len() > 0 && part[0] == '/' {
        part
    } else if base.len() == 0 || base.last() == '/' {
        base + part
    } else {
        base + seq!['/'] + part
    }
}

/// `base` joined with each of `parts` in turn.
pub open spec fn join_all(base: Seq<char>, parts: Seq<Seq<char>>) -> Seq<char>
    decreases parts.len(),
{
    if parts.len() == 0 { base } else { join_path_spec(join_all(base, parts.drop_last()), parts.last()) }
}

pub fn join_path(base: &String, part: &String) -> (r: String)
    ensures
        r@ == join_path_spec(base@, part@),
{
    let pn = part.unicode_len();
    if pn > 0 && part.as_str().get_char(0) == '/' {
        return part.clone();
    }
    let bn = base.unicode_len();
    let mut r = base.clone();
    if bn == 0 || base.as_str().get_char(bn - 1) == '/' {
        r.append(part.as_str());
    } else {
        r.append("/");
        r.append(part.as_str());
        proof {
            reveal_strlit("/");
        }
    }
    r
}

/// The last component of a path: trailing `/` are ignored; none when that
/// component is empty, `.` or `..`.
pub open spec fn file_name_of(p: Seq<char>) -> Option<Seq<char>> {
    let t = trim_trailing_slashes(p);
    let name = last_component(t);
    if name.len() == 0 || name == seq!['.'] || name == seq!['.', '.'] { None } else { Some(name) }
}

pub open spec fn trim_trailing_slashes(p: Seq<char>) -> Seq<char>
    decreases p.len(),
{
    if p.len() > 0 && p.last() == '/' { trim_trailing_slashes(p.drop_last()) } else { p }
}

/// The text after the last `/`.
pub open spec fn last_component(p: Seq<char>) -> Seq<char>
    decreases p.len(),
{
    if p.len() == 0 { p } else if p.last() == '/' { Seq::empty() } else { last_component(p.drop_last()).push(p.last()) }
}

/// The version of a metadata file name `v<N>.metadata.json`: the number
/// between the leading `v` and the first `.` of the file name; 0 when there
/// is none.
pub open spec fn version_of(path: Seq<char>) -> i64 {
    match file_name_of(path) {
        Some(name) => if name.len() > 0 && name[0] == 'v' {
            match parse_i64_spec(split_on(name.drop_first(), '.')[0]) {
                Some(v) => v,
                None => 0,
            }
        } else {
            0
        },
        None => 0,
    }
}

/// The metadata file that a version hint names: `v<N>.metadata.json` for
/// the hint's trimmed text read as a 32-bit integer.
pub fn hinted_metadata_name(hint: &str) -> (r: Result<String, CatalogError>)
    ensures
        match parse_i32_spec(trim_spec(hint@)) {
            Some(v) => r matches Ok(s) && s@ == "v"@ + dec_int(v as int) + ".metadata.json"@,
            None => r matches Err(CatalogError::Parse(m)) && m@ == "invalid version hint: "@ + trim_spec(hint@),
        },
{
    let t = trim_text(hint);
    match parse_i32(t.as_str()) {
        Some(v) => {
            let mut s = String::from_str("v");
            let digits = i64_text(v as i64);
            s.append(digits.as_str());
            s.append(".metadata.json");
            Ok(s)
        },
        None => {
            let mut m = String::from_str("invalid version hint: ");
            m.append(t.as_str());
            Err(CatalogError::Parse(m))
        },
    }
}

/// Index `i` holds the latest version of `vs`: no version is higher, and
/// every later one is lower (of equal versions, the last one wins).
pub open spec fn is_latest_index(vs: Seq<i64>, i: int) -> bool {
    &&& 0 <= i < vs.len()
    &&& forall|j: int| 0 <= j < vs.len() ==> vs[j] <= vs[i]
    &&& forall|j: int| i < j < vs.len() ==> vs[j] < vs[i]
}

/// The versions of metadata file paths.
pub open spec fn versions_of(paths: Seq<String>) -> Seq<i64> {
    paths.map_values(|p: String| version_of(p@))
}

/// Picks the metadata file of the highest version among `paths`, the last
/// of them when several share it (the order a stable sort by version
/// leaves).
pub fn latest_metadata_index(paths: &Vec<String>) -> (r: Option<usize>)
    ensures
        r is None <==> paths@.len() == 0,
        r matches Some(i) ==> is_latest_index(versions_of(paths@), i as int),
{
    if paths.len() == 0 {
        return None;
    }
    let ghost vs = versions_of(paths@);
    let mut best: usize = 0;
    let mut best_v: i64 = extract_version(paths[0].as_str());
    let mut i: usize = 1;
    while i < paths.len()
        invariant
            vs == versions_of(paths@),
            1 <= i <= paths@.len(),
            best < i,
            best_v == vs[best as int],
            forall|j: int| 0 <= j < i ==> vs[j] <= best_v,
            forall|j: int| best < j < i ==> vs[j] < best_v,
        decreases paths@.len() - i,
    {
        let v = extract_version(paths[i].as_str());
        if v >= best_v {
            best = i;
            best_v = v;
        }
        i = i + 1;
    }
    Some(best)
}

/// Whether a path is absolute (begins with `/`).
pub open spec fn is_absolute_path(p: Seq<char>) -> bool {
    p.len() > 0 && p[0] == '/'
}

/// Index of the first `/` in `s`, if any.
pub open spec fn first_slash_index(s: Seq<char>) -> Option<int>
    decreases s.len(),
{
    if s.len() == 0 {
        None
    } else {
        match first_slash_index(s.drop_last()) {
            Some(i) => Some(i),
            None => if s.last() == '/' { Some(s.len() - 1) } else { None },
        }
    }
}

/// `p` in the table's metadata directory, by its file name, when it has one.
pub open spec fn in_metadata_dir(table: Seq<char>, p: Seq<char>) -> Seq<Seq<char>> {
    match file_name_of(p) {
        Some(f) => seq![join_path_spec(join_path_spec(table, "metadata"@), f)],
        None => Seq::empty(),
    }
}

/// The places where a file named in metadata may be found, in the order
/// they are tried: the path itself when absolute; for `s3://bucket/key`,
/// the key under the warehouse and the key's file name in the table's
/// metadata directory; the path under the table directory; and the path's
/// file name in the table's metadata directory.
pub open spec fn file_candidates(p: Seq<char>, table: Seq<char>, warehouse: Seq<char>) -> Seq<Seq<char>> {
    let absolute: Seq<Seq<char>> = if is_absolute_path(p) { seq![p] } else { Seq::empty() };
    absolute + s3_candidates(p, table, warehouse) + seq![join_path_spec(table, p)] + in_metadata_dir(table, p)
}

/// For `s3://bucket/key`: the key under the warehouse, then the key's file
/// name in the table's metadata directory; nothing for other paths.
pub open spec fn s3_candidates(p: Seq<char>, table: Seq<char>, warehouse: Seq<char>) -> Seq<Seq<char>> {
    if p.len() >= 5 && p.take(5) == "s3://"@ {
        let stripped = p.skip(5);
        match first_slash_index(stripped) {
            Some(k) => {
                let key = stripped.skip(k + 1);
                seq![join_path_spec(warehouse, key)] + in_metadata_dir(table, key)
            },
            None => Seq::empty(),
        }
    } else {
        Seq::empty()
    }
}

fn metadata_dir_candidate(table: &String, p: &str, out: &mut Vec<String>)
    ensures
        crate::report::string_views(final(out)@) == crate::report::string_views(old(out)@) + in_metadata_dir(table@, p@),
{
    match file_name(p) {
        Some(f) => {
            let meta = String::from_str("metadata");
            proof {
                reveal_strlit("metadata");
            }
            let dir = join_path(table, &meta);
            let c = join_path(&dir, &f);
            let ghost before = crate::report::string_views(out@);
            out.push(c);
            proof {
                assert(crate::report::string_views(out@) =~= before + in_metadata_dir(table@, p@));
            }
        },
        None => {
            proof {
                assert(crate::report::string_views(out@) =~= crate::report::string_views(out@) + Seq::<Seq<char>>::empty());
            }
        },
    }
}

/// The candidate places of a file named in metadata, in the order the
/// application tries them; when none exists the path is used as given.
pub fn resolve_candidates(path_str: &str, table_path: &String, warehouse_path: &String) -> (r: Vec<String>)
    ensures
        crate::report::string_views(r@) == file_candidates(path_str@, table_path@, warehouse_path@),
{
    let ghost p = path_str@;
    let mut out: Vec<String> = Vec::new();
    let n = path_str.unicode_len();
    proof {
        reveal_strlit("s3://");
        assert(crate::report::string_views(out@) =~= Seq::<Seq<char>>::empty());
    }
    if n > 0 && path_str.get_char(0) == '/' {
        out.push(path_str.to_string());
    }
    let ghost after_abs = crate::report::string_views(out@);
    proof {
        assert(after_abs =~= if is_absolute_path(p) { seq![p] } else { Seq::<Seq<char>>::empty() });
    }
    let is_s3 = n >= 5 && path_str.substring_char(0, 5).to_string() == String::from_str("s3://");
    proof {
        if n >= 5 {
            assert(path_str@.subrange(0, 5) =~= path_str@.take(5));
        }
    }
    if is_s3 {
        let stripped = path_str.substring_char(5, n);
        proof {
            assert(stripped@ =~= p.skip(5));
            assert(p.take(5) =~= "s3://"@);
        }
        let sn = stripped.unicode_len();
        let mut k: usize = 0;
        while k < sn && stripped.get_char(k) != '/'
            invariant
                sn == stripped@.len(),
                k <= sn,
                first_slash_index(stripped@.take(k as int)) is None,
            decreases sn - k,
        {
            proof {
                assert(stripped@.take(k + 1).drop_last() =~= stripped@.take(k as int));
            }
            k = k + 1;
        }
        if k < sn {
            proof {
                lemma_first_slash_at(stripped@, k as int);
            }
            let key = stripped.substring_char(k + 1, sn);
            let key_s = key.to_string();
            let c = join_path(warehouse_path, &key_s);
            out.push(c);
            proof {
                assert(crate::report::string_views(out@) =~= after_abs.push(c@));
                assert(key@ =~= stripped@.skip(k + 1));
            }
            metadata_dir_candidate(table_path, key, &mut out);
            proof {
                assert(crate::report::string_views(out@) =~= after_abs + (seq![join_path_spec(warehouse_path@, key@)] + in_metadata_dir(table_path@, key@)));
            }
        } else {
            proof {
                assert(stripped@.take(sn as int) =~= stripped@);
                assert(crate::report::string_views(out@) =~= after_abs + Seq::<Seq<char>>::empty());
            }
        }
    } else {
        proof {
            assert(crate::report::string_views(out@) =~= after_abs + Seq::<Seq<char>>::empty());
        }
    }
    let ghost after_s3 = crate::report::string_views(out@);
    proof {
        assert(after_s3 =~= after_abs + s3_candidates(p, table_path@, warehouse_path@));
    }
    let own = String::from_str(path_str);
    let c = join_path(table_path, &own);
    out.push(c);
    proof {
        assert(crate::report::string_views(out@) =~= after_s3.push(c@));
    }
    metadata_dir_candidate(table_path, path_str, &mut out);
    proof {
        let want = file_candidates(p, table_path@, warehouse_path@);
        assert(crate::report::string_views(out@) =~= want);
    }
    out
}

proof fn lemma_first_slash_at(s: Seq<char>, i: int)
    requires
        0 <= i < s.len(),
        first_slash_index(s.take(i)) is None,
        s[i] == '/',
    ensures
        first_slash_index(s) == Some(i),
    decreases s.len(),
{
    if s.len() - 1 > i {
        assert(s.drop_last().take(i) =~= s.take(i));
        lemma_first_slash_at(s.drop_last(), i);
    } else {
        assert(s.drop_last() =~= s.take(i));
    }
}

/// Finds the snapshot whose manifest list is loaded: the first snapshot
/// with the current ID, else the last snapshot.
pub fn current_snapshot(meta: &TableMetadata) -> (r: Option<&Snapshot>)
    ensures
        r is None <==> meta.snapshots@.len() == 0,
        r matches Some(s) ==> exists|i: int| {
            &&& 0 <= i < meta.snapshots@.len()
            &&& meta.snapshots@[i] == *s
            &&& if exists|k: int| 0 <= k < meta.snapshots@.len() && Some(meta.snapshots@[k].snapshot_id) == meta.current_snapshot_id {
                    &&& Some(meta.snapshots@[i].snapshot_id) == meta.current_snapshot_id
                    &&& forall|j: int| 0 <= j < i ==> Some(meta.snapshots@[j].snapshot_id) != meta.current_snapshot_id
                } else {
                    i == meta.snapshots@.len() - 1
                }
        },
{
    let mut i: usize = 0;
    while i < meta.snapshots.len()
        invariant
            i <= meta.snapshots@.len(),
            forall|j: int| 0 <= j < i ==> Some(meta.snapshots@[j].snapshot_id) != meta.current_snapshot_id,
        decreases meta.snapshots@.len() - i,
    {
        let hit = match meta.current_snapshot_id {
            Some(id) => meta.snapshots[i].snapshot_id == id,
            None => false,
        };
        if hit {
            return Some(&meta.snapshots[i]);
        }
        i = i + 1;
    }
    let n = meta.snapshots.len();
    if n == 0 {
        None
    } else {
        Some(&meta.snapshots[n - 1])
    }
}

/// The last component of a path, as `Path::file_name` gives it.
pub fn file_name(path: &str) -> (r: Option<String>)
    ensures
        r matches Some(s) ==> file_name_of(path@) == Some(s@),
        r is None ==> file_name_of(path@) is None,
{
    let n = path.unicode_len();
    let mut end = n;
    proof {
        assert(path@.take(n as int) =~= path@);
    }
    while end > 0 && path.get_char(end - 1) == '/'
        invariant
            n == path@.len(),
            end <= n,
            trim_trailing_slashes(path@) == trim_trailing_slashes(path@.take(end as int)),
        decreases end,
    {
        proof {
            assert(path@.take(end as int).drop_last() =~= path@.take(end - 1));
            assert(path@.take(end as int).last() == path@[end - 1]);
        }
        end = end - 1;
    }
    proof {
        if end > 0 {
            assert(path@.take(end as int).last() == path@[end - 1]);
        }
    }
    let mut start = end;
    proof {
        assert(path@.subrange(start as int, end as int) =~= Seq::<char>::empty());
    }
    while start > 0 && path.get_char(start - 1) != '/'
        invariant
            n == path@.len(),
            start <= end <= n,
            last_component(path@.take(end as int)) == last_component(path@.take(start as int)) + path@.subrange(start as int, end as int),
        decreases start,
    {
        proof {
            assert(path@.take(start as int).drop_last() =~= path@.take(start - 1));
            assert(path@.take(start as int).last() == path@[start - 1]);
            assert(path@.subrange(start - 1, end as int) =~= seq![path@[start - 1]] + path@.subrange(start as int, end as int));
        }
        start = start - 1;
    }
    proof {
        if start > 0 {
            assert(path@.take(start as int).last() == path@[start - 1]);
        }
        assert(path@.take(0) =~= Seq::<char>::empty());
    }
    let name = path.substring_char(start, end);
    proof {
        assert(name@ == last_component(trim_trailing_slashes(path@)));
    }
    let len = name.unicode_len();
    let is_dot = len == 1 && name.get_char(0) == '.';
    let is_dotdot = len == 2 && name.get_char(0) == '.' && name.get_char(1) == '.';
    proof {
        if is_dot {
            assert(name@ =~= seq!['.']);
        } else if len == 1 {
            assert(name@[0] != seq!['.'][0]);
        }
        if is_dotdot {
            assert(name@ =~= seq!['.', '.']);
        } else if len == 2 {
            assert(name@[0] != seq!['.', '.'][0] || name@[1] != seq!['.', '.'][1]);
        }
    }
    if len == 0 || is_dot || is_dotdot {
        return None;
    }
    Some(name.to_string())
}

/// Extracts the version number from a metadata file path
/// (e.g. ".../v3.metadata.json" gives 3).
pub fn extract_version(path: &str) -> (v: i64)
    ensures
        v == version_of(path@),
{
    let name = match file_name(path) {
        Some(x) => x,
        None => {
            return 0;
        },
    };
    let len = name.unicode_len();
    if len == 0 || name.as_str().get_char(0) != 'v' {
        return 0;
    }
    let rest = name.as_str().substring_char(1, len);
    proof {
        assert(rest@ =~= name@.drop_first());
    }
    let pieces = split_text(rest, '.');
    proof {
        lemma_split_nonempty(rest@, '.');
        assert(crate::report::string_views(pieces@)[0] == pieces@[0]@);
    }
    match parse_i64(pieces[0].as_str()) {
        Some(v) => v,
        None => 0,
    }
}

} // verus!
