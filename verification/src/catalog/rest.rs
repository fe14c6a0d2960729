//! Iceberg REST Catalog backend: the endpoint rules of the vendor-neutral
//! HTTP API (Polaris, Lakekeeper, Unity Catalog, Gravitino, Nessie, ...).
//! The application sends the requests.

use vstd::prelude::*;
use crate::catalog::CatalogError;

verus! {

/// A REST catalog endpoint: the server URI without trailing `/`, an
/// optional warehouse prefix and an optional bearer token.
pub struct RestCatalog {
    pub base_url: String,
    pub prefix: Option<String>,
    pub token: Option<String>,
}

/// `s` without trailing `c`.
pub open spec fn trim_end_char(s: Seq<char>, c: char) -> Seq<char>
    decreases s.len(),
{
    if s.len() > 0 && s.last() == c { trim_end_char(s.drop_last(), c) } else { s }
}

/// `s` without leading `c`.
pub open spec fn trim_start_char(s: Seq<char>, c: char) -> Seq<char>
    decreases s.len(),
{
    if s.len() > 0 && s[0] == c { trim_start_char(s.drop_first(), c) } else { s }
}

fn trim_end_slashes(s: &str) -> (r: String)
    ensures
        r@ == trim_end_char(s@, '/'),
{
    let n = s.unicode_len();
    let mut end = n;
    proof {
        assert(s@.take(n as int) =~= s@);
    }
    while end > 0 && s.get_char(end - 1) == '/'
        invariant
            n == s@.len(),
            end <= n,
            trim_end_char(s@, '/') == trim_end_char(s@.take(end as int), '/'),
        decreases end,
    {
        proof {
            assert(s@.take(end as int).drop_last() =~= s@.take(end - 1));
        }
        end = end - 1;
    }
    proof {
        if end > 0 {
            assert(s@.take(end as int).last() == s@[end - 1]);
        }
    }
    let r = s.substring_char(0, end).to_string();
    proof {
        assert(r@ =~= s@.take(end as int));
    }
    r
}

fn trim_both_slashes(s: &str) -> (r: String)
    ensures
        r@ == trim_end_char(trim_start_char(s@, '/'), '/'),
{
    let n = s.unicode_len();
    let mut start: usize = 0;
    proof {
        assert(s@.skip(0) =~= s@);
    }
    while start < n && s.get_char(start) == '/'
        invariant
            n == s@.len(),
            start <= n,
            trim_start_char(s@, '/') == trim_start_char(s@.skip(start as int), '/'),
        decreases n - start,
    {
        proof {
            assert(s@.skip(start as int).drop_first() =~= s@.skip(start + 1));
        }
        start = start + 1;
    }
    proof {
        if start < n {
            assert(s@.skip(start as int)[0] == s@[start as int]);
        }
    }
    let rest = s.substring_char(start, n);
    proof {
        assert(rest@ =~= s@.skip(start as int));
    }
    trim_end_slashes(rest)
}

impl RestCatalog {
    pub fn new(uri: String, prefix: Option<String>, token: Option<String>) -> (c: Self)
        ensures
            c.base_url@ == trim_end_char(uri@, '/'),
            c.prefix == prefix,
            c.token == token,
    {
        RestCatalog { base_url: trim_end_slashes(uri.as_str()), prefix, token }
    }

    /// The API root: `<base>/v1`, or `<base>/v1/<prefix>` with the
    /// prefix's surrounding `/` removed.
    pub open spec fn api_base_spec(&self) -> Seq<char> {
        match self.prefix {
            Some(p) => self.base_url@ + "/v1/"@ + trim_end_char(trim_start_char(p@, '/'), '/'),
            None => self.base_url@ + "/v1"@,
        }
    }

    /// `<base>/v1`, or `<base>/v1/<prefix>` with the prefix's surrounding
    /// `/` removed.
    pub fn api_base(&self) -> (s: String)
        ensures
            s@ == self.api_base_spec(),
    {
        let mut s = self.base_url.clone();
        match &self.prefix {
            Some(p) => {
                s.append("/v1/");
                s.append(trim_both_slashes(p.as_str()).as_str());
            },
            None => {
                s.append("/v1");
            },
        }
        s
    }

    /// The endpoint listing the namespaces.
    pub fn namespaces_url(&self) -> (s: String)
        ensures
            s@ == self.api_base_spec() + "/namespaces"@,
    {
        let mut s = self.api_base();
        s.append("/namespaces");
        s
    }

    /// The endpoint listing the tables of a namespace.
    pub fn tables_url(&self, namespace: &str) -> (s: String)
        ensures
            s@ == self.api_base_spec() + "/namespaces/"@ + encoded_namespace(namespace@) + "/tables"@,
    {
        let mut s = self.api_base();
        s.append("/namespaces/");
        let enc = encode_namespace(namespace);
        s.append(enc.as_str());
        s.append("/tables");
        s
    }

    /// The endpoint loading a table given as `namespace.table`; an error
    /// when the identifier has no `.`.
    pub fn table_url(&self, table_identifier: &str) -> (r: Result<String, CatalogError>)
        ensures
            r is Err <==> last_dot_index(table_identifier@) is None,
            r matches Err(e) ==> e matches CatalogError::Parse(m)
                && m@ == "invalid table identifier '"@ + table_identifier@ + "': expected 'namespace.table'"@,
            r matches Ok(u) ==> {
                let i = last_dot_index(table_identifier@)->0;
                u@ == self.api_base_spec() + "/namespaces/"@ + encoded_namespace(table_identifier@.take(i))
                    + "/tables/"@ + table_identifier@.skip(i + 1)
            },
    {
        let (ns, table) = match parse_table_identifier(table_identifier) {
            Ok(p) => p,
            Err(e) => {
                return Err(e);
            },
        };
        let mut s = self.api_base();
        s.append("/namespaces/");
        let enc = encode_namespace(ns.as_str());
        s.append(enc.as_str());
        s.append("/tables/");
        s.append(table.as_str());
        Ok(s)
    }
}

/// A table's identifier as listed by the catalog: the namespace levels and
/// the name, joined by `.`.
pub fn listed_table_name(namespace: &Vec<String>, name: &str) -> (s: String)
    ensures
        s@ == crate::text::join_seqs(namespace@.map_values(|x: String| x@), "."@) + "."@ + name@,
{
    let mut s = crate::text::join_strings(namespace, ".");
    s.append(".");
    s.append(name);
    s
}

/// Index of the last `.` in `s`, if any.
pub open spec fn last_dot_index(s: Seq<char>) -> Option<int>
    decreases s.len(),
{
    if s.len() == 0 {
        None
    } else if s.last() == '.' {
        Some(s.len() - 1)
    } else {
        last_dot_index(s.drop_last())
    }
}

/// Splits `namespace.table` at the last `.`: everything before it is the
/// namespace.
pub fn parse_table_identifier(identifier: &str) -> (r: Result<(String, String), CatalogError>)
    ensures
        r is Err <==> last_dot_index(identifier@) is None,
        r matches Err(e) ==> e matches CatalogError::Parse(m)
            && m@ == "invalid table identifier '"@ + identifier@ + "': expected 'namespace.table'"@,
        r matches Ok(p) ==> {
            let i = last_dot_index(identifier@)->0;
            &&& p.0@ == identifier@.take(i)
            &&& p.1@ == identifier@.skip(i + 1)
        },
{
    let n = identifier.unicode_len();
    let mut i: usize = n;
    proof {
        assert(identifier@.take(n as int) =~= identifier@);
    }
    while i > 0
        invariant
            n == identifier@.len(),
            i <= n,
            last_dot_index(identifier@) == last_dot_index(identifier@.take(i as int)),
        decreases i,
    {
        proof {
            assert(identifier@.take(i as int).last() == identifier@[i - 1]);
            assert(identifier@.take(i as int).drop_last() =~= identifier@.take(i - 1));
        }
        if identifier.get_char(i - 1) == '.' {
            let ns = identifier.substring_char(0, i - 1).to_string();
            let table = identifier.substring_char(i, n).to_string();
            proof {
                assert(ns@ =~= identifier@.take(i - 1));
                assert(table@ =~= identifier@.skip(i as int));
            }
            return Ok((ns, table));
        }
        i = i - 1;
    }
    let mut m = String::from_str("invalid table identifier '");
    m.append(identifier);
    m.append("': expected 'namespace.table'");
    Err(CatalogError::Parse(m))
}

/// The namespace with every `.` written as the unit separator `%1F`.
pub open spec fn encoded_namespace(ns: Seq<char>) -> Seq<char>
    decreases ns.len(),
{
    if ns.len() == 0 {
        Seq::empty()
    } else if ns.last() == '.' {
        encoded_namespace(ns.drop_last()) + "%1F"@
    } else {
        encoded_namespace(ns.drop_last()).push(ns.last())
    }
}

/// Encodes a multi-level namespace for a REST path: `catalog.db` becomes
/// `catalog%1Fdb`; a single-level namespace is unchanged.
pub fn encode_namespace(namespace: &str) -> (s: String)
    ensures
        s@ == encoded_namespace(namespace@),
{
    let n = namespace.unicode_len();
    let mut s = String::new();
    let mut i: usize = 0;
    while i < n
        invariant
            n == namespace@.len(),
            i <= n,
            s@ == encoded_namespace(namespace@.take(i as int)),
        decreases n - i,
    {
        proof {
            assert(namespace@.take(i + 1).drop_last() =~= namespace@.take(i as int));
            assert(namespace@.take(i + 1).last() == namespace@[i as int]);
        }
        if namespace.get_char(i) == '.' {
            s.append("%1F");
        } else {
            let one = namespace.substring_char(i, i + 1);
            s.append(one);
            proof {
                assert(one@ =~= seq![namespace@[i as int]]);
            }
        }
        i = i + 1;
    }
    proof {
        assert(namespace@.take(n as int) =~= namespace@);
    }
    s
}

} // verus!
