//! AWS Glue catalog: Iceberg tables found through the Glue Data Catalog.

use vstd::prelude::*;
use crate::catalog::CatalogError;

verus! {

/// AWS Glue catalog backend: the region to call (the SDK's default when
/// absent) and the warehouse location.
pub struct GlueCatalog {
    pub region: Option<String>,
    pub warehouse: String,
}

impl GlueCatalog {
    pub fn new(region: Option<String>, warehouse: String) -> (c: Self)
        ensures
            c.region == region,
            c.warehouse == warehouse,
    {
        GlueCatalog { region, warehouse }
    }
}

/// Index of the first `.` in `s`, if any.
pub open spec fn first_dot_index(s: Seq<char>) -> Option<int>
    decreases s.len(),
{
    if s.len() == 0 {
        None
    } else {
        match first_dot_index(s.drop_last()) {
            Some(i) => Some(i),
            None => if s.last() == '.' { Some(s.len() - 1) } else { None },
        }
    }
}

proof fn lemma_first_dot_at(s: Seq<char>, i: int)
    requires
        0 <= i < s.len(),
        first_dot_index(s.take(i)) is None,
        s[i] == '.',
    ensures
        first_dot_index(s) == Some(i),
    decreases s.len(),
{
    if s.len() - 1 > i {
        assert(s.drop_last().take(i) =~= s.take(i));
        lemma_first_dot_at(s.drop_last(), i);
    } else {
        assert(s.drop_last() =~= s.take(i));
    }
}

/// Splits a Glue identifier `database.table` at its first `.`.
pub fn glue_table_identifier(identifier: &str) -> (r: Result<(String, String), CatalogError>)
    ensures
        r is Err <==> first_dot_index(identifier@) is None,
        r matches Err(e) ==> e matches CatalogError::Parse(m)
            && m@ == "Invalid table identifier '"@ + identifier@ + "': expected 'database.table'"@,
        r matches Ok(p) ==> {
            let i = first_dot_index(identifier@)->0;
            &&& p.0@ == identifier@.take(i)
            &&& p.1@ == identifier@.skip(i + 1)
        },
{
    let n = identifier.unicode_len();
    let mut i: usize = 0;
    while i < n && identifier.get_char(i) != '.'
        invariant
            n == identifier@.len(),
            i <= n,
            first_dot_index(identifier@.take(i as int)) is None,
        decreases n - i,
    {
        proof {
            assert(identifier@.take(i + 1).drop_last() =~= identifier@.take(i as int));
        }
        i = i + 1;
    }
    if i < n {
        proof {
            lemma_first_dot_at(identifier@, i as int);
        }
        let db = identifier.substring_char(0, i).to_string();
        let table = identifier.substring_char(i + 1, n).to_string();
        proof {
            assert(db@ =~= identifier@.take(i as int));
            assert(table@ =~= identifier@.skip(i + 1));
        }
        return Ok((db, table));
    }
    proof {
        assert(identifier@.take(n as int) =~= identifier@);
    }
    let mut m = String::from_str("Invalid table identifier '");
    m.append(identifier);
    m.append("': expected 'database.table'");
    Err(CatalogError::Parse(m))
}

} // verus!
