//! Reports the table's declared sort order.
//!
//! Without reading data files (frost is metadata-only) this check can only
//! report that a sort order is declared and suggest validating it.

use vstd::prelude::*;
use crate::checks::{entry, lit, pass_finding};
use crate::config::Thresholds;
use crate::metadata::{SortField, TableMetadata};
use crate::report::{has_entry, keys_are, Detail, Finding, Severity};
use crate::text::{dec, u64_text};

verus! {

pub struct SortOrderCheck;

/// The transforms of the sort fields joined by `, `.
pub open spec fn joined_transforms(fields: Seq<SortField>) -> Seq<char>
    decreases fields.len(),
{
    if fields.len() == 0 {
        Seq::empty()
    } else if fields.len() == 1 {
        fields[0].transform@
    } else {
        joined_transforms(fields.drop_last()) + ", "@ + fields.last().transform@
    }
}

pub fn join_transforms(fields: &Vec<SortField>) -> (s: String)
    ensures
        s@ == joined_transforms(fields@),
{
    let mut s = String::new();
    let mut i: usize = 0;
    while i < fields.len()
        invariant
            i <= fields@.len(),
            s@ == joined_transforms(fields@.take(i as int)),
        decreases fields@.len() - i,
    {
        proof {
            assert(fields@.take(i + 1).drop_last() =~= fields@.take(i as int));
        }
        if i > 0 {
            s.append(", ");
        }
        s.append(fields[i].transform.as_str());
        proof {
            if i == 0 {
                assert(s@ =~= fields@.take(1)[0].transform@);
            }
        }
        i = i + 1;
    }
    proof {
        assert(fields@.take(fields@.len() as int) =~= fields@);
    }
    s
}

/// The table declares a sort order with at least one field.
pub open spec fn has_declared_sort(metadata: TableMetadata) -> bool {
    metadata.sort_order matches Some(so) && so.fields@.len() > 0
}

pub open spec fn sort_order_suggestion() -> Seq<char> {
    "Consider running rewrite_data_files with sort strategy if data was written without respecting the sort order"@
}

/// The detail describing one sort field: its source column, transform,
/// direction and null order.
pub open spec fn is_field_detail(d: Detail, f: SortField) -> bool {
    &&& d matches Detail::Object(es)
    &&& es@.len() == 4
    &&& es@[0].0@ == "source_id"@ && es@[0].1 == Detail::Int(f.source_id as i64)
    &&& es@[1].0@ == "transform"@ && es@[1].1 == Detail::Text(f.transform)
    &&& es@[2].0@ == "direction"@ && es@[2].1 == Detail::Text(f.direction)
    &&& es@[3].0@ == "null_order"@ && es@[3].1 == Detail::Text(f.null_order)
}

/// A list detail holding one field detail per sort field, in order.
pub open spec fn is_fields_detail(d: Detail, fs: Seq<SortField>) -> bool {
    &&& d matches Detail::List(items)
    &&& items@.len() == fs.len()
    &&& forall|k: int| 0 <= k < fs.len() ==> is_field_detail(#[trigger] items@[k], fs[k])
}

fn field_detail(f: &SortField) -> (d: Detail)
    ensures
        is_field_detail(d, *f),
{
    Detail::Object(vec![
        entry("source_id", Detail::Int(f.source_id as i64)),
        entry("transform", Detail::Text(f.transform.clone())),
        entry("direction", Detail::Text(f.direction.clone())),
        entry("null_order", Detail::Text(f.null_order.clone())),
    ])
}

/// The finding `f` is what the check reports for `m` under `t`.
pub open spec fn sort_order_finding(f: Finding, m: TableMetadata, t: Thresholds) -> bool {
    &&& f.check_id@ == "sort_order"@
    &&& f.check_name@ == "Sort Order Health"@
    &&& f.severity == Severity::Pass
    &&& f.impact@ == Seq::<char>::empty()
    &&& f.fix_command.is_none()
    &&& f.estimated_savings.is_none()
    &&& has_entry(f.details, "has_sort_order"@, Detail::Bool(has_declared_sort(m)))
    &&& (!has_declared_sort(m) ==> {
        &&& f.message@ == "No sort order declared — check not applicable"@
        &&& keys_are(f.details, seq!["has_sort_order"@])
        &&& f.fix_suggestion.is_none()
    })
    &&& (has_declared_sort(m) ==> {
        let so = m.sort_order.unwrap();
        &&& f.message@ == "Sort order declared with "@ + dec(so.fields@.len()) + " field(s): ["@
            + joined_transforms(so.fields@) + "]"@
        &&& f.fix_suggestion matches Some(s) && s@ == sort_order_suggestion()
        &&& has_entry(f.details, "sort_order_id"@, Detail::Int(so.order_id as i64))
        &&& keys_are(f.details, seq!["has_sort_order"@, "sort_order_id"@, "fields"@])
        &&& f.details matches Detail::Object(es) && es@.len() == 3 && es@[2].0@ == "fields"@
            && is_fields_detail(es@[2].1, so.fields@)
    })
}

impl SortOrderCheck {
    pub fn id(&self) -> (s: &'static str)
        ensures
            s@ == "sort_order"@,
    {
        "sort_order"
    }

    pub fn name(&self) -> (s: &'static str)
        ensures
            s@ == "Sort Order Health"@,
    {
        "Sort Order Health"
    }

    /// Always passes; when a sort order is declared it is described and a
    /// sorted rewrite is suggested.
    pub fn check(&self, metadata: &TableMetadata, _thresholds: &Thresholds) -> (f: Finding)
        ensures
            sort_order_finding(f, *metadata, *_thresholds),
    {
        match &metadata.sort_order {
            Some(so) if so.fields.len() > 0 => {
                let mut message = lit("Sort order declared with ");
                message.append(u64_text(so.fields.len() as u64).as_str());
                message.append(" field(s): [");
                message.append(join_transforms(&so.fields).as_str());
                message.append("]");
                let mut fields: Vec<Detail> = Vec::new();
                let mut i: usize = 0;
                while i < so.fields.len()
                    invariant
                        i <= so.fields@.len(),
                        fields@.len() == i,
                        forall|k: int| 0 <= k < i ==> is_field_detail(#[trigger] fields@[k], so.fields@[k]),
                    decreases so.fields@.len() - i,
                {
                    fields.push(field_detail(&so.fields[i]));
                    i = i + 1;
                }
                let details = Detail::Object(vec![
                    entry("has_sort_order", Detail::Bool(true)),
                    entry("sort_order_id", Detail::Int(so.order_id as i64)),
                    entry("fields", Detail::List(fields)),
                ]);
                proof {
                    assert(details->Object_0@[0].0@ == "has_sort_order"@);
                    assert(details->Object_0@[1].0@ == "sort_order_id"@);
                    assert(details->Object_0@[2].0@ == "fields"@);
                    assert(keys_are(details, seq!["has_sort_order"@, "sort_order_id"@, "fields"@]));
                }
                Finding {
                    check_id: lit("sort_order"),
                    check_name: lit("Sort Order Health"),
                    severity: Severity::Pass,
                    message,
                    impact: String::new(),
                    fix_suggestion: Some(lit("Consider running rewrite_data_files with sort strategy if data was written without respecting the sort order")),
                    fix_command: None,
                    estimated_savings: None,
                    details,
                }
            },
            _ => {
                let details = Detail::Object(vec![entry("has_sort_order", Detail::Bool(false))]);
                proof {
                    assert(details->Object_0@[0].0@ == "has_sort_order"@);
                    assert(keys_are(details, seq!["has_sort_order"@]));
                }
                pass_finding("sort_order", "Sort Order Health", lit("No sort order declared — check not applicable"), details)
            },
        }
    }
}

} // verus!
