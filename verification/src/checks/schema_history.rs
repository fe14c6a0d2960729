//! Reviews schema evolution: consecutive schema versions are compared by
//! column name. Dropped columns and type changes are breaking; added
//! columns are additive.
//!
//! Within a schema, a column name counts once; when a name occurs more than
//! once, its last occurrence gives its type. Columns are visited in the order
//! of their first occurrence.

use vstd::prelude::*;
use crate::checks::{entry, lit, pass_finding};
use crate::config::Thresholds;
use crate::metadata::{Field, Schema, TableMetadata};
use crate::report::{has_entry, has_text_list, keys_are, string_views, text_list, Detail, Finding, Severity};
use crate::text::{dec, dec_int, i64_text, u64_text};

verus! {

pub struct SchemaHistoryCheck;

/// The distinct column names of `fields`, in order of first occurrence.
pub open spec fn distinct_names(fields: Seq<Field>) -> Seq<Seq<char>>
    decreases fields.len(),
{
    if fields.len() == 0 {
        Seq::empty()
    } else {
        let r = distinct_names(fields.drop_last());
        if r.contains(fields.last().name@) { r } else { r.push(fields.last().name@) }
    }
}

/// The type of column `name`: that of its last occurrence, if any.
pub open spec fn type_of(fields: Seq<Field>, name: Seq<char>) -> Option<Seq<char>>
    decreases fields.len(),
{
    if fields.len() == 0 {
        None
    } else if fields.last().name@ == name {
        Some(fields.last().field_type@)
    } else {
        type_of(fields.drop_last(), name)
    }
}

/// `(schema <a> → <b>)`.
pub open spec fn schema_pair_text(a: i32, b: i32) -> Seq<char> {
    "(schema "@ + dec_int(a as int) + " → "@ + dec_int(b as int) + ")"@
}

pub open spec fn dropped_text(name: Seq<char>, a: i32, b: i32) -> Seq<char> {
    "Column '"@ + name + "' dropped "@ + schema_pair_text(a, b)
}

pub open spec fn added_text(name: Seq<char>, a: i32, b: i32) -> Seq<char> {
    "Column '"@ + name + "' added "@ + schema_pair_text(a, b)
}

pub open spec fn type_changed_text(name: Seq<char>, from: Seq<char>, to: Seq<char>, a: i32, b: i32) -> Seq<char> {
    "Column '"@ + name + "' type changed: "@ + from + " → "@ + to + " "@ + schema_pair_text(a, b)
}

/// Messages for the names absent from `other`.
pub open spec fn missing_texts(names: Seq<Seq<char>>, other: Seq<Field>, a: i32, b: i32, dropped: bool) -> Seq<Seq<char>>
    decreases names.len(),
{
    if names.len() == 0 {
        Seq::empty()
    } else {
        let r = missing_texts(names.drop_last(), other, a, b, dropped);
        if type_of(other, names.last()) is None {
            r.push(if dropped { dropped_text(names.last(), a, b) } else { added_text(names.last(), a, b) })
        } else {
            r
        }
    }
}

/// Messages for the names whose type differs between `old` and `new`.
pub open spec fn changed_texts(names: Seq<Seq<char>>, old: Seq<Field>, new: Seq<Field>, a: i32, b: i32) -> Seq<Seq<char>>
    decreases names.len(),
{
    if names.len() == 0 {
        Seq::empty()
    } else {
        let r = changed_texts(names.drop_last(), old, new, a, b);
        let n = names.last();
        match (type_of(old, n), type_of(new, n)) {
            (Some(ot), Some(nt)) => if ot != nt { r.push(type_changed_text(n, ot, nt, a, b)) } else { r },
            _ => r,
        }
    }
}

/// Breaking changes from `old` to `new`: drops, then type changes.
pub open spec fn window_breaking(old: Schema, new: Schema) -> Seq<Seq<char>> {
    missing_texts(distinct_names(old.fields@), new.fields@, old.schema_id, new.schema_id, true)
        + changed_texts(distinct_names(old.fields@), old.fields@, new.fields@, old.schema_id, new.schema_id)
}

/// Additive changes from `old` to `new`.
pub open spec fn window_additive(old: Schema, new: Schema) -> Seq<Seq<char>> {
    missing_texts(distinct_names(new.fields@), old.fields@, old.schema_id, new.schema_id, false)
}

/// Breaking changes over every pair of consecutive schemas, in order.
pub open spec fn breaking_changes(s: Seq<Schema>) -> Seq<Seq<char>>
    decreases s.len(),
{
    if s.len() < 2 {
        Seq::empty()
    } else {
        breaking_changes(s.drop_last()) + window_breaking(s[s.len() - 2], s.last())
    }
}

/// Additive changes over every pair of consecutive schemas, in order.
pub open spec fn additive_changes(s: Seq<Schema>) -> Seq<Seq<char>>
    decreases s.len(),
{
    if s.len() < 2 {
        Seq::empty()
    } else {
        additive_changes(s.drop_last()) + window_additive(s[s.len() - 2], s.last())
    }
}

pub open spec fn schema_history_severity(s: Seq<Schema>) -> Severity {
    let b = breaking_changes(s).len();
    if s.len() <= 1 || b == 0 {
        Severity::Pass
    } else {
        Severity::Warning
    }
}

fn contains_name(v: &Vec<String>, s: &String) -> (b: bool)
    ensures
        b == string_views(v@).contains(s@),
{
    let mut i: usize = 0;
    while i < v.len()
        invariant
            i <= v@.len(),
            forall|j: int| 0 <= j < i ==> v@[j]@ != s@,
        decreases v@.len() - i,
    {
        if v[i] == *s {
            assert(string_views(v@)[i as int] == s@);
            return true;
        }
        i = i + 1;
    }
    proof {
        if string_views(v@).contains(s@) {
            let j = choose|j: int| 0 <= j < string_views(v@).len() && string_views(v@)[j] == s@;
            assert(v@[j]@ == s@);
        }
    }
    false
}

/// The distinct column names of `fields`, in order of first occurrence.
pub fn field_names(fields: &Vec<Field>) -> (r: Vec<String>)
    ensures
        string_views(r@) == distinct_names(fields@),
{
    let mut r: Vec<String> = Vec::new();
    let mut i: usize = 0;
    while i < fields.len()
        invariant
            i <= fields@.len(),
            string_views(r@) == distinct_names(fields@.take(i as int)),
        decreases fields@.len() - i,
    {
        proof {
            assert(fields@.take(i + 1).drop_last() =~= fields@.take(i as int));
        }
        if !contains_name(&r, &fields[i].name) {
            let ghost before = r@;
            r.push(fields[i].name.clone());
            proof {
                assert(string_views(r@) =~= string_views(before).push(fields@[i as int].name@));
            }
        }
        i = i + 1;
    }
    proof {
        assert(fields@.take(fields@.len() as int) =~= fields@);
    }
    r
}

/// The type of column `name`, from its last occurrence.
pub fn field_type(fields: &Vec<Field>, name: &String) -> (r: Option<String>)
    ensures
        r is None ==> type_of(fields@, name@) is None,
        r matches Some(t) ==> type_of(fields@, name@) == Some(t@),
{
    let mut r: Option<String> = None;
    let mut i: usize = 0;
    while i < fields.len()
        invariant
            i <= fields@.len(),
            r is None ==> type_of(fields@.take(i as int), name@) is None,
            r matches Some(t) ==> type_of(fields@.take(i as int), name@) == Some(t@),
        decreases fields@.len() - i,
    {
        proof {
            assert(fields@.take(i + 1).drop_last() =~= fields@.take(i as int));
        }
        if fields[i].name == *name {
            r = Some(fields[i].field_type.clone());
        }
        i = i + 1;
    }
    proof {
        assert(fields@.take(fields@.len() as int) =~= fields@);
    }
    r
}

fn schema_pair(a: i32, b: i32) -> (s: String)
    ensures
        s@ == schema_pair_text(a, b),
{
    let mut s = lit("(schema ");
    s.append(i64_text(a as i64).as_str());
    s.append(" → ");
    s.append(i64_text(b as i64).as_str());
    s.append(")");
    s
}

/// Appends to `out` a message for each of `names` that `other` lacks.
fn push_missing(names: &Vec<String>, other: &Vec<Field>, a: i32, b: i32, dropped: bool, out: &mut Vec<String>)
    ensures
        string_views(final(out)@) == string_views(old(out)@) + missing_texts(string_views(names@), other@, a, b, dropped),
{
    let ghost start = string_views(out@);
    let mut i: usize = 0;
    while i < names.len()
        invariant
            i <= names@.len(),
            string_views(out@) == start + missing_texts(string_views(names@.take(i as int)), other@, a, b, dropped),
        decreases names@.len() - i,
    {
        proof {
            assert(names@.take(i + 1).drop_last() =~= names@.take(i as int));
            assert(string_views(names@.take(i + 1)).drop_last() =~= string_views(names@.take(i as int)));
            assert(string_views(names@.take(i + 1)).last() == names@[i as int]@);
        }
        let t = field_type(other, &names[i]);
        if t.is_none() {
            let mut msg = lit("Column '");
            msg.append(names[i].as_str());
            if dropped {
                msg.append("' dropped ");
            } else {
                msg.append("' added ");
            }
            msg.append(schema_pair(a, b).as_str());
            let ghost before = string_views(out@);
            out.push(msg);
            proof {
                assert(string_views(out@) =~= before.push(msg@));
                if dropped {
                    assert(msg@ =~= dropped_text(names@[i as int]@, a, b));
                } else {
                    assert(msg@ =~= added_text(names@[i as int]@, a, b));
                }
            }
        }
        i = i + 1;
    }
    proof {
        assert(names@.take(names@.len() as int) =~= names@);
    }
}

/// Appends to `out` a message for each of `names` whose type differs.
fn push_changed(names: &Vec<String>, old_fields: &Vec<Field>, new_fields: &Vec<Field>, a: i32, b: i32, out: &mut Vec<String>)
    ensures
        string_views(final(out)@) == string_views(old(out)@)
            + changed_texts(string_views(names@), old_fields@, new_fields@, a, b),
{
    let ghost start = string_views(out@);
    let mut i: usize = 0;
    while i < names.len()
        invariant
            i <= names@.len(),
            string_views(out@) == start + changed_texts(string_views(names@.take(i as int)), old_fields@, new_fields@, a, b),
        decreases names@.len() - i,
    {
        proof {
            assert(names@.take(i + 1).drop_last() =~= names@.take(i as int));
            assert(string_views(names@.take(i + 1)).drop_last() =~= string_views(names@.take(i as int)));
            assert(string_views(names@.take(i + 1)).last() == names@[i as int]@);
        }
        let ot = field_type(old_fields, &names[i]);
        let nt = field_type(new_fields, &names[i]);
        match (ot, nt) {
            (Some(ot), Some(nt)) => {
                if !(ot == nt) {
                    let mut msg = lit("Column '");
                    msg.append(names[i].as_str());
                    msg.append("' type changed: ");
                    msg.append(ot.as_str());
                    msg.append(" → ");
                    msg.append(nt.as_str());
                    msg.append(" ");
                    msg.append(schema_pair(a, b).as_str());
                    let ghost before = string_views(out@);
                    out.push(msg);
                    proof {
                        assert(string_views(out@) =~= before.push(msg@));
                        assert(msg@ =~= type_changed_text(names@[i as int]@, ot@, nt@, a, b));
                    }
                }
            },
            _ => {},
        }
        i = i + 1;
    }
    proof {
        assert(names@.take(names@.len() as int) =~= names@);
    }
}

/// All breaking and additive changes between consecutive schemas.
pub fn schema_changes(schemas: &Vec<Schema>) -> (r: (Vec<String>, Vec<String>))
    ensures
        string_views(r.0@) == breaking_changes(schemas@),
        string_views(r.1@) == additive_changes(schemas@),
{
    let mut breaking: Vec<String> = Vec::new();
    let mut additive: Vec<String> = Vec::new();
    if schemas.len() < 2 {
        proof {
            assert(string_views(breaking@) =~= Seq::<Seq<char>>::empty());
            assert(string_views(additive@) =~= Seq::<Seq<char>>::empty());
        }
        return (breaking, additive);
    }
    let mut i: usize = 1;
    proof {
        assert(string_views(breaking@) =~= breaking_changes(schemas@.take(1)));
        assert(string_views(additive@) =~= additive_changes(schemas@.take(1)));
    }
    while i < schemas.len()
        invariant
            1 <= i <= schemas@.len(),
            string_views(breaking@) == breaking_changes(schemas@.take(i as int)),
            string_views(additive@) == additive_changes(schemas@.take(i as int)),
        decreases schemas@.len() - i,
    {
        let old_s = &schemas[i - 1];
        let new_s = &schemas[i];
        proof {
            let t = schemas@.take(i + 1);
            assert(t.drop_last() =~= schemas@.take(i as int));
            assert(t[t.len() - 2] == schemas@[i - 1]);
            assert(t.last() == schemas@[i as int]);
        }
        let old_names = field_names(&old_s.fields);
        let new_names = field_names(&new_s.fields);
        push_missing(&old_names, &new_s.fields, old_s.schema_id, new_s.schema_id, true, &mut breaking);
        push_changed(&old_names, &old_s.fields, &new_s.fields, old_s.schema_id, new_s.schema_id, &mut breaking);
        push_missing(&new_names, &old_s.fields, old_s.schema_id, new_s.schema_id, false, &mut additive);
        proof {
            assert(string_views(breaking@) =~= breaking_changes(schemas@.take(i + 1)));
            assert(string_views(additive@) =~= additive_changes(schemas@.take(i + 1)));
        }
        i = i + 1;
    }
    proof {
        assert(schemas@.take(schemas@.len() as int) =~= schemas@);
    }
    (breaking, additive)
}

/// The finding `f` is what the check reports for `m` under `t`.
pub open spec fn schema_history_finding(f: Finding, m: TableMetadata, t: Thresholds) -> bool {
    &&& f.check_id@ == "schema_history"@
    &&& f.check_name@ == "Schema Evolution"@
    &&& f.severity == schema_history_severity(m.schemas@)
    &&& f.fix_command.is_none()
    &&& f.estimated_savings.is_none()
    &&& has_entry(f.details, "schema_versions"@, Detail::UInt(m.schemas@.len() as u64))
    &&& (m.schemas@.len() <= 1 ==> f.message@ == "Single schema version — no evolution to analyze"@)
    &&& (m.schemas@.len() <= 1 ==> keys_are(f.details, seq!["schema_versions"@]))
    &&& (m.schemas@.len() > 1 && f.severity == Severity::Pass ==> keys_are(f.details,
        seq!["schema_versions"@, "additive_changes"@, "breaking_changes"@]))
    &&& (f.severity != Severity::Pass ==> keys_are(f.details, seq!["schema_versions"@, "breaking_changes"@, "additive_changes"@]))
    &&& (m.schemas@.len() > 1 ==> {
        &&& has_text_list(f.details, "breaking_changes"@, breaking_changes(m.schemas@))
        &&& has_text_list(f.details, "additive_changes"@, additive_changes(m.schemas@))
    })
    &&& (m.schemas@.len() > 1 && f.severity == Severity::Pass ==> f.message@
        == "Clean schema evolution — "@ + dec(m.schemas@.len()) + " versions, "@
        + dec(additive_changes(m.schemas@).len()) + " additive changes, no breaking changes"@)
    &&& (f.severity == Severity::Pass ==> {
        &&& f.impact@ == Seq::<char>::empty()
        &&& f.fix_suggestion.is_none()
    })
    &&& (f.severity != Severity::Pass ==> {
        &&& f.message@ == dec(breaking_changes(m.schemas@).len()) + " breaking schema changes detected across "@
            + dec(m.schemas@.len()) + " versions"@
        &&& f.impact@ == "Breaking schema changes (column drops, type changes) can break downstream consumers that haven't updated their readers."@
        &&& f.fix_suggestion matches Some(s)
            && s@ == "Review breaking changes and ensure all downstream consumers are compatible"@
    })
}

impl SchemaHistoryCheck {
    pub fn id(&self) -> (s: &'static str)
        ensures
            s@ == "schema_history"@,
    {
        "schema_history"
    }

    pub fn name(&self) -> (s: &'static str)
        ensures
            s@ == "Schema Evolution"@,
    {
        "Schema Evolution"
    }

    /// Compares each schema with the next. Passes without breaking changes;
    /// warns on breaking changes.
    pub fn check(&self, metadata: &TableMetadata, _thresholds: &Thresholds) -> (f: Finding)
        ensures
            schema_history_finding(f, *metadata, *_thresholds),
    {
        let n = metadata.schemas.len();
        if n <= 1 {
            let details = Detail::Object(vec![entry("schema_versions", Detail::UInt(n as u64))]);
            proof {
                assert(details->Object_0@[0].0@ == "schema_versions"@);
                assert(keys_are(details, seq!["schema_versions"@]));
            }
            return pass_finding("schema_history", "Schema Evolution",
                lit("Single schema version — no evolution to analyze"), details);
        }
        let (breaking, additive) = schema_changes(&metadata.schemas);
        let nb = breaking.len();
        let na = additive.len();
        proof {
            assert(string_views(breaking@).len() == nb);
            assert(string_views(additive@).len() == na);
        }
        if nb == 0 {
            let mut message = lit("Clean schema evolution — ");
            message.append(u64_text(n as u64).as_str());
            message.append(" versions, ");
            message.append(u64_text(na as u64).as_str());
            message.append(" additive changes, no breaking changes");
            let details = Detail::Object(vec![
                entry("schema_versions", Detail::UInt(n as u64)),
                entry("additive_changes", text_list(additive)),
                entry("breaking_changes", text_list(breaking)),
            ]);
            proof {
                assert(details->Object_0@[0].0@ == "schema_versions"@);
                assert(details->Object_0@[1].0@ == "additive_changes"@);
                assert(details->Object_0@[2].0@ == "breaking_changes"@);
                assert(keys_are(details, seq!["schema_versions"@, "additive_changes"@, "breaking_changes"@]));
            }
            return pass_finding("schema_history", "Schema Evolution", message, details);
        }
        let severity = Severity::Warning;
        let mut message = u64_text(nb as u64);
        message.append(" breaking schema changes detected across ");
        message.append(u64_text(n as u64).as_str());
        message.append(" versions");
        let details = Detail::Object(vec![
            entry("schema_versions", Detail::UInt(n as u64)),
            entry("breaking_changes", text_list(breaking)),
            entry("additive_changes", text_list(additive)),
        ]);
        proof {
            assert(details->Object_0@[0].0@ == "schema_versions"@);
            assert(details->Object_0@[1].0@ == "breaking_changes"@);
            assert(details->Object_0@[2].0@ == "additive_changes"@);
            assert(keys_are(details, seq!["schema_versions"@, "breaking_changes"@, "additive_changes"@]));
        }
        Finding {
            check_id: lit("schema_history"),
            check_name: lit("Schema Evolution"),
            severity,
            message,
            impact: lit("Breaking schema changes (column drops, type changes) can break downstream consumers that haven't updated their readers."),
            fix_suggestion: Some(lit("Review breaking changes and ensure all downstream consumers are compatible")),
            fix_command: None,
            estimated_savings: None,
            details,
        }
    }
}

} // verus!
