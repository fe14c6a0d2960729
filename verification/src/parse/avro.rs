//! Avro values as the manifest parser reads them, and the reader that
//! decodes an Avro object container file with `apache_avro`.
//!
//! Each decoded value is held as an `AvroDatum`: its kind and contents,
//! with the text apache_avro's `Debug` gives for it (the parser shows that
//! text for values of unexpected kinds).

use vstd::prelude::*;
use vstd::multiset::Multiset;
use apache_avro::types::Value as RawAvro;
use crate::text::{dec_int, i64_text};

verus! {

#[verifier::external_type_specification]
#[verifier::external_body]
pub struct ExRawAvro(apache_avro::types::Value);

#[verifier::external_type_specification]
#[verifier::external_body]
pub struct ExAvroError(apache_avro::Error);

/// One decoded Avro value.
pub struct AvroDatum {
    pub value: AvroValue,
    /// apache_avro's `Debug` text of the value.
    pub debug: String,
}

/// The kinds of Avro value the parser distinguishes.
pub enum AvroValue {
    Null,
    Boolean(bool),
    Int(i32),
    Long(i64),
    /// A float, held as its display text.
    Float(String),
    /// A double, held as its display text.
    Double(String),
    String(String),
    Enum(u32, String),
    Union(u32, Box<AvroDatum>),
    Array(Vec<AvroDatum>),
    /// A map, as its entries.
    MapEntries(Vec<(String, AvroDatum)>),
    Record(Vec<(String, AvroDatum)>),
    /// Any other kind (bytes, fixed, dates, times, decimals, ...).
    Other,
}

/// Converts the composite kinds, and hands the others to `avro_scalar`.
#[verifier::external_body]
fn avro_datum(v: &RawAvro) -> AvroDatum {
    let value = match v {
        RawAvro::Union(i, inner) => AvroValue::Union(*i, Box::new(avro_datum(inner))),
        RawAvro::Array(items) => AvroValue::Array(items.iter().map(avro_datum).collect()),
        RawAvro::Map(m) => AvroValue::MapEntries(m.iter().map(|(k, x)| (k.clone(), avro_datum(x))).collect()),
        RawAvro::Record(fs) => AvroValue::Record(fs.iter().map(|(k, x)| (k.clone(), avro_datum(x))).collect()),
        other => avro_scalar(other),
    };
    AvroDatum { value, debug: format!("{:?}", v) }
}

/// Converts the scalar kinds.
#[verifier::external_body]
fn avro_scalar(v: &RawAvro) -> AvroValue {
    match v {
        RawAvro::Null => AvroValue::Null,
        RawAvro::Boolean(b) => AvroValue::Boolean(*b),
        RawAvro::Int(x) => AvroValue::Int(*x),
        RawAvro::Long(x) => AvroValue::Long(*x),
        RawAvro::Float(x) => AvroValue::Float(x.to_string()),
        RawAvro::Double(x) => AvroValue::Double(x.to_string()),
        RawAvro::String(s) => AvroValue::String(s.clone()),
        RawAvro::Enum(i, s) => AvroValue::Enum(*i, s.clone()),
        _ => AvroValue::Other,
    }
}

/// An Avro value as the bytes determine it: a map is taken as the
/// multiset of its entries (a decoded map comes out in the order of a
/// `HashMap`, which differs from process to process), and no `Debug` text
/// is kept.
pub ghost enum AvroShape {
    Null,
    Boolean(bool),
    Int(i32),
    Long(i64),
    Float(Seq<char>),
    Double(Seq<char>),
    Str(Seq<char>),
    Enum(u32, Seq<char>),
    Union(u32, Box<AvroShape>),
    Array(Seq<AvroShape>),
    Entries(Multiset<(Seq<char>, AvroShape)>),
    Record(Seq<(Seq<char>, AvroShape)>),
    Other,
}

/// The shape of a decoded value.
pub open spec fn shape(d: AvroDatum) -> AvroShape
    decreases d,
{
    match d.value {
        AvroValue::Null => AvroShape::Null,
        AvroValue::Boolean(b) => AvroShape::Boolean(b),
        AvroValue::Int(v) => AvroShape::Int(v),
        AvroValue::Long(v) => AvroShape::Long(v),
        AvroValue::Float(t) => AvroShape::Float(t@),
        AvroValue::Double(t) => AvroShape::Double(t@),
        AvroValue::String(t) => AvroShape::Str(t@),
        AvroValue::Enum(i, t) => AvroShape::Enum(i, t@),
        AvroValue::Union(i, inner) => AvroShape::Union(i, Box::new(shape(*inner))),
        AvroValue::Array(items) => AvroShape::Array(shapes_of(items@)),
        AvroValue::MapEntries(es) => AvroShape::Entries(entry_shapes(es@)),
        AvroValue::Record(fs) => AvroShape::Record(field_shapes(fs@)),
        AvroValue::Other => AvroShape::Other,
    }
}

/// The shapes of a sequence of decoded values, in order.
pub open spec fn shapes_of(s: Seq<AvroDatum>) -> Seq<AvroShape>
    decreases s,
{
    if s.len() == 0 {
        Seq::empty()
    } else {
        shapes_of(s.drop_last()).push(shape(s.last()))
    }
}

/// The shapes of a record's fields, in order.
pub open spec fn field_shapes(s: Seq<(String, AvroDatum)>) -> Seq<(Seq<char>, AvroShape)>
    decreases s,
{
    if s.len() == 0 {
        Seq::empty()
    } else {
        field_shapes(s.drop_last()).push((s.last().0@, shape(s.last().1)))
    }
}

/// The shapes of a map's entries, without their order.
pub open spec fn entry_shapes(s: Seq<(String, AvroDatum)>) -> Multiset<(Seq<char>, AvroShape)>
    decreases s,
{
    if s.len() == 0 {
        Multiset::empty()
    } else {
        entry_shapes(s.drop_last()).insert((s.last().0@, shape(s.last().1)))
    }
}

/// What an Avro object container file holds: `None` where apache_avro
/// cannot read it, else the shapes of its values in order.
pub uninterp spec fn avro_records(bytes: Seq<u8>) -> Option<Seq<AvroShape>>;

/// Decodes an Avro object container file with `apache_avro::Reader`, which
/// reads the header and then yields the values one by one. The values are
/// converted one for one; the first decoding error ends the reading and is
/// returned. Whether reading fails, and the shapes of the values read, are
/// a function of the bytes (`avro_records`); the order of map entries and
/// the `Debug` texts are not stated.
#[verifier::external_body]
pub(crate) fn read_avro_values(bytes: &[u8]) -> (r: Result<Vec<AvroDatum>, apache_avro::Error>)
    ensures
        r is Err <==> avro_records(bytes@) is None,
        r matches Ok(v) ==> avro_records(bytes@) == Some(shapes_of(v@)),
{
    let reader = apache_avro::Reader::new(bytes)?;
    reader.map(|item| item.map(|v| avro_datum(&v))).collect()
}

/// The text of an apache_avro error (its `Display`). Nothing is stated of it.
#[verifier::external_body]
pub(crate) fn avro_error_text(e: &apache_avro::Error) -> (s: String) {
    e.to_string()
}

// ---------------------------------------------------------------------------
// Reading fields
// ---------------------------------------------------------------------------

/// The value of the last field named `key` (records are read into a map,
/// where a later field replaces an earlier one of the same name).
pub open spec fn field(fields: Seq<(String, AvroDatum)>, key: Seq<char>) -> Option<AvroDatum>
    decreases fields.len(),
{
    if fields.len() == 0 {
        None
    } else if fields.last().0@ == key {
        Some(fields.last().1)
    } else {
        field(fields.drop_last(), key)
    }
}

/// Index of the last field named `key`.
pub fn field_index(fields: &Vec<(String, AvroDatum)>, key: &str) -> (r: Option<usize>)
    ensures
        r is None ==> field(fields@, key@) is None,
        r matches Some(i) ==> i < fields@.len() && field(fields@, key@) == Some(fields@[i as int].1),
{
    let wanted = String::from_str(key);
    let mut r: Option<usize> = None;
    let mut i: usize = 0;
    while i < fields.len()
        invariant
            i <= fields@.len(),
            wanted@ == key@,
            r is None ==> field(fields@.take(i as int), key@) is None,
            r matches Some(j) ==> j < i && field(fields@.take(i as int), key@) == Some(fields@[j as int].1),
        decreases fields@.len() - i,
    {
        proof {
            assert(fields@.take(i + 1).drop_last() =~= fields@.take(i as int));
        }
        if fields[i].0 == wanted {
            r = Some(i);
        }
        i = i + 1;
    }
    proof {
        assert(fields@.take(fields@.len() as int) =~= fields@);
    }
    r
}

/// A long, or an int widened, possibly inside a union.
pub open spec fn long_of(d: Option<AvroDatum>) -> Option<i64> {
    match d {
        Some(x) => match x.value {
            AvroValue::Long(v) => Some(v),
            AvroValue::Int(v) => Some(v as i64),
            AvroValue::Union(_, inner) => match inner.value {
                AvroValue::Long(v) => Some(v),
                AvroValue::Int(v) => Some(v as i64),
                _ => None,
            },
            _ => None,
        },
        None => None,
    }
}

/// An int, or a long truncated to 32 bits, possibly inside a union.
pub open spec fn int_of(d: Option<AvroDatum>) -> Option<i32> {
    match d {
        Some(x) => match x.value {
            AvroValue::Int(v) => Some(v),
            AvroValue::Long(v) => Some(v as i32),
            AvroValue::Union(_, inner) => match inner.value {
                AvroValue::Int(v) => Some(v),
                AvroValue::Long(v) => Some(v as i32),
                _ => None,
            },
            _ => None,
        },
        None => None,
    }
}

/// An int, or an enum's index, possibly inside a union.
pub open spec fn int_or_enum_of(d: Option<AvroDatum>) -> Option<i32> {
    match d {
        Some(x) => match x.value {
            AvroValue::Int(v) => Some(v),
            AvroValue::Enum(i, _) => Some(i as i32),
            AvroValue::Union(_, inner) => match inner.value {
                AvroValue::Int(v) => Some(v),
                AvroValue::Enum(i, _) => Some(i as i32),
                _ => None,
            },
            _ => None,
        },
        None => None,
    }
}

/// A string, possibly inside a union; inside a union, another non-null
/// value gives its debug text. `None`: the field is missing.
pub open spec fn string_of(d: Option<AvroDatum>) -> Option<Seq<char>> {
    match d {
        Some(x) => match x.value {
            AvroValue::String(s) => Some(s@),
            AvroValue::Union(_, inner) => match inner.value {
                AvroValue::String(s) => Some(s@),
                AvroValue::Null => None,
                _ => Some(inner.debug@),
            },
            _ => None,
        },
        None => None,
    }
}

pub fn get_long(fields: &Vec<(String, AvroDatum)>, key: &str) -> (r: Option<i64>)
    ensures
        r == long_of(field(fields@, key@)),
{
    match field_index(fields, key) {
        None => None,
        Some(i) => match &fields[i].1.value {
            AvroValue::Long(v) => Some(*v),
            AvroValue::Int(v) => Some(*v as i64),
            AvroValue::Union(_, inner) => match &inner.value {
                AvroValue::Long(v) => Some(*v),
                AvroValue::Int(v) => Some(*v as i64),
                _ => None,
            },
            _ => None,
        },
    }
}

pub fn get_int(fields: &Vec<(String, AvroDatum)>, key: &str) -> (r: Option<i32>)
    ensures
        r == int_of(field(fields@, key@)),
{
    match field_index(fields, key) {
        None => None,
        Some(i) => match &fields[i].1.value {
            AvroValue::Int(v) => Some(*v),
            AvroValue::Long(v) => Some(#[verifier::truncate] (*v as i32)),
            AvroValue::Union(_, inner) => match &inner.value {
                AvroValue::Int(v) => Some(*v),
                AvroValue::Long(v) => Some(#[verifier::truncate] (*v as i32)),
                _ => None,
            },
            _ => None,
        },
    }
}

pub fn get_int_or_enum(fields: &Vec<(String, AvroDatum)>, key: &str) -> (r: Option<i32>)
    ensures
        r == int_or_enum_of(field(fields@, key@)),
{
    match field_index(fields, key) {
        None => None,
        Some(i) => match &fields[i].1.value {
            AvroValue::Int(v) => Some(*v),
            AvroValue::Enum(idx, _) => Some(#[verifier::truncate] (*idx as i32)),
            AvroValue::Union(_, inner) => match &inner.value {
                AvroValue::Int(v) => Some(*v),
                AvroValue::Enum(idx, _) => Some(#[verifier::truncate] (*idx as i32)),
                _ => None,
            },
            _ => None,
        },
    }
}

pub fn get_string(fields: &Vec<(String, AvroDatum)>, key: &str) -> (r: Option<String>)
    ensures
        r is None ==> string_of(field(fields@, key@)) is None,
        r matches Some(s) ==> string_of(field(fields@, key@)) == Some(s@),
{
    match field_index(fields, key) {
        None => None,
        Some(i) => match &fields[i].1.value {
            AvroValue::String(s) => Some(s.clone()),
            AvroValue::Union(_, inner) => match &inner.value {
                AvroValue::String(s) => Some(s.clone()),
                AvroValue::Null => None,
                _ => Some(inner.debug.clone()),
            },
            _ => None,
        },
    }
}

/// The text of a partition value: strings as they are, numbers and
/// booleans in decimal or as `true`/`false`, floats as displayed, null as
/// the empty text, unions by their inner value, other kinds by their debug
/// text.
pub open spec fn value_text(d: AvroDatum) -> Seq<char>
    decreases d,
{
    match d.value {
        AvroValue::String(s) => s@,
        AvroValue::Int(v) => dec_int(v as int),
        AvroValue::Long(v) => dec_int(v as int),
        AvroValue::Float(t) => t@,
        AvroValue::Double(t) => t@,
        AvroValue::Boolean(b) => if b { "true"@ } else { "false"@ },
        AvroValue::Null => Seq::empty(),
        AvroValue::Union(_, inner) => value_text(*inner),
        _ => d.debug@,
    }
}

pub fn avro_value_text(d: &AvroDatum) -> (s: String)
    ensures
        s@ == value_text(*d),
    decreases d,
{
    match &d.value {
        AvroValue::String(s) => s.clone(),
        AvroValue::Int(v) => i64_text(*v as i64),
        AvroValue::Long(v) => i64_text(*v),
        AvroValue::Float(t) => t.clone(),
        AvroValue::Double(t) => t.clone(),
        AvroValue::Boolean(b) => if *b { String::from_str("true") } else { String::from_str("false") },
        AvroValue::Null => String::new(),
        AvroValue::Union(_, inner) => avro_value_text(inner),
        _ => d.debug.clone(),
    }
}

/// An int (a long truncated), possibly inside unions.
pub open spec fn to_int(d: AvroDatum) -> Option<i32>
    decreases d,
{
    match d.value {
        AvroValue::Int(v) => Some(v),
        AvroValue::Long(v) => Some(v as i32),
        AvroValue::Union(_, inner) => to_int(*inner),
        _ => None,
    }
}

pub fn avro_to_int(d: &AvroDatum) -> (r: Option<i32>)
    ensures
        r == to_int(*d),
    decreases d,
{
    match &d.value {
        AvroValue::Int(v) => Some(*v),
        AvroValue::Long(v) => Some(#[verifier::truncate] (*v as i32)),
        AvroValue::Union(_, inner) => avro_to_int(inner),
        _ => None,
    }
}

/// A long (an int widened), possibly inside unions.
pub open spec fn to_long(d: AvroDatum) -> Option<i64>
    decreases d,
{
    match d.value {
        AvroValue::Long(v) => Some(v),
        AvroValue::Int(v) => Some(v as i64),
        AvroValue::Union(_, inner) => to_long(*inner),
        _ => None,
    }
}

pub fn avro_to_long(d: &AvroDatum) -> (r: Option<i64>)
    ensures
        r == to_long(*d),
    decreases d,
{
    match &d.value {
        AvroValue::Long(v) => Some(*v),
        AvroValue::Int(v) => Some(*v as i64),
        AvroValue::Union(_, inner) => avro_to_long(inner),
        _ => None,
    }
}

/// The value with a union wrapper removed; `None` for null (bare or
/// wrapped) and for a missing field.
pub open spec fn unwrap_union(d: Option<AvroDatum>) -> Option<AvroDatum> {
    match d {
        Some(x) => match x.value {
            AvroValue::Union(_, inner) => match inner.value {
                AvroValue::Null => None,
                _ => Some(*inner),
            },
            AvroValue::Null => None,
            _ => Some(x),
        },
        None => None,
    }
}

} // verus!
