//! From the entries of a geographic dataset to address points.
//!
//! A dataset yields entries: a geometry and a record of named attributes.
//! Entries whose geometry is a point become address points; the others are
//! passed over. An attribute that is absent, that is no character field, or
//! that holds no text, gives the empty string, so that one damaged record
//! never stops the build.

use crate::index::SpatialIndex;
use crate::record::{models, MyPoint, PointModel};
use shapefile::dbase::{FieldValue, Record};
use vstd::prelude::*;

verus! {

/// The record of a dataset entry, `shapefile::dbase::Record`: a map from
/// attribute names to values, of which nothing is seen here but through
/// [`record_fields`].
#[verifier::external_type_specification]
#[verifier::external_body]
pub struct ExRecord(Record);

/// The value of one attribute, as far as an address point depends on it.
#[derive(Clone, Debug, PartialEq, Eq)]
pub enum Attribute {
    /// A character field; `None` where the dataset holds no text for it.
    Character(Option<String>),
    /// A field of any other type: a number, a date, a truth value, a memo.
    Other,
}

/// What an [`Attribute`] holds, its text as a sequence of characters.
pub enum AttributeModel {
    Character(Option<Seq<char>>),
    Other,
}

impl View for Attribute {
    type V = AttributeModel;

    open spec fn view(&self) -> AttributeModel {
        match *self {
            Attribute::Character(Some(text)) => AttributeModel::Character(Some(text@)),
            Attribute::Character(None) => AttributeModel::Character(None),
            Attribute::Other => AttributeModel::Other,
        }
    }
}

/// The geometry of a dataset entry.
#[derive(Clone, Copy, Debug, PartialEq, Eq)]
pub enum Shape {
    /// A point. `x` is its longitude and `y` its latitude, in degrees, held as
    /// the bit patterns of binary64 numbers.
    Point { x: u64, y: u64 },
    /// Any other geometry.
    Other,
}

/// One entry of a dataset: a geometry and the attributes recorded with it.
#[derive(Debug)]
pub struct SourceEntry {
    pub shape: Shape,
    pub record: Record,
}

/// What a record holds: for each attribute name that it has, the value under
/// that name.
pub uninterp spec fn record_fields(record: Record) -> Map<Seq<char>, AttributeModel>;

/// The name of the attribute that holds the administrative code.
pub open spec fn city_code_field() -> Seq<char> {
    "city_code"@
}

/// The name of the attribute that holds the address label.
pub open spec fn address_field() -> Seq<char> {
    "jusho1"@
}

/// The text that a looked-up value gives: its own where it is a character
/// field with text, the empty string otherwise.
pub open spec fn text_of(found: Option<AttributeModel>) -> Seq<char> {
    match found {
        Some(AttributeModel::Character(Some(text))) => text,
        _ => Seq::empty(),
    }
}

/// The text found under `field` among the attributes of a record.
pub open spec fn text_under(fields: Map<Seq<char>, AttributeModel>, field: Seq<char>) -> Seq<
    char,
> {
    if fields.contains_key(field) {
        text_of(Some(fields[field]))
    } else {
        text_of(None)
    }
}

/// The address point that an entry stands for, `None` where its geometry is
/// not a point.
pub open spec fn point_model(entry: SourceEntry) -> Option<PointModel> {
    match entry.shape {
        Shape::Point { x, y } => Some(
            PointModel {
                lat: y,
                lon: x,
                citycode: text_under(record_fields(entry.record), city_code_field()),
                name: text_under(record_fields(entry.record), address_field()),
            },
        ),
        Shape::Other => None,
    }
}

/// The address points of a run of entries: one for each entry whose geometry
/// is a point, in the order of the entries.
pub open spec fn points_from(entries: Seq<SourceEntry>) -> Seq<PointModel>
    decreases entries.len(),
{
    if entries.len() == 0 {
        Seq::empty()
    } else {
        let earlier = points_from(entries.drop_last());
        match point_model(entries.last()) {
            Some(point) => earlier.push(point),
            None => earlier,
        }
    }
}

/// Calls `shapefile::dbase::Record::get`, which looks the name up in the
/// record's map. Not proved: that the result is `None` exactly when the record
/// has no attribute of that name, and is otherwise the value under the name,
/// a character field with its text, any other field as `Other`.
#[verifier::external_body]
fn lookup(record: &Record, field: &str) -> (found: Option<Attribute>)
    ensures
        match found {
            Some(value) => record_fields(*record).contains_key(field@) && record_fields(
                *record,
            )[field@] == value@,
            None => !record_fields(*record).contains_key(field@),
        },
{
    let value = record.get(field)?;
    Some(match value {
        FieldValue::Character(text) => Attribute::Character(text.clone()),
        FieldValue::Numeric(_) => Attribute::Other,
        FieldValue::Logical(_) => Attribute::Other,
        FieldValue::Date(_) => Attribute::Other,
        FieldValue::Float(_) => Attribute::Other,
        FieldValue::Integer(_) => Attribute::Other,
        FieldValue::Currency(_) => Attribute::Other,
        FieldValue::DateTime(_) => Attribute::Other,
        FieldValue::Double(_) => Attribute::Other,
        FieldValue::Memo(_) => Attribute::Other,
    })
}

/// The text that a looked-up value gives: see [`text_of`].
pub fn text_or_empty(found: Option<Attribute>) -> (text: String)
    ensures
        text@ == text_of(
            match found {
                Some(value) => Some(value@),
                None => None,
            },
        ),
{
    match found {
        Some(Attribute::Character(Some(text))) => text,
        _ => String::new(),
    }
}

/// The text found under `field` in a record: see [`text_under`].
pub fn attribute_text(record: &Record, field: &str) -> (text: String)
    ensures
        text@ == text_under(record_fields(*record), field@),
{
    text_or_empty(lookup(record, field))
}

/// The address point that an entry stands for: its latitude is the point's
/// `y`, its longitude the point's `x`, its administrative code and address
/// label the texts under [`city_code_field`] and [`address_field`]. An entry
/// of another geometry gives `None`.
pub fn point_of(entry: &SourceEntry) -> (point: Option<MyPoint>)
    ensures
        match point_model(*entry) {
            Some(model) => point matches Some(p) && p@ == model,
            None => point is None,
        },
{
    match entry.shape {
        Shape::Point { x, y } => {
            let citycode = attribute_text(&entry.record, "city_code");
            let name = attribute_text(&entry.record, "jusho1");
            Some(MyPoint { lat: y, lon: x, citycode, name })
        },
        Shape::Other => None,
    }
}

/// Builds the table of address points from the entries of a dataset: every
/// entry whose geometry is a point gives one record, in the order of the
/// entries and with every duplicate kept; the other entries are passed over.
/// No entry at all gives an empty table.
pub fn make_rtree(entries: &Vec<SourceEntry>) -> (index: SpatialIndex)
    ensures
        index@ == points_from(entries@),
{
    let mut points: Vec<MyPoint> = Vec::new();
    let mut i: usize = 0;
    while i < entries.len()
        invariant
            i <= entries.len(),
            models(points@) == points_from(entries@.take(i as int)),
        decreases entries.len() - i,
    {
        let ghost upto = entries@.take(i + 1);
        let ghost before = points@;
        proof {
            assert(upto.drop_last() =~= entries@.take(i as int));
            assert(upto.last() == entries@[i as int]);
        }
        match point_of(&entries[i]) {
            Some(point) => {
                points.push(point);
                proof {
                    assert(models(points@) =~= models(before).push(point@));
                }
            },
            None => {},
        }
        i += 1;
    }
    proof {
        assert(entries@.take(i as int) =~= entries@);
    }
    SpatialIndex::build(points)
}

} // verus!
