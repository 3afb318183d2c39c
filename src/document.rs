//! The parts of GeoJSON and KML documents that the library reads, held as
//! plain values: JSON numbers and KML coordinates are in billionths.
use vstd::prelude::*;

verus! {

/// A JSON value. Numbers are held in billionths.
#[derive(Debug)]
pub enum Json {
    Null,
    Bool(bool),
    Number(i64),
    Text(String),
    Array(Vec<Json>),
    Object(Vec<(String, Json)>),
}

/// The geometry of a KML placemark. Coordinates are in billionths.
#[derive(Debug)]
pub enum KmlGeometry {
    Point { x: i64, y: i64, z: Option<i64> },
    Other,
}

/// A top-level element of a KML document.
#[derive(Debug)]
pub enum KmlElement {
    Placemark { name: Option<String>, geometry: Option<KmlGeometry> },
    Other,
}

/// The value stored under `key` in an object's members; the first one wins.
pub open spec fn field_of(fields: Seq<(String, Json)>, key: Seq<char>) -> Option<Json>
    decreases fields.len(),
{
    if fields.len() == 0 {
        None
    } else if fields[0].0@ == key {
        Some(fields[0].1)
    } else {
        field_of(fields.drop_first(), key)
    }
}

/// The characters of a JSON string, if the value is one.
pub open spec fn text_of(j: Option<Json>) -> Option<Seq<char>> {
    match j {
        Some(Json::Text(s)) => Some(s@),
        _ => None,
    }
}

/// Looks up `key` among an object's members.
pub fn get_field<'a>(fields: &'a Vec<(String, Json)>, key: &str) -> (r: Option<&'a Json>)
    ensures
        match r {
            Some(j) => field_of(fields@, key@) == Some(*j),
            None => field_of(fields@, key@) is None,
        },
{
    let wanted = String::from_str(key);
    let mut i: usize = 0;
    assert(fields@.subrange(0, fields@.len() as int) =~= fields@);
    while i < fields.len()
        invariant
            i <= fields@.len(),
            wanted@ == key@,
            field_of(fields@, key@) == field_of(fields@.subrange(i as int, fields@.len() as int), key@),
        decreases fields.len() - i,
    {
        let ghost rest = fields@.subrange(i as int, fields@.len() as int);
        assert(rest.drop_first() =~= fields@.subrange(i + 1, fields@.len() as int));
        if fields[i].0 == wanted {
            return Some(&fields[i].1);
        }
        i = i + 1;
    }
    None
}

/// Whether a JSON value is the string `text`.
pub fn is_text(j: Option<&Json>, text: &str) -> (r: bool)
    ensures
        r == (text_of(match j {
            Some(v) => Some(*v),
            None => None,
        }) == Some(text@)),
{
    match j {
        Some(Json::Text(s)) => {
            let t = String::from_str(text);
            *s == t
        },
        _ => false,
    }
}

} // verus!
