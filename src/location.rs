//! One geotagged file: its record, how it is read from image metadata, from a
//! KML placemark or a GeoJSON feature, and how it is written in both formats.
use base64::Engine;
use vstd::prelude::*;
use vstd::utf8::{decode_utf8, valid_utf8};
use crate::codec::{coordinate_from_parts, coordinate_spec, rational_nanos, rational_spec, Axis, Rational};
use crate::document::{field_of, get_field, is_text, text_of, Json, KmlElement, KmlGeometry};
use crate::text::{
    decimal_text, json_number_text, json_quoted, json_string, push_char, push_decimal,
    push_spaces_to_t, push_xml_escaped, spaces_to_t, xml_escaped,
};

verus! {

/// The mathematical content of a `FileLocation`; numbers in billionths.
pub struct LocationView {
    pub file: Seq<char>,
    pub latitude: int,
    pub longitude: int,
    pub altitude: Option<int>,
    pub direction: Option<int>,
    pub thumbnail: Option<Seq<char>>,
    pub timestamp: Option<Seq<char>>,
}

/// Where one file was taken. Latitude, longitude, altitude (metres) and
/// direction (degrees) are held in billionths; the timestamp is kept as read
/// (`YYYY:MM:DD HH:MM:SS`); the thumbnail is unpadded base64 of a JPEG.
#[derive(Debug)]
pub struct FileLocation {
    pub file: String,
    pub latitude: i64,
    pub longitude: i64,
    pub altitude: Option<i64>,
    pub direction: Option<i64>,
    pub thumbnail: Option<String>,
    pub timestamp: Option<String>,
}

pub open spec fn opt_text(o: Option<String>) -> Option<Seq<char>> {
    match o {
        Some(s) => Some(s@),
        None => None,
    }
}

pub open spec fn opt_int(o: Option<i64>) -> Option<int> {
    match o {
        Some(v) => Some(v as int),
        None => None,
    }
}

impl View for FileLocation {
    type V = LocationView;

    open spec fn view(&self) -> LocationView {
        LocationView {
            file: self.file@,
            latitude: self.latitude as int,
            longitude: self.longitude as int,
            altitude: opt_int(self.altitude),
            direction: opt_int(self.direction),
            thumbnail: opt_text(self.thumbnail),
            timestamp: opt_text(self.timestamp),
        }
    }
}

/// A metadata value, as far as the library reads it.
#[derive(Debug)]
pub enum TagValue {
    Ascii(Vec<Vec<u8>>),
    Rational(Vec<Rational>),
    Other,
}

/// The metadata fields that a record is made from, each absent where the
/// image does not carry it.
#[derive(Debug)]
pub struct ExifFields {
    pub latitude: Option<TagValue>,
    pub latitude_ref: Option<TagValue>,
    pub longitude: Option<TagValue>,
    pub longitude_ref: Option<TagValue>,
    pub altitude: Option<TagValue>,
    pub direction: Option<TagValue>,
    pub date_time_original: Option<TagValue>,
}

/// The first byte of the first string, as a letter.
pub open spec fn letter_spec(v: Option<TagValue>) -> Option<char> {
    match v {
        Some(TagValue::Ascii(vs)) => if vs@.len() > 0 && vs@[0]@.len() > 0 {
            Some(vs@[0]@[0] as char)
        } else {
            None
        },
        _ => None,
    }
}

pub open spec fn rationals_of(v: Option<TagValue>) -> Option<Seq<Rational>> {
    match v {
        Some(TagValue::Rational(rs)) => Some(rs@),
        _ => None,
    }
}

pub open spec fn coordinate_field(v: Option<TagValue>, r: Option<char>, axis: Axis) -> Option<int> {
    match (rationals_of(v), r) {
        (Some(parts), Some(letter)) => coordinate_spec(parts, letter, axis),
        _ => None,
    }
}

/// The first rational of a value, in billionths.
pub open spec fn first_rational_spec(v: Option<TagValue>) -> Option<int> {
    match rationals_of(v) {
        Some(rs) => if rs.len() > 0 {
            rational_spec(rs[0])
        } else {
            None
        },
        None => None,
    }
}

/// The first string of a value, where it is valid UTF-8.
pub open spec fn ascii_text_spec(v: Option<TagValue>) -> Option<Seq<char>> {
    match v {
        Some(TagValue::Ascii(vs)) => if vs@.len() > 0 && valid_utf8(vs@[0]@) {
            Some(decode_utf8(vs@[0]@))
        } else {
            None
        },
        _ => None,
    }
}

/// The record that metadata yields: none without both coordinates and their
/// letters; the optional fields each absent where unreadable.
pub open spec fn exif_view(file: Seq<char>, e: ExifFields) -> Option<LocationView> {
    let lat = coordinate_field(e.latitude, letter_spec(e.latitude_ref), Axis::Latitude);
    let lon = coordinate_field(e.longitude, letter_spec(e.longitude_ref), Axis::Longitude);
    match (lat, lon) {
        (Some(latitude), Some(longitude)) => Some(
            LocationView {
                file,
                latitude,
                longitude,
                altitude: first_rational_spec(e.altitude),
                direction: first_rational_spec(e.direction),
                thumbnail: None,
                timestamp: ascii_text_spec(e.date_time_original),
            },
        ),
        _ => None,
    }
}

/// The record that a KML element yields: a placemark with a name and a point.
pub open spec fn kml_view(e: KmlElement) -> Option<LocationView> {
    match e {
        KmlElement::Placemark { name: Some(n), geometry: Some(KmlGeometry::Point { x, y, z }) } => Some(
            LocationView {
                file: n@,
                latitude: y as int,
                longitude: x as int,
                altitude: opt_int(z),
                direction: None,
                thumbnail: None,
                timestamp: None,
            },
        ),
        _ => None,
    }
}

/// An optional numeric member: absent is `Some(None)`, a number is
/// `Some(Some(n))`, anything else is malformed (`None`).
pub open spec fn optional_number(j: Option<Json>) -> Option<Option<int>> {
    match j {
        None => Some(None),
        Some(Json::Number(n)) => Some(Some(n as int)),
        _ => None,
    }
}

/// `(x, y)` of a Point geometry with at least two numeric coordinates.
pub open spec fn point_of(g: Option<Json>) -> Option<(int, int)> {
    match g {
        Some(Json::Object(gf)) => if text_of(field_of(gf@, "type"@)) == Some("Point"@) {
            match field_of(gf@, "coordinates"@) {
                Some(Json::Array(cs)) => if cs@.len() >= 2 {
                    match (cs@[0], cs@[1]) {
                        (Json::Number(x), Json::Number(y)) => Some((x as int, y as int)),
                        _ => None,
                    }
                } else {
                    None
                },
                _ => None,
            }
        } else {
            None
        },
        _ => None,
    }
}

/// The members of a feature's properties; absent or null is empty.
pub open spec fn properties_of(p: Option<Json>) -> Option<Seq<(String, Json)>> {
    match p {
        None => Some(Seq::empty()),
        Some(Json::Null) => Some(Seq::empty()),
        Some(Json::Object(f)) => Some(f@),
        _ => None,
    }
}

/// The record that a GeoJSON feature yields.
pub open spec fn feature_view(j: Json) -> Option<LocationView> {
    match j {
        Json::Object(f) => if text_of(field_of(f@, "type"@)) != Some("Feature"@) {
            None
        } else {
            match (point_of(field_of(f@, "geometry"@)), properties_of(field_of(f@, "properties"@))) {
                (Some(pt), Some(p)) => match (
                    text_of(field_of(p, "name"@)),
                    optional_number(field_of(p, "altitude"@)),
                    optional_number(field_of(p, "direction"@)),
                ) {
                    (Some(name), Some(altitude), Some(direction)) => Some(
                        LocationView {
                            file: name,
                            latitude: pt.1,
                            longitude: pt.0,
                            altitude,
                            direction,
                            thumbnail: text_of(field_of(p, "thumbnail"@)),
                            timestamp: text_of(field_of(p, "timestamp"@)),
                        },
                    ),
                    _ => None,
                },
                _ => None,
            }
        },
        _ => None,
    }
}

/// The KML placemark of a record.
pub open spec fn kml_text(l: LocationView) -> Seq<char> {
    let alt = match l.altitude {
        Some(a) => a,
        None => 0,
    };
    let stamp = match l.timestamp {
        Some(t) => "<TimeStamp><when>"@ + spaces_to_t(t) + "</when></TimeStamp>"@,
        None => Seq::empty(),
    };
    "<Placemark><name>"@ + xml_escaped(l.file) + "</name><Point><coordinates>"@ + decimal_text(
        l.longitude,
    ) + ","@ + decimal_text(l.latitude) + ","@ + decimal_text(alt) + "</coordinates></Point>"@
        + stamp + "</Placemark>"@
}

/// A numeric property before `name`: the member and a comma, where present.
pub open spec fn leading_member(prefix: Seq<char>, v: Option<int>) -> Seq<char> {
    match v {
        Some(a) => prefix + json_number_text(a) + ","@,
        None => Seq::empty(),
    }
}

/// A string property after `name`: a comma and the member, where present.
pub open spec fn trailing_member(prefix: Seq<char>, v: Option<Seq<char>>) -> Seq<char> {
    match v {
        Some(t) => prefix + json_quoted(t),
        None => Seq::empty(),
    }
}

/// The properties object of a record's feature, without its braces.
pub open spec fn geojson_properties(l: LocationView) -> Seq<char> {
    leading_member("\"altitude\":"@, l.altitude) + leading_member("\"direction\":"@, l.direction)
        + "\"name\":"@ + json_quoted(l.file) + trailing_member(",\"thumbnail\":"@, l.thumbnail)
        + trailing_member(",\"timestamp\":"@, l.timestamp)
}

/// The GeoJSON feature of a record, members in key order; optional
/// properties appear only where present.
pub open spec fn geojson_text(l: LocationView) -> Seq<char> {
    "{\"geometry\":{\"coordinates\":["@ + json_number_text(l.longitude) + ","@ + json_number_text(
        l.latitude,
    ) + "],\"type\":\"Point\"},\"properties\":{"@ + geojson_properties(l)
        + "},\"type\":\"Feature\"}"@
}

/// What chrono's `NaiveDateTime::parse_from_str` gives for a text and a
/// pattern, as seconds since 1970-01-01 00:00:00.
pub uninterp spec fn parsed_instant(s: Seq<char>, pattern: Seq<char>) -> Option<i64>;

/// A six-bit value in the standard base64 alphabet.
pub open spec fn base64_symbol(v: int) -> char {
    if v < 26 {
        (65 + v) as char
    } else if v < 52 {
        (97 + v - 26) as char
    } else if v < 62 {
        (48 + v - 52) as char
    } else if v == 62 {
        '+'
    } else {
        '/'
    }
}

/// Bytes in standard base64 without padding (RFC 4648): each group of three
/// bytes becomes four symbols, a final two bytes three, a final byte two.
pub open spec fn base64_of(b: Seq<u8>) -> Seq<char>
    decreases b.len(),
{
    if b.len() == 0 {
        Seq::empty()
    } else {
        let b0 = b[0] as int;
        let b1 = if b.len() > 1 { b[1] as int } else { 0 };
        let b2 = if b.len() > 2 { b[2] as int } else { 0 };
        let n = b0 * 65536 + b1 * 256 + b2;
        let all = seq![
            base64_symbol(n / 262144),
            base64_symbol((n / 4096) % 64),
            base64_symbol((n / 64) % 64),
            base64_symbol(n % 64),
        ];
        if b.len() >= 3 {
            all + base64_of(b.subrange(3, b.len() as int))
        } else {
            all.take(b.len() as int + 1)
        }
    }
}

/// Relies on chrono's `NaiveDateTime::parse_from_str` and `and_utc().timestamp()`:
/// the instant that `s` names under `pattern`, in seconds, or `None` where it
/// does not parse.
#[verifier::external_body]
pub(crate) fn parse_instant(s: &str, pattern: &str) -> (r: Option<i64>)
    ensures
        r == parsed_instant(s@, pattern@),
{
    chrono::NaiveDateTime::parse_from_str(s, pattern).ok().map(|d| d.and_utc().timestamp())
}

/// Relies on base64's `general_purpose::STANDARD_NO_PAD.encode`: the
/// standard alphabet, no padding.
#[verifier::external_body]
fn encode_base64(b: &Vec<u8>) -> (r: String)
    ensures
        r@ == base64_of(b@),
{
    base64::engine::general_purpose::STANDARD_NO_PAD.encode(b)
}

/// Relies on `std::str::from_utf8`: it succeeds exactly on valid UTF-8.
#[verifier::external_body]
fn utf8_text(b: &Vec<u8>) -> (r: Option<String>)
    ensures
        match r {
            Some(s) => valid_utf8(b@) && s@ == decode_utf8(b@),
            None => !valid_utf8(b@),
        },
{
    std::str::from_utf8(b).ok().map(|s| s.to_string())
}

/// The instant of midnight on a `YYYY-MM-DD` date, in seconds, where the
/// date parses.
pub fn midnight_of(date: &str) -> (r: Option<i64>)
    ensures
        r == parsed_instant(date@ + " 00:00:00"@, "%Y-%m-%d %H:%M:%S"@),
{
    let mut full = String::from_str(date);
    full.append(" 00:00:00");
    let r = parse_instant(full.as_str(), "%Y-%m-%d %H:%M:%S");
    proof {
        reveal_strlit(" 00:00:00");
        reveal_strlit("%Y-%m-%d %H:%M:%S");
    }
    r
}

/// The instant of a stored timestamp, in seconds.
pub open spec fn instant_of(timestamp: Option<Seq<char>>) -> Option<i64> {
    match timestamp {
        Some(t) => parsed_instant(t, "%Y:%m:%d %H:%M:%S"@),
        None => None,
    }
}

/// A record after a thumbnail pass that was handed `jpeg`: a thumbnail that
/// is there stays; otherwise the JPEG, if any, is stored as base64.
pub open spec fn enriched(l: LocationView, jpeg: Option<Seq<u8>>) -> LocationView {
    if l.thumbnail is Some {
        l
    } else {
        match jpeg {
            Some(b) => LocationView { thumbnail: Some(base64_of(b)), ..l },
            None => l,
        }
    }
}

pub open spec fn opt_bytes(o: Option<Vec<u8>>) -> Option<Seq<u8>> {
    match o {
        Some(b) => Some(b@),
        None => None,
    }
}

fn letter_from_value(v: &Option<TagValue>) -> (r: Option<char>)
    ensures
        r == letter_spec(*v),
{
    match v {
        Some(TagValue::Ascii(vs)) => {
            if vs.len() > 0 && vs[0].len() > 0 {
                Some(vs[0][0] as char)
            } else {
                None
            }
        },
        _ => None,
    }
}

fn coordinate_from_value(v: &Option<TagValue>, r: Option<char>, axis: Axis) -> (c: Option<i64>)
    ensures
        match c {
            Some(x) => coordinate_field(*v, r, axis) == Some(x as int),
            None => coordinate_field(*v, r, axis) is None,
        },
{
    match (v, r) {
        (Some(TagValue::Rational(parts)), Some(letter)) => coordinate_from_parts(parts, letter, axis),
        _ => None,
    }
}

fn first_rational(v: &Option<TagValue>) -> (r: Option<i64>)
    ensures
        opt_int(r) == first_rational_spec(*v),
{
    match v {
        Some(TagValue::Rational(rs)) => {
            if rs.len() > 0 {
                rational_nanos(rs[0])
            } else {
                None
            }
        },
        _ => None,
    }
}

fn string_from_value(v: &Option<TagValue>) -> (r: Option<String>)
    ensures
        opt_text(r) == ascii_text_spec(*v),
{
    match v {
        Some(TagValue::Ascii(vs)) => {
            if vs.len() > 0 {
                utf8_text(&vs[0])
            } else {
                None
            }
        },
        _ => None,
    }
}

fn clone_text(o: &Option<String>) -> (r: Option<String>)
    ensures
        r == *o,
{
    match o {
        Some(s) => Some(s.clone()),
        None => None,
    }
}

fn text_value(j: Option<&Json>) -> (r: Option<String>)
    ensures
        opt_text(r) == text_of(match j {
            Some(v) => Some(*v),
            None => None,
        }),
{
    match j {
        Some(Json::Text(s)) => Some(s.clone()),
        _ => None,
    }
}

fn optional_number_value(j: Option<&Json>) -> (r: Option<Option<i64>>)
    ensures
        match r {
            Some(o) => optional_number(match j {
                Some(v) => Some(*v),
                None => None,
            }) == Some(opt_int(o)),
            None => optional_number(match j {
                Some(v) => Some(*v),
                None => None,
            }) is None,
        },
{
    match j {
        None => Some(None),
        Some(Json::Number(n)) => Some(Some(*n)),
        _ => None,
    }
}

fn point_value(g: Option<&Json>) -> (r: Option<(i64, i64)>)
    ensures
        match r {
            Some(p) => point_of(match g {
                Some(v) => Some(*v),
                None => None,
            }) == Some((p.0 as int, p.1 as int)),
            None => point_of(match g {
                Some(v) => Some(*v),
                None => None,
            }) is None,
        },
{
    match g {
        Some(Json::Object(gf)) => {
            if !is_text(get_field(gf, "type"), "Point") {
                return None;
            }
            proof { reveal_strlit("Point"); }
            match get_field(gf, "coordinates") {
                Some(Json::Array(cs)) => {
                    if cs.len() < 2 {
                        return None;
                    }
                    match (&cs[0], &cs[1]) {
                        (Json::Number(x), Json::Number(y)) => Some((*x, *y)),
                        _ => None,
                    }
                },
                _ => None,
            }
        },
        _ => None,
    }
}

fn push_leading_member(out: &mut String, prefix: &str, v: Option<i64>)
    ensures
        final(out)@ == old(out)@ + leading_member(prefix@, opt_int(v)),
{
    match v {
        Some(a) => {
            out.append(prefix);
            push_decimal(out, a, true);
            push_char(out, ',');
            proof { reveal_strlit(","); }
        },
        None => {},
    }
    assert(final(out)@ =~= old(out)@ + leading_member(prefix@, opt_int(v)));
}

fn push_trailing_member(out: &mut String, prefix: &str, v: &Option<String>)
    ensures
        final(out)@ == old(out)@ + trailing_member(prefix@, opt_text(*v)),
{
    match v {
        Some(t) => {
            out.append(prefix);
            let q = json_string(t.as_str());
            out.append(q.as_str());
        },
        None => {},
    }
    assert(final(out)@ =~= old(out)@ + trailing_member(prefix@, opt_text(*v)));
}

impl FileLocation {
    /// The record that image metadata yields for `file`; `None` where either
    /// coordinate or its hemisphere letter is missing or unreadable.
    pub fn from_exif(file: &str, exif: &ExifFields) -> (r: Option<FileLocation>)
        ensures
            match r {
                Some(l) => exif_view(file@, *exif) == Some(l@),
                None => exif_view(file@, *exif) is None,
            },
    {
        let lat_ref = letter_from_value(&exif.latitude_ref);
        let lon_ref = letter_from_value(&exif.longitude_ref);
        let latitude = match coordinate_from_value(&exif.latitude, lat_ref, Axis::Latitude) {
            Some(v) => v,
            None => return None,
        };
        let longitude = match coordinate_from_value(&exif.longitude, lon_ref, Axis::Longitude) {
            Some(v) => v,
            None => return None,
        };
        Some(
            FileLocation {
                file: String::from_str(file),
                latitude,
                longitude,
                altitude: first_rational(&exif.altitude),
                direction: first_rational(&exif.direction),
                thumbnail: None,
                timestamp: string_from_value(&exif.date_time_original),
            },
        )
    }

    /// The record of a KML placemark with a name and a point geometry.
    pub fn from_kml_element(element: &KmlElement) -> (r: Option<FileLocation>)
        ensures
            match r {
                Some(l) => kml_view(*element) == Some(l@),
                None => kml_view(*element) is None,
            },
    {
        match element {
            KmlElement::Placemark { name: Some(n), geometry: Some(KmlGeometry::Point { x, y, z }) } => {
                Some(
                    FileLocation {
                        file: n.clone(),
                        latitude: *y,
                        longitude: *x,
                        altitude: *z,
                        direction: None,
                        thumbnail: None,
                        timestamp: None,
                    },
                )
            },
            _ => None,
        }
    }

    /// The record of a GeoJSON Point feature. `name` and both coordinates
    /// are required, and `altitude` and `direction`, where present, must be
    /// numbers; `thumbnail` and `timestamp` are kept where they are strings.
    pub fn from_geojson_feature(v: &Json) -> (r: Option<FileLocation>)
        ensures
            match r {
                Some(l) => feature_view(*v) == Some(l@),
                None => feature_view(*v) is None,
            },
    {
        let f = match v {
            Json::Object(f) => f,
            _ => return None,
        };
        proof {
            reveal_strlit("Feature");
        }
        if !is_text(get_field(f, "type"), "Feature") {
            return None;
        }
        let point = match point_value(get_field(f, "geometry")) {
            Some(p) => p,
            None => return None,
        };
        let empty: Vec<(String, Json)> = Vec::new();
        let p: &Vec<(String, Json)> = match get_field(f, "properties") {
            None => &empty,
            Some(Json::Null) => &empty,
            Some(Json::Object(pf)) => pf,
            _ => return None,
        };
        assert(properties_of(field_of(f@, "properties"@)) == Some(p@));
        let file = match text_value(get_field(p, "name")) {
            Some(s) => s,
            None => return None,
        };
        let altitude = match optional_number_value(get_field(p, "altitude")) {
            Some(a) => a,
            None => return None,
        };
        let direction = match optional_number_value(get_field(p, "direction")) {
            Some(d) => d,
            None => return None,
        };
        Some(
            FileLocation {
                file,
                latitude: point.1,
                longitude: point.0,
                altitude,
                direction,
                thumbnail: text_value(get_field(p, "thumbnail")),
                timestamp: text_value(get_field(p, "timestamp")),
            },
        )
    }

    /// The KML placemark of this record: the escaped name, the point as
    /// longitude, latitude, altitude (zero where absent), and the timestamp
    /// with its spaces turned into `T`, where there is one.
    pub fn as_kml(&self) -> (r: String)
        ensures
            r@ == kml_text(self@),
    {
        let mut out = String::new();
        out.append("<Placemark><name>");
        push_xml_escaped(&mut out, self.file.as_str());
        out.append("</name><Point><coordinates>");
        push_decimal(&mut out, self.longitude, false);
        push_char(&mut out, ',');
        push_decimal(&mut out, self.latitude, false);
        push_char(&mut out, ',');
        let alt: i64 = match self.altitude {
            Some(a) => a,
            None => 0,
        };
        push_decimal(&mut out, alt, false);
        out.append("</coordinates></Point>");
        match &self.timestamp {
            Some(t) => {
                out.append("<TimeStamp><when>");
                push_spaces_to_t(&mut out, t.as_str());
                out.append("</when></TimeStamp>");
            },
            None => {},
        }
        out.append("</Placemark>");
        proof {
            reveal_strlit("<Placemark><name>");
            reveal_strlit("</name><Point><coordinates>");
            reveal_strlit(",");
            reveal_strlit("</coordinates></Point>");
            reveal_strlit("<TimeStamp><when>");
            reveal_strlit("</when></TimeStamp>");
            reveal_strlit("</Placemark>");
        }
        assert(out@ =~= kml_text(self@));
        out
    }

    /// The GeoJSON feature of this record, on one line, members in key order.
    pub fn as_geojson(&self) -> (r: String)
        ensures
            r@ == geojson_text(self@),
    {
        let mut out = String::new();
        out.append("{\"geometry\":{\"coordinates\":[");
        push_decimal(&mut out, self.longitude, true);
        push_char(&mut out, ',');
        push_decimal(&mut out, self.latitude, true);
        out.append("],\"type\":\"Point\"},\"properties\":{");
        let ghost head = out@;
        push_leading_member(&mut out, "\"altitude\":", self.altitude);
        push_leading_member(&mut out, "\"direction\":", self.direction);
        out.append("\"name\":");
        let name = json_string(self.file.as_str());
        out.append(name.as_str());
        push_trailing_member(&mut out, ",\"thumbnail\":", &self.thumbnail);
        push_trailing_member(&mut out, ",\"timestamp\":", &self.timestamp);
        proof {
            reveal_strlit("\"altitude\":");
            reveal_strlit("\"direction\":");
            reveal_strlit("\"name\":");
            reveal_strlit(",\"thumbnail\":");
            reveal_strlit(",\"timestamp\":");
            assert(out@ =~= head + geojson_properties(self@));
        }
        out.append("},\"type\":\"Feature\"}");
        proof {
            reveal_strlit("{\"geometry\":{\"coordinates\":[");
            reveal_strlit(",");
            reveal_strlit("],\"type\":\"Point\"},\"properties\":{");
            reveal_strlit("},\"type\":\"Feature\"}");
        }
        assert(out@ =~= geojson_text(self@));
        out
    }

    /// The capture time in seconds since 1970-01-01 00:00:00, where the
    /// timestamp is there and parses as `%Y:%m:%d %H:%M:%S`.
    pub fn timestamp_parsed(&self) -> (r: Option<i64>)
        ensures
            r == instant_of(opt_text(self.timestamp)),
    {
        match &self.timestamp {
            Some(t) => {
                let r = parse_instant(t.as_str(), "%Y:%m:%d %H:%M:%S");
                proof { reveal_strlit("%Y:%m:%d %H:%M:%S"); }
                r
            },
            None => None,
        }
    }

    /// Whether the thumbnail pass has work to do on this record.
    pub fn needs_thumbnail(&self) -> (r: bool)
        ensures
            r == (self.thumbnail is None),
    {
        self.thumbnail.is_none()
    }

    /// Stores `jpeg`, as unpadded base64, as the thumbnail unless one is
    /// already there; nothing else changes.
    pub fn generate_missing_thumbnail(&mut self, jpeg: &Option<Vec<u8>>)
        ensures
            final(self)@ == enriched(old(self)@, opt_bytes(*jpeg)),
    {
        if self.thumbnail.is_none() {
            match jpeg {
                Some(b) => {
                    self.thumbnail = Some(encode_base64(b));
                },
                None => {},
            }
        }
    }

    /// A copy of this record.
    pub fn duplicate(&self) -> (r: FileLocation)
        ensures
            r@ == self@,
    {
        FileLocation {
            file: self.file.clone(),
            latitude: self.latitude,
            longitude: self.longitude,
            altitude: self.altitude,
            direction: self.direction,
            thumbnail: clone_text(&self.thumbnail),
            timestamp: clone_text(&self.timestamp),
        }
    }
}

pub open spec fn count_if(b: bool) -> int {
    if b { 1 } else { 0 }
}

/// How many properties a record's feature has.
pub open spec fn property_count(l: LocationView) -> int {
    count_if(l.altitude is Some) + count_if(l.direction is Some) + 1 + count_if(l.thumbnail is Some)
        + count_if(l.timestamp is Some)
}

/// The name of property `i` of a record's feature, in the writer's order:
/// `altitude`, `direction`, `name`, `thumbnail`, `timestamp`, each optional
/// one only where the record has it.
pub open spec fn property_key(l: LocationView, i: int) -> Seq<char> {
    let a = count_if(l.altitude is Some);
    let d = count_if(l.direction is Some);
    let t = count_if(l.thumbnail is Some);
    if i < a {
        "altitude"@
    } else if i < a + d {
        "direction"@
    } else if i == a + d {
        "name"@
    } else if i < a + d + 1 + t {
        "thumbnail"@
    } else {
        "timestamp"@
    }
}

/// The member named `key` holds the record's value for it.
pub open spec fn member_carries(key: Seq<char>, v: Json, l: LocationView) -> bool {
    match v {
        Json::Number(n) => (key == "altitude"@ && l.altitude == Some(n as int)) || (key
            == "direction"@ && l.direction == Some(n as int)),
        Json::Text(s) => (key == "name"@ && s@ == l.file) || (key == "thumbnail"@ && l.thumbnail
            == Some(s@)) || (key == "timestamp"@ && l.timestamp == Some(s@)),
        _ => false,
    }
}

/// A GeoJSON feature laid out as the writer lays out a record: members
/// `geometry` (a Point of exactly longitude and latitude), `properties` (the
/// members named by `property_key`, in order, with the record's values) and
/// `type` `Feature`.
pub open spec fn geojson_feature_of(j: Json, l: LocationView) -> bool {
    match j {
        Json::Object(f) => {
            &&& f@.len() == 3
            &&& f@[0].0@ == "geometry"@
            &&& f@[1].0@ == "properties"@
            &&& f@[2].0@ == "type"@
            &&& text_of(Some(f@[2].1)) == Some("Feature"@)
            &&& match f@[0].1 {
                Json::Object(g) => {
                    &&& g@.len() == 2
                    &&& g@[0].0@ == "coordinates"@
                    &&& g@[1].0@ == "type"@
                    &&& text_of(Some(g@[1].1)) == Some("Point"@)
                    &&& match g@[0].1 {
                        Json::Array(cs) => cs@.len() == 2 && match (cs@[0], cs@[1]) {
                            (Json::Number(x), Json::Number(y)) => x as int == l.longitude && y as int
                                == l.latitude,
                            _ => false,
                        },
                        _ => false,
                    }
                },
                _ => false,
            }
            &&& match f@[1].1 {
                Json::Object(p) => {
                    &&& p@.len() == property_count(l)
                    &&& forall|i: int|
                        0 <= i < p@.len() ==> #[trigger] p@[i].0@ == property_key(l, i)
                            && member_carries(p@[i].0@, p@[i].1, l)
                },
                _ => false,
            }
        },
        _ => false,
    }
}

proof fn lemma_field_at(p: Seq<(String, Json)>, key: Seq<char>, i: int)
    requires
        0 <= i < p.len(),
        p[i].0@ == key,
        forall|j: int| 0 <= j < i ==> (#[trigger] p[j]).0@ != key,
    ensures
        field_of(p, key) == Some(p[i].1),
    decreases i,
{
    if i > 0 {
        lemma_field_at(p.drop_first(), key, i - 1);
    }
}

proof fn lemma_field_absent(p: Seq<(String, Json)>, key: Seq<char>)
    requires
        forall|j: int| 0 <= j < p.len() ==> (#[trigger] p[j]).0@ != key,
    ensures
        field_of(p, key) is None,
    decreases p.len(),
{
    if p.len() > 0 {
        lemma_field_absent(p.drop_first(), key);
    }
}

proof fn lemma_distinct_keys()
    ensures
        "altitude"@ != "direction"@,
        "altitude"@ != "name"@,
        "altitude"@ != "thumbnail"@,
        "altitude"@ != "timestamp"@,
        "direction"@ != "name"@,
        "direction"@ != "thumbnail"@,
        "direction"@ != "timestamp"@,
        "name"@ != "thumbnail"@,
        "name"@ != "timestamp"@,
        "thumbnail"@ != "timestamp"@,
{
    reveal_strlit("altitude");
    reveal_strlit("direction");
    reveal_strlit("name");
    reveal_strlit("thumbnail");
    reveal_strlit("timestamp");
    assert("altitude"@[0] != "direction"@[0]);
    assert("altitude"@[0] != "thumbnail"@[0]);
    assert("altitude"@[0] != "timestamp"@[0]);
    assert("direction"@[0] != "thumbnail"@[0]);
    assert("direction"@[0] != "timestamp"@[0]);
    assert("thumbnail"@[1] != "timestamp"@[1]);
}

proof fn lemma_property_lookup(p: Seq<(String, Json)>, l: LocationView, key: Seq<char>, i: int)
    requires
        p.len() == property_count(l),
        forall|k: int| 0 <= k < p.len() ==> #[trigger] p[k].0@ == property_key(l, k),
        0 <= i < p.len(),
        property_key(l, i) == key,
    ensures
        field_of(p, key) == Some(p[i].1),
{
    lemma_distinct_keys();
    assert forall|j: int| 0 <= j < i implies (#[trigger] p[j]).0@ != key by {
        assert(property_key(l, j) != property_key(l, i));
    }
    lemma_field_at(p, key, i);
}

proof fn lemma_property_absent(p: Seq<(String, Json)>, l: LocationView, key: Seq<char>)
    requires
        p.len() == property_count(l),
        forall|k: int| 0 <= k < p.len() ==> #[trigger] p[k].0@ == property_key(l, k),
        forall|k: int| 0 <= k < p.len() ==> property_key(l, k) != key,
    ensures
        field_of(p, key) is None,
{
    assert forall|j: int| 0 <= j < p.len() implies (#[trigger] p[j]).0@ != key by {
        assert(property_key(l, j) != key);
    }
    lemma_field_absent(p, key);
}

/// A KML placemark that carries a record as the writer lays it out: the
/// name, and a point of longitude, latitude and the altitude or zero.
pub open spec fn kml_placemark_of(e: KmlElement, l: LocationView) -> bool {
    match e {
        KmlElement::Placemark { name: Some(n), geometry: Some(KmlGeometry::Point { x, y, z }) } => {
            &&& n@ == l.file
            &&& x as int == l.longitude
            &&& y as int == l.latitude
            &&& opt_int(z) == Some(
                match l.altitude {
                    Some(a) => a,
                    None => 0,
                },
            )
        },
        _ => false,
    }
}

/// Reading back the GeoJSON feature of a record gives the record, every
/// field included.
pub proof fn lemma_geojson_round_trip(j: Json, l: LocationView)
    requires
        geojson_feature_of(j, l),
    ensures
        feature_view(j) == Some(l),
{
    reveal_strlit("altitude");
    reveal_strlit("direction");
    reveal_strlit("name");
    reveal_strlit("thumbnail");
    reveal_strlit("timestamp");
    reveal_strlit("geometry");
    reveal_strlit("properties");
    reveal_strlit("type");
    reveal_strlit("coordinates");
    let f = j->Object_0@;
    let g = f[0].1->Object_0@;
    let p = f[1].1->Object_0@;
    assert("geometry"@[0] != "type"@[0]);
    assert("properties"@[0] != "type"@[0]);
    assert("geometry"@[0] != "properties"@[0]);
    assert("coordinates"@[0] != "type"@[0]);
    lemma_field_at(f, "type"@, 2);
    lemma_field_at(f, "geometry"@, 0);
    lemma_field_at(f, "properties"@, 1);
    lemma_field_at(g, "type"@, 1);
    lemma_field_at(g, "coordinates"@, 0);
    lemma_distinct_keys();
    let na = count_if(l.altitude is Some);
    let nd = count_if(l.direction is Some);
    let nt = count_if(l.thumbnail is Some);
    lemma_property_lookup(p, l, "name"@, na + nd);
    assert(p[na + nd].0@ == "name"@);
    assert(text_of(field_of(p, "name"@)) == Some(l.file));
    if l.altitude is Some {
        lemma_property_lookup(p, l, "altitude"@, 0);
        assert(p[0].0@ == "altitude"@);
    } else {
        lemma_property_absent(p, l, "altitude"@);
    }
    if l.direction is Some {
        lemma_property_lookup(p, l, "direction"@, na);
        assert(p[na].0@ == "direction"@);
    } else {
        lemma_property_absent(p, l, "direction"@);
    }
    if l.thumbnail is Some {
        lemma_property_lookup(p, l, "thumbnail"@, na + nd + 1);
        assert(p[na + nd + 1].0@ == "thumbnail"@);
    } else {
        lemma_property_absent(p, l, "thumbnail"@);
    }
    if l.timestamp is Some {
        lemma_property_lookup(p, l, "timestamp"@, na + nd + 1 + nt);
        assert(p[na + nd + 1 + nt].0@ == "timestamp"@);
    } else {
        lemma_property_absent(p, l, "timestamp"@);
    }
    assert(optional_number(field_of(p, "altitude"@)) == Some(l.altitude));
    assert(optional_number(field_of(p, "direction"@)) == Some(l.direction));
    assert(text_of(field_of(p, "thumbnail"@)) == l.thumbnail);
    assert(text_of(field_of(p, "timestamp"@)) == l.timestamp);
    assert(point_of(field_of(f, "geometry"@)) == Some((l.longitude, l.latitude)));
    assert(properties_of(field_of(f, "properties"@)) == Some(p));
}

/// Reading back the KML placemark of a record keeps its file, latitude,
/// longitude and altitude (zero where there was none); direction, timestamp
/// and thumbnail are not carried by KML.
pub proof fn lemma_kml_round_trip(e: KmlElement, l: LocationView)
    requires
        kml_placemark_of(e, l),
    ensures
        kml_view(e) is Some,
        kml_view(e).unwrap().file == l.file,
        kml_view(e).unwrap().latitude == l.latitude,
        kml_view(e).unwrap().longitude == l.longitude,
        l.altitude is Some ==> kml_view(e).unwrap().altitude == l.altitude,
        l.altitude is None ==> kml_view(e).unwrap().altitude == Some(0int),
        kml_view(e).unwrap().direction is None,
        kml_view(e).unwrap().timestamp is None,
        kml_view(e).unwrap().thumbnail is None,
{
}

/// A second thumbnail pass never replaces what the first one left, and a
/// pass over a record that has a thumbnail changes nothing.
pub proof fn lemma_thumbnail_kept(l: LocationView, first: Option<Seq<u8>>, second: Option<Seq<u8>>)
    ensures
        enriched(l, first).thumbnail is Some ==> enriched(enriched(l, first), second) == enriched(
            l,
            first,
        ),
        l.thumbnail is Some ==> enriched(l, first) == l,
{
}

} // verus!
