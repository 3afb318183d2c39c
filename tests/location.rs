use img_coords::codec::{coordinate_from_parts, rational_nanos, Axis, Rational};
use img_coords::document::{Json, KmlElement, KmlGeometry};
use img_coords::location::{midnight_of, ExifFields, FileLocation, TagValue};

fn text(s: &str) -> Json {
    Json::Text(s.to_string())
}

fn member(k: &str, v: Json) -> (String, Json) {
    (k.to_string(), v)
}

fn sunrise() -> FileLocation {
    FileLocation {
        file: "test_files/sunrise.jpg".to_string(),
        latitude: 45_678_900_000,
        longitude: 12_345_000_000,
        altitude: Some(46_790_000_000),
        direction: Some(11_000_000_000),
        thumbnail: None,
        timestamp: Some("2025:03:06 05:41:42".to_string()),
    }
}

fn r(num: u32, denom: u32) -> Rational {
    Rational { num, denom }
}

#[test]
fn test_from_geojson_feature() {
    let v = Json::Object(vec![
        member("type", text("Feature")),
        member(
            "geometry",
            Json::Object(vec![
                member("type", text("Point")),
                member(
                    "coordinates",
                    Json::Array(vec![Json::Number(12_345_000_000), Json::Number(45_678_900_000)]),
                ),
            ]),
        ),
        member(
            "properties",
            Json::Object(vec![
                member("name", text("test_files/sunrise.jpg")),
                member("altitude", Json::Number(46_790_000_000)),
                member("direction", Json::Number(11_000_000_000)),
                member("timestamp", text("2025:03:06 05:41:42")),
                member("thumbnail", text("base64")),
            ]),
        ),
    ]);
    let fl = FileLocation::from_geojson_feature(&v).unwrap();
    assert_eq!(fl.file, "test_files/sunrise.jpg");
    assert_eq!(fl.latitude, 45_678_900_000);
    assert_eq!(fl.longitude, 12_345_000_000);
    assert_eq!(fl.altitude, Some(46_790_000_000));
    assert_eq!(fl.direction, Some(11_000_000_000));
    assert_eq!(fl.thumbnail, Some("base64".to_string()));
    assert_eq!(fl.timestamp, Some("2025:03:06 05:41:42".to_string()));
}

fn point_feature(props: Vec<(String, Json)>) -> Json {
    Json::Object(vec![
        member("type", text("Feature")),
        member(
            "geometry",
            Json::Object(vec![
                member("type", text("Point")),
                member("coordinates", Json::Array(vec![Json::Number(1), Json::Number(2)])),
            ]),
        ),
        member("properties", Json::Object(props)),
    ])
}

#[test]
fn geojson_feature_optional_fields_absent() {
    let fl = FileLocation::from_geojson_feature(&point_feature(vec![member("name", text("a.jpg"))]))
        .unwrap();
    assert_eq!(fl.latitude, 2);
    assert_eq!(fl.longitude, 1);
    assert_eq!(fl.altitude, None);
    assert_eq!(fl.direction, None);
    assert_eq!(fl.thumbnail, None);
    assert_eq!(fl.timestamp, None);
}

#[test]
fn geojson_feature_non_numeric_altitude_drops_record() {
    let v = point_feature(vec![member("name", text("a.jpg")), member("altitude", text("high"))]);
    assert!(FileLocation::from_geojson_feature(&v).is_none());
}

#[test]
fn geojson_feature_without_name_or_point_is_refused() {
    assert!(FileLocation::from_geojson_feature(&point_feature(vec![])).is_none());
    let line = Json::Object(vec![
        member("type", text("Feature")),
        member(
            "geometry",
            Json::Object(vec![member("type", text("LineString")), member("coordinates", Json::Array(vec![]))]),
        ),
        member("properties", Json::Object(vec![member("name", text("a.jpg"))])),
    ]);
    assert!(FileLocation::from_geojson_feature(&line).is_none());
}

#[test]
fn geojson_feature_non_string_thumbnail_is_absent() {
    let v = point_feature(vec![member("name", text("a.jpg")), member("thumbnail", Json::Number(3))]);
    let fl = FileLocation::from_geojson_feature(&v).unwrap();
    assert_eq!(fl.thumbnail, None);
}

#[test]
fn test_from_kml_element() {
    let kml = KmlElement::Placemark {
        name: Some("test_files/sunrise.jpg".to_string()),
        geometry: Some(KmlGeometry::Point {
            x: 12_345_000_000,
            y: 45_678_900_000,
            z: Some(46_790_000_000),
        }),
    };
    let fl = FileLocation::from_kml_element(&kml).unwrap();
    assert_eq!(fl.file, "test_files/sunrise.jpg");
    assert_eq!(fl.latitude, 45_678_900_000);
    assert_eq!(fl.longitude, 12_345_000_000);
    assert_eq!(fl.altitude, Some(46_790_000_000));
    assert_eq!(fl.direction, None);
    assert_eq!(fl.thumbnail, None);
    assert_eq!(fl.timestamp, None);
}

#[test]
fn kml_element_other_geometry_is_refused() {
    let kml = KmlElement::Placemark { name: Some("a.jpg".to_string()), geometry: Some(KmlGeometry::Other) };
    assert!(FileLocation::from_kml_element(&kml).is_none());
    assert!(FileLocation::from_kml_element(&KmlElement::Other).is_none());
}

#[test]
fn test_as_kml() {
    let fl = sunrise();
    let kml = fl.as_kml();
    assert_eq!(kml, "<Placemark><name>test_files/sunrise.jpg</name><Point><coordinates>12.345,45.6789,46.79</coordinates></Point><TimeStamp><when>2025:03:06T05:41:42</when></TimeStamp></Placemark>");
}

#[test]
fn as_kml_escapes_name_and_zero_altitude() {
    let fl = FileLocation {
        file: "a&b<'\">.jpg".to_string(),
        latitude: -500_000_000,
        longitude: 3_000_000_000,
        altitude: None,
        direction: None,
        thumbnail: None,
        timestamp: None,
    };
    assert_eq!(
        fl.as_kml(),
        "<Placemark><name>a&amp;b&lt;&apos;&quot;&gt;.jpg</name><Point><coordinates>3,-0.5,0</coordinates></Point></Placemark>"
    );
}

#[test]
fn test_as_geojson() {
    let mut fl = sunrise();
    fl.thumbnail = Some("base64".to_string());
    let geojson = fl.as_geojson();
    let expected = r#"{"geometry":{"coordinates":[12.345,45.6789],"type":"Point"},"properties":{"altitude":46.79,"direction":11.0,"name":"test_files/sunrise.jpg","thumbnail":"base64","timestamp":"2025:03:06 05:41:42"},"type":"Feature"}"#;
    assert_eq!(geojson, expected);
}

#[test]
fn as_geojson_omits_absent_fields_and_escapes_name() {
    let fl = FileLocation {
        file: "say \"hi\".jpg".to_string(),
        latitude: 1_500_000_000,
        longitude: -2_000_000_000,
        altitude: None,
        direction: None,
        thumbnail: None,
        timestamp: None,
    };
    assert_eq!(
        fl.as_geojson(),
        r#"{"geometry":{"coordinates":[-2.0,1.5],"type":"Point"},"properties":{"name":"say \"hi\".jpg"},"type":"Feature"}"#
    );
}

#[test]
fn hemisphere_gives_sign() {
    let parts = vec![r(45, 1), r(30, 1), r(204, 10)];
    assert_eq!(coordinate_from_parts(&parts, 'N', Axis::Latitude), Some(45_505_666_666));
    assert_eq!(coordinate_from_parts(&parts, 'S', Axis::Latitude), Some(-45_505_666_666));
    assert_eq!(coordinate_from_parts(&parts, 'E', Axis::Longitude), Some(45_505_666_666));
    assert_eq!(coordinate_from_parts(&parts, 'W', Axis::Longitude), Some(-45_505_666_666));
}

#[test]
fn coordinate_failures() {
    let parts = vec![r(45, 1), r(30, 1), r(204, 10)];
    assert_eq!(coordinate_from_parts(&parts, 'E', Axis::Latitude), None);
    assert_eq!(coordinate_from_parts(&parts, 'X', Axis::Longitude), None);
    assert_eq!(coordinate_from_parts(&vec![r(45, 1), r(30, 1)], 'N', Axis::Latitude), None);
    assert_eq!(coordinate_from_parts(&vec![r(45, 0), r(30, 1), r(0, 1)], 'N', Axis::Latitude), None);
    assert_eq!(coordinate_from_parts(&vec![r(91, 1), r(0, 1), r(0, 1)], 'N', Axis::Latitude), None);
    assert_eq!(
        coordinate_from_parts(&vec![r(91, 1), r(0, 1), r(0, 1)], 'E', Axis::Longitude),
        Some(91_000_000_000)
    );
    assert_eq!(rational_nanos(r(4679, 100)), Some(46_790_000_000));
    assert_eq!(rational_nanos(r(1, 0)), None);
}

fn exif(lat_ref: &str) -> ExifFields {
    ExifFields {
        latitude: Some(TagValue::Rational(vec![r(45, 1), r(30, 1), r(204, 10)])),
        latitude_ref: Some(TagValue::Ascii(vec![lat_ref.as_bytes().to_vec()])),
        longitude: Some(TagValue::Rational(vec![r(12, 1), r(20, 1), r(2818, 100)])),
        longitude_ref: Some(TagValue::Ascii(vec![b"E".to_vec()])),
        altitude: Some(TagValue::Rational(vec![r(4679, 100)])),
        direction: None,
        date_time_original: Some(TagValue::Ascii(vec![b"2025:03:06 05:41:42".to_vec()])),
    }
}

#[test]
fn from_exif_reads_fields() {
    let fl = FileLocation::from_exif("x.jpg", &exif("S")).unwrap();
    assert_eq!(fl.file, "x.jpg");
    assert_eq!(fl.latitude, -45_505_666_666);
    assert_eq!(fl.longitude, 12_341_161_111);
    assert_eq!(fl.altitude, Some(46_790_000_000));
    assert_eq!(fl.direction, None);
    assert_eq!(fl.thumbnail, None);
    assert_eq!(fl.timestamp, Some("2025:03:06 05:41:42".to_string()));
}

#[test]
fn from_exif_without_reference_letter_is_none() {
    let mut e = exif("N");
    e.longitude_ref = None;
    assert!(FileLocation::from_exif("x.jpg", &e).is_none());
    let mut e = exif("N");
    e.altitude = Some(TagValue::Other);
    assert_eq!(FileLocation::from_exif("x.jpg", &e).unwrap().altitude, None);
}

#[test]
fn timestamps_parse_to_seconds() {
    let fl = sunrise();
    let t = fl.timestamp_parsed().unwrap();
    assert_eq!(t, 1741239702);
    let day = midnight_of("2025-03-06").unwrap();
    assert_eq!(t - day, 5 * 3600 + 41 * 60 + 42);
    assert_eq!(midnight_of("2025/03/06"), None);
    let mut bad = sunrise();
    bad.timestamp = Some("yesterday".to_string());
    assert_eq!(bad.timestamp_parsed(), None);
}

#[test]
fn thumbnail_is_set_once() {
    let mut fl = sunrise();
    assert!(fl.needs_thumbnail());
    fl.generate_missing_thumbnail(&Some(vec![0u8, 1, 2]));
    assert_eq!(fl.thumbnail, Some("AAEC".to_string()));
    fl.generate_missing_thumbnail(&Some(vec![9u8, 9, 9, 9]));
    assert_eq!(fl.thumbnail, Some("AAEC".to_string()));
    assert!(!fl.needs_thumbnail());
    let mut other = sunrise();
    other.generate_missing_thumbnail(&None);
    assert_eq!(other.thumbnail, None);
    other.generate_missing_thumbnail(&Some(vec![255u8]));
    assert_eq!(other.thumbnail, Some("/w".to_string()));
}

#[test]
fn coordinate_sum_is_rounded_once() {
    let third = vec![r(1, 3), r(1, 3), r(1, 3)];
    assert_eq!(coordinate_from_parts(&third, 'N', Axis::Latitude), Some(338_981_481));
    assert_eq!(coordinate_from_parts(&third, 'W', Axis::Longitude), Some(-338_981_481));
    let edge = vec![r(89, 1), r(59, 1), r(3600, 60)];
    assert_eq!(coordinate_from_parts(&edge, 'S', Axis::Latitude), Some(-90_000_000_000));
    let over = vec![r(89, 1), r(59, 1), r(3601, 60)];
    assert_eq!(coordinate_from_parts(&over, 'S', Axis::Latitude), None);
    let huge = vec![r(u32::MAX, 1), r(u32::MAX, 1), r(u32::MAX, 1)];
    assert_eq!(coordinate_from_parts(&huge, 'E', Axis::Longitude), None);
    let tiny = vec![r(1, u32::MAX), r(1, u32::MAX), r(1, u32::MAX)];
    assert_eq!(coordinate_from_parts(&tiny, 'N', Axis::Latitude), Some(0));
}

#[test]
fn geojson_escapes_control_characters() {
    let mut fl = sunrise();
    fl.file = "a\\b\u{1}\n".to_string();
    fl.altitude = None;
    fl.direction = None;
    fl.timestamp = None;
    fl.thumbnail = Some("TWFu".to_string());
    assert_eq!(
        fl.as_geojson(),
        r#"{"geometry":{"coordinates":[12.345,45.6789],"type":"Point"},"properties":{"name":"a\\b\u0001\n","thumbnail":"TWFu"},"type":"Feature"}"#
    );
}

#[test]
fn thumbnail_encodes_three_byte_groups() {
    let mut fl = sunrise();
    fl.generate_missing_thumbnail(&Some(b"Man".to_vec()));
    assert_eq!(fl.thumbnail, Some("TWFu".to_string()));
    let mut fl = sunrise();
    fl.generate_missing_thumbnail(&Some(b"Ma".to_vec()));
    assert_eq!(fl.thumbnail, Some("TWE".to_string()));
}
