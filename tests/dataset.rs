use img_coords::dataset::{has_image_extension, in_window_at, FileSet, LoadError, OutputError};
use img_coords::document::{Json, KmlElement, KmlGeometry};
use img_coords::location::{midnight_of, FileLocation};

fn record(file: &str, timestamp: Option<&str>) -> FileLocation {
    FileLocation {
        file: file.to_string(),
        latitude: 1_000_000_000,
        longitude: 2_000_000_000,
        altitude: None,
        direction: None,
        thumbnail: None,
        timestamp: timestamp.map(|t| t.to_string()),
    }
}

fn names(fs: &FileSet) -> Vec<String> {
    fs.locations().iter().map(|l| l.file.clone()).collect()
}

fn strings(v: &[&str]) -> Vec<String> {
    v.iter().map(|s| s.to_string()).collect()
}

#[test]
fn existing_paths_are_not_extracted_again() {
    let mut fs = FileSet::default();
    fs.add_locations(vec![record("a.jpg", None)]);
    let todo = fs.candidates_to_extract(&strings(&["a.jpg", "b.jpg"]));
    assert_eq!(todo, strings(&["b.jpg"]));
}

#[test]
fn non_image_candidates_are_dropped() {
    let fs = FileSet::new();
    let todo = fs.candidates_to_extract(&strings(&["notes.txt", "x.JPEG", "y.Tif", "z.tiff", "w.png", "v.gif", "jpg", "u.jpg.bak"]));
    assert_eq!(todo, strings(&["x.JPEG", "y.Tif", "z.tiff", "w.png", "v.gif"]));
    assert!(!has_image_extension("notes.txt"));
    assert!(has_image_extension("IMG_1.JpG"));
}

#[test]
fn before_bound_keeps_earlier_records() {
    let mut fs = FileSet::default();
    fs.add_locations(vec![record("old.jpg", None)]);
    fs.set_before(midnight_of("2024-01-01").unwrap());
    fs.add_locations(vec![
        record("a.jpg", Some("2023:12:31 00:00:00")),
        record("b.jpg", Some("2024:01:02 00:00:00")),
        record("c.jpg", Some("not a time")),
        record("d.jpg", None),
        record("e.jpg", Some("2024:01:01 00:00:00")),
    ]);
    assert_eq!(names(&fs), strings(&["old.jpg", "a.jpg", "e.jpg"]));
}

#[test]
fn after_bound_keeps_later_records() {
    let mut fs = FileSet::default();
    fs.set_after(midnight_of("2024-01-01").unwrap());
    fs.add_locations(vec![
        record("a.jpg", Some("2023:12:31 23:59:59")),
        record("b.jpg", Some("2024:01:02 00:00:00")),
        record("c.jpg", None),
    ]);
    assert_eq!(names(&fs), strings(&["b.jpg"]));
}

#[test]
fn no_bounds_keep_everything_in_order() {
    let mut fs = FileSet::default();
    fs.add_locations(vec![record("a.jpg", None), record("b.jpg", Some("junk"))]);
    fs.add_locations(vec![record("c.jpg", None)]);
    assert_eq!(names(&fs), strings(&["a.jpg", "b.jpg", "c.jpg"]));
}

fn empty_collection() -> Json {
    Json::Object(vec![
        ("type".to_string(), Json::Text("FeatureCollection".to_string())),
        ("features".to_string(), Json::Array(vec![])),
    ])
}

#[test]
fn empty_geojson_collection_loads() {
    let mut fs = FileSet::default();
    assert_eq!(fs.load_from_geojson(&empty_collection()), Ok(()));
    assert!(fs.locations().is_empty());
    assert_eq!(fs.load_from_file(&Some(empty_collection()), &None), Ok(()));
}

#[test]
fn kml_without_placemarks_fails() {
    let mut fs = FileSet::default();
    assert_eq!(fs.load_from_kml(&Some(vec![KmlElement::Other])), Err(LoadError::NoKmlResults));
    assert_eq!(fs.load_from_kml(&None), Err(LoadError::NotKmlDocument));
    assert_eq!(fs.load_from_file(&None, &Some(vec![])), Err(LoadError::UnknownFormat));
}

#[test]
fn json_without_features_is_refused() {
    let mut fs = FileSet::default();
    assert_eq!(fs.load_from_geojson(&Json::Null), Err(LoadError::NotFeatureCollection));
}

#[test]
fn load_falls_back_to_kml() {
    let mut fs = FileSet::default();
    let placemark = KmlElement::Placemark {
        name: Some("k.jpg".to_string()),
        geometry: Some(KmlGeometry::Point { x: 5, y: 6, z: None }),
    };
    assert_eq!(fs.load_from_file(&Some(Json::Bool(true)), &Some(vec![KmlElement::Other, placemark])), Ok(()));
    assert_eq!(names(&fs), strings(&["k.jpg"]));
    assert_eq!(fs.locations()[0].latitude, 6);
    assert_eq!(fs.locations()[0].longitude, 5);
}

#[test]
fn unknown_output_format_is_reported() {
    let fs = FileSet::default();
    assert_eq!(fs.output(&Some("yaml".to_string())), Err(OutputError::UnknownFormat("yaml".to_string())));
}

#[test]
fn output_formats() {
    let mut fs = FileSet::default();
    fs.add_locations(vec![record("a.jpg", None), record("b.jpg", None)]);
    let g = fs.output(&None).unwrap();
    assert_eq!(
        g,
        "{\"type\": \"FeatureCollection\",\"features\": [\n{\"geometry\":{\"coordinates\":[2.0,1.0],\"type\":\"Point\"},\"properties\":{\"name\":\"a.jpg\"},\"type\":\"Feature\"}\n,{\"geometry\":{\"coordinates\":[2.0,1.0],\"type\":\"Point\"},\"properties\":{\"name\":\"b.jpg\"},\"type\":\"Feature\"}\n]}\n"
    );
    let k = fs.output(&Some(" KML ".to_string())).unwrap();
    assert_eq!(
        k,
        "<?xml version=\"1.0\" encoding=\"UTF-8\"?>\n<kml xmlns=\"http://www.opengis.net/kml/2.2\">\n<Document>\n<Placemark><name>a.jpg</name><Point><coordinates>2,1,0</coordinates></Point></Placemark>\n<Placemark><name>b.jpg</name><Point><coordinates>2,1,0</coordinates></Point></Placemark>\n</Document>\n</kml>\n"
    );
    assert_eq!(fs.output(&Some("GeoJSON".to_string())).unwrap(), g);
}

#[test]
fn thumbnail_pass_keeps_existing() {
    let mut fs = FileSet::default();
    let mut with = record("a.jpg", None);
    with.thumbnail = Some("old".to_string());
    fs.add_locations(vec![with, record("b.jpg", None)]);
    fs.generate_missing_thumbnails(&vec![Some(vec![1u8]), Some(vec![0u8, 1, 2])]);
    fs.generate_missing_thumbnails(&vec![Some(vec![1u8]), Some(vec![7u8])]);
    assert_eq!(fs.locations()[0].thumbnail, Some("old".to_string()));
    assert_eq!(fs.locations()[1].thumbnail, Some("AAEC".to_string()));
}

#[test]
fn window_on_given_instants() {
    let before = midnight_of("2024-01-01").unwrap();
    let dec31 = midnight_of("2023-12-31").unwrap();
    let jan2 = midnight_of("2024-01-02").unwrap();
    assert_eq!(before - dec31, 86400);
    assert!(in_window_at(Some(dec31), Some(before), None));
    assert!(!in_window_at(Some(jan2), Some(before), None));
    assert!(in_window_at(Some(before), Some(before), None));
    assert!(!in_window_at(None, Some(before), None));
    assert!(!in_window_at(None, None, Some(before)));
    assert!(in_window_at(None, None, None));
    assert!(in_window_at(Some(jan2), None, Some(before)));
    assert!(!in_window_at(Some(dec31), None, Some(before)));
    assert!(in_window_at(Some(5), Some(10), Some(5)));
    assert!(!in_window_at(Some(11), Some(10), Some(5)));
}

#[test]
fn collection_without_type_is_refused() {
    let mut fs = FileSet::default();
    let doc = Json::Object(vec![("features".to_string(), Json::Array(vec![]))]);
    assert_eq!(fs.load_from_geojson(&doc), Err(LoadError::NotFeatureCollection));
    let doc = Json::Object(vec![
        ("type".to_string(), Json::Text("Feature".to_string())),
        ("features".to_string(), Json::Array(vec![])),
    ]);
    assert_eq!(fs.load_from_geojson(&doc), Err(LoadError::NotFeatureCollection));
}

#[test]
fn render_by_exact_name() {
    let mut fs = FileSet::default();
    fs.add_locations(vec![record("a.jpg", None)]);
    assert_eq!(fs.render("yaml"), Err(OutputError::UnknownFormat("yaml".to_string())));
    assert_eq!(fs.render("KML"), Err(OutputError::UnknownFormat("KML".to_string())));
    assert_eq!(fs.render("kml").unwrap(), fs.output(&Some("kml".to_string())).unwrap());
    assert_eq!(fs.render("geojson").unwrap(), fs.output(&None).unwrap());
    assert_eq!(
        fs.output(&Some("\tYAML\n".to_string())),
        Err(OutputError::UnknownFormat("yaml".to_string()))
    );
}
