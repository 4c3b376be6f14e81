use ftool::geo::{detect_kind, value_to_display, FileKind, JsonInspector};
use ftool::parse::parse_document;
use ftool::tree::JsonValue;

fn geo_doc() -> JsonValue {
    parse_document(
        "{\"type\": \"FeatureCollection\", \"features\": [\
           {\"geometry\": {\"type\": \"Point\", \"coordinates\": [102.0, 0.0]},\
            \"properties\": {\"name\": \"a\", \"pop\": 10}},\
           {\"geometry\": {\"type\": \"LineString\",\
            \"coordinates\": [[102.0, 0.0], [103.0, 1.0]]},\
            \"properties\": {\"name\": \"b\", \"kind\": \"road\"}}\
         ]}",
    )
    .unwrap()
}

#[test]
fn kind_detection_by_extension_and_content() {
    let plain = parse_document("{\"a\": 1}").unwrap();
    assert_eq!(detect_kind("d.geojson", &plain), FileKind::GeoJson);
    assert_eq!(detect_kind("d.json", &plain), FileKind::Json);
    let fc = parse_document("{\"type\": \"FeatureCollection\"}").unwrap();
    assert_eq!(detect_kind("d.json", &fc), FileKind::GeoJson);
    let feat = parse_document("{\"type\": \"Feature\"}").unwrap();
    assert_eq!(detect_kind("d.json", &feat), FileKind::GeoJson);
    let other = parse_document("{\"type\": \"Other\"}").unwrap();
    assert_eq!(detect_kind("d.json", &other), FileKind::Json);
}

#[test]
fn summary_counts_features_and_sorts_types() {
    let inspector = JsonInspector::from_parts(geo_doc(), FileKind::GeoJson);
    let (count, types, _) = inspector.geojson_summary();
    assert_eq!(count, 2);
    assert_eq!(types, vec!["LineString".to_owned(), "Point".to_owned()]);
}

#[test]
fn bounding_box_over_the_collected_coordinates() {
    let inspector = JsonInspector::from_parts(geo_doc(), FileKind::GeoJson);
    let (_, _, coords) = inspector.geojson_summary();
    // the single point, then the two line vertices
    assert_eq!(coords.len(), 3);
    assert_eq!(coords[1], ("102.0".to_owned(), "0.0".to_owned()));
    assert_eq!(coords[2], ("103.0".to_owned(), "1.0".to_owned()));
    // folding the texts as the renderer does yields the bounding box
    let mut min_lon = f64::MAX;
    let mut min_lat = f64::MAX;
    let mut max_lon = f64::MIN;
    let mut max_lat = f64::MIN;
    for (lon, lat) in &coords {
        let lon: f64 = lon.parse().unwrap();
        let lat: f64 = lat.parse().unwrap();
        if lon < min_lon {
            min_lon = lon;
        }
        if lat < min_lat {
            min_lat = lat;
        }
        if lon > max_lon {
            max_lon = lon;
        }
        if lat > max_lat {
            max_lat = lat;
        }
    }
    assert_eq!((min_lon, min_lat), (102.0, 0.0));
    assert_eq!((max_lon, max_lat), (103.0, 1.0));
}

#[test]
fn no_coordinates_means_no_bounding_box() {
    let doc = parse_document(
        "{\"type\": \"FeatureCollection\", \"features\": [{\"properties\": {\"a\": 1}}]}",
    )
    .unwrap();
    let inspector = JsonInspector::from_parts(doc, FileKind::GeoJson);
    let (count, types, coords) = inspector.geojson_summary();
    assert_eq!(count, 1);
    assert!(types.is_empty());
    // an empty coordinate list is the "no bounding box" case
    assert!(coords.is_empty());
}

#[test]
fn document_without_features_summarizes_empty() {
    let doc = parse_document("{\"type\": \"Feature\"}").unwrap();
    let inspector = JsonInspector::from_parts(doc, FileKind::GeoJson);
    let (count, types, coords) = inspector.geojson_summary();
    assert_eq!(count, 0);
    assert!(types.is_empty());
    assert!(coords.is_empty());
}

#[test]
fn feature_table_unions_keys_in_first_seen_order() {
    let inspector = JsonInspector::from_parts(geo_doc(), FileKind::GeoJson);
    let (headers, rows) = inspector.features_table();
    // serde_json sorts each feature's own keys; the union keeps first-seen order
    assert_eq!(headers, vec!["name".to_owned(), "pop".to_owned(), "kind".to_owned()]);
    assert_eq!(rows.len(), 2);
    assert_eq!(rows[0], vec!["a".to_owned(), "10".to_owned(), "null".to_owned()]);
    assert_eq!(rows[1], vec!["b".to_owned(), "null".to_owned(), "road".to_owned()]);
}

#[test]
fn display_texts_for_property_values() {
    assert_eq!(value_to_display(&JsonValue::Null), "null");
    assert_eq!(value_to_display(&JsonValue::Bool(true)), "true");
    assert_eq!(value_to_display(&JsonValue::Num("2.5".to_owned())), "2.5");
    assert_eq!(value_to_display(&JsonValue::Str("hi".to_owned())), "hi");
    assert_eq!(
        value_to_display(&JsonValue::Arr(vec![JsonValue::Null, JsonValue::Null])),
        "[2]"
    );
    assert_eq!(
        value_to_display(&JsonValue::Obj(vec![("k".to_owned(), JsonValue::Null)])),
        "{1}"
    );
}
