use loco_lh_alignment::geometry::{
    shift_lh_geometry, shift_lh_geometry_yaml, GeometryError, GeometryFault,
};
use loco_lh_alignment::stats::XyzValue;
use serde_yaml::{Number, Value};

const SHIFT: XyzValue<f32> = XyzValue { x: 1.0, y: -2.0, z: 0.5 };

fn plus(value: &Value, delta: f32) -> Number {
    Number::from(value.as_f64().unwrap() + delta as f64)
}

fn parse(text: &str) -> Value {
    serde_yaml::from_str(text).unwrap()
}

fn shifted(text: &str) -> Value {
    parse(&shift_lh_geometry_yaml(text, SHIFT, &plus).unwrap())
}

fn fault(text: &str) -> GeometryFault {
    match shift_lh_geometry_yaml(text, SHIFT, &plus) {
        Err(GeometryError::Fault(fault)) => fault,
        _ => panic!("a fault was expected"),
    }
}

const GEOMETRY: &str = "
type: lighthouse_system_configuration
geos:
  0:
    origin: [1.0, 2.0, 3.0]
    rotation: [[1.0, 0.0, 0.0], [0.0, 1.0, 0.0], [0.0, 0.0, 1.0]]
  1:
    rotation: [[0.0, 1.0, 0.0], [1.0, 0.0, 0.0], [0.0, 0.0, 1.0]]
    origin: [-1.5, 0, 7]
calibs:
  0:
    origin: [9.0, 9.0, 9.0]
    uid: 1234
";

#[test]
fn origins_move_and_the_rest_stays() {
    let before = parse(GEOMETRY);
    let after = shifted(GEOMETRY);
    assert_eq!(after["geos"][0]["origin"], parse("[2.0, 0.0, 3.5]"));
    assert_eq!(after["geos"][1]["origin"], parse("[-0.5, -2.0, 7.5]"));
    assert_eq!(after["geos"][0]["rotation"], before["geos"][0]["rotation"]);
    assert_eq!(after["geos"][1]["rotation"], before["geos"][1]["rotation"]);
    assert_eq!(after["calibs"], before["calibs"]);
    assert_eq!(after["type"], before["type"]);
}

#[test]
fn sections_and_stations_keep_their_order() {
    let after = shifted(GEOMETRY);
    let keys: Vec<&str> =
        after.as_mapping().unwrap().keys().map(|k| k.as_str().unwrap()).collect();
    assert_eq!(keys, vec!["type", "geos", "calibs"]);
    let ids: Vec<u64> =
        after["geos"].as_mapping().unwrap().keys().map(|k| k.as_u64().unwrap()).collect();
    assert_eq!(ids, vec![0, 1]);
    let fields: Vec<&str> = after["geos"][1]
        .as_mapping()
        .unwrap()
        .keys()
        .map(|k| k.as_str().unwrap())
        .collect();
    assert_eq!(fields, vec!["rotation", "origin"]);
}

#[test]
fn a_shifted_geometry_can_be_shifted_again() {
    let once = shift_lh_geometry_yaml(GEOMETRY, SHIFT, &plus).unwrap();
    assert_eq!(shifted(&once)["geos"][0]["origin"], parse("[3.0, -2.0, 4.0]"));
}

#[test]
fn further_and_missing_axes() {
    let after = shifted("geos: {0: {origin: [1, 2, 3, nine]}, 1: {origin: [1]}, 2: {origin: []}}");
    assert_eq!(after["geos"][0]["origin"], parse("[2.0, 0.0, 3.5, nine]"));
    assert_eq!(after["geos"][1]["origin"], parse("[2.0]"));
    assert_eq!(after["geos"][2]["origin"], parse("[]"));
}

#[test]
fn no_stations_is_no_fault() {
    assert_eq!(shifted("geos: {}"), parse("geos: {}"));
}

#[test]
fn tags_are_looked_through() {
    let after = shifted("geos: !a {0: !b {origin: !c [!d 1.0, 2.0, 3.0]}}");
    let plain = parse("geos: !a {0: !b {origin: !c [2.0, 0.0, 3.5]}}");
    assert_eq!(after, plain);
}

#[test]
fn text_that_is_no_yaml() {
    assert!(matches!(
        shift_lh_geometry_yaml("geos: [", SHIFT, &plus),
        Err(GeometryError::Yaml(_))
    ));
}

#[test]
fn documents_without_geos() {
    for text in ["{}", "[1, 2]", "3", "calibs: {}", "\"geos\"", "{1: {geos: {}}}", ""] {
        assert_eq!(fault(text), GeometryFault::NoGeos);
    }
    assert_eq!(
        GeometryFault::NoGeos.message(),
        "YAML has no 'geos' section — expected a Lighthouse base station geometry file"
    );
}

#[test]
fn geos_must_be_a_mapping() {
    for text in ["geos: 3", "geos: [1]", "geos:"] {
        assert_eq!(fault(text), GeometryFault::GeosNotMapping);
    }
    assert_eq!(GeometryFault::GeosNotMapping.message(), "'geos' is not a mapping");
}

#[test]
fn stations_need_an_origin_sequence() {
    for text in ["geos: {0: {}}", "geos: {0: {origin: 3}}", "geos: {0: 7}"] {
        assert_eq!(fault(text), GeometryFault::MissingOrigin);
    }
    assert_eq!(
        GeometryFault::MissingOrigin.message(),
        "a base station entry is missing 'origin'"
    );
}

#[test]
fn origins_need_numbers() {
    for text in ["geos: {0: {origin: [1, two, 3]}}", "geos: {0: {origin: [1, 2, null]}}"] {
        assert_eq!(fault(text), GeometryFault::OriginNotNumber);
    }
    assert_eq!(
        GeometryFault::OriginNotNumber.message(),
        "an 'origin' value is not a number"
    );
}

#[test]
fn the_first_faulty_station_counts() {
    assert_eq!(
        fault("geos: {0: {origin: [1]}, 1: {origin: [x]}, 2: {}}"),
        GeometryFault::OriginNotNumber
    );
    assert_eq!(
        fault("geos: {0: {origin: [1]}, 1: {}, 2: {origin: [x]}}"),
        GeometryFault::MissingOrigin
    );
}

#[test]
fn documents_are_shifted_in_place() {
    let mut document = parse("geos: {5: {origin: [0.0, 0.0, 0.0]}}");
    assert_eq!(shift_lh_geometry(&mut document, SHIFT, &plus), Ok(()));
    assert_eq!(document["geos"][5]["origin"], parse("[1.0, -2.0, 0.5]"));
    assert_eq!(shift_lh_geometry(&mut Value::Null, SHIFT, &plus), Err(GeometryFault::NoGeos));
}
