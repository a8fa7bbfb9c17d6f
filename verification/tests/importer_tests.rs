use tour_editor::importer::object_literal_span;
use tour_editor::tour::Tour;

#[test]
fn span_of_plain_assignment() {
    let text = b"const tourData = { \"name\": \"Sample\", \"scenes\": [] };".to_vec();
    let (a, b) = object_literal_span(&text).expect("braces present");
    assert_eq!(text[a], b'{');
    assert_eq!(text[b], b'}');
    let inner = std::str::from_utf8(&text[a..=b]).unwrap();
    assert!(inner.starts_with('{') && inner.ends_with('}'));
    assert!(inner.contains("\"Sample\""));
}

#[test]
fn span_takes_outermost_braces() {
    let text = b"x = { \"a\": { \"b\": 1 } };".to_vec();
    let (a, b) = object_literal_span(&text).expect("braces present");
    assert_eq!(a, 4);
    assert_eq!(b, 22);
}

#[test]
fn span_missing_braces() {
    assert!(object_literal_span(&b"no braces here".to_vec()).is_none());
    assert!(object_literal_span(&b"only open {".to_vec()).is_none());
    assert!(object_literal_span(&b"} wrong order {".to_vec()).is_none());
    assert!(object_literal_span(&Vec::new()).is_none());
}

#[test]
fn tour_metadata_round_trip() {
    let mut tour = Tour::new(
        3,
        "Museum".to_string(),
        "2024-01-01".to_string(),
        "2024-02-02".to_string(),
        12,
        "Old Town".to_string(),
        false,
        None,
    );
    assert_eq!(tour.get_id(), 3);
    assert_eq!(tour.name, "Museum");
    assert_eq!(tour.initial_scene_id, 12);
    tour.set_id(44);
    assert_eq!(tour.get_id(), 44);
    assert_eq!(tour.name, "Museum");
    assert_eq!(tour.location, "Old Town");
}
