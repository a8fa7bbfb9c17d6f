use tour_editor::coords::Coordinates;
use tour_editor::graph::ConnectionType;
use tour_editor::snapshot::{from_snapshot, kind_for_tag, ConnectionRecord, SceneRecord};

fn scene_record(id: i32, name: &str, path: &str, conns: Vec<ConnectionRecord>) -> SceneRecord {
    SceneRecord {
        id: Some(id),
        name: Some(name.to_string()),
        file_path: Some(path.to_string()),
        initial_view_x: None,
        initial_view_y: None,
        north_dir: None,
        connections: conns,
    }
}

fn conn_record(id: i32, target: Option<i32>, tag: Option<&str>) -> ConnectionRecord {
    ConnectionRecord {
        id: Some(id),
        target_scene_id: target,
        position: Some(Coordinates { x_bits: (1.0f32).to_bits(), y_bits: (2.0f32).to_bits() }),
        name: None,
        connection_type: tag.map(|t| t.to_string()),
        icon_index: None,
    }
}

#[test]
fn loads_scenes_and_connections() {
    let records = vec![
        scene_record(1, "Lobby", "a.jpg", vec![
            conn_record(10, Some(2), Some("Transition")),
            conn_record(11, Some(5), Some("Closeup")),
        ]),
        scene_record(2, "Hall", "b.jpg", vec![]),
    ];
    let g = from_snapshot(records, Some(1));
    assert_eq!(g.scene_count(), 2);
    assert_eq!(g.current_scene_id(), Some(1));
    let c10 = g.find_connection(10).expect("transition loaded and indexed");
    assert_eq!(c10.connection_type, ConnectionType::Transition);
    assert_eq!(c10.target_scene_id, 2);
    let c11 = g.find_connection(11).expect("closeup loaded and indexed");
    assert_eq!(c11.connection_type, ConnectionType::Closeup);
    assert_eq!(c11.target_scene_id, 5);
}

#[test]
fn missing_fields_get_defaults() {
    let records = vec![SceneRecord {
        id: None,
        name: None,
        file_path: None,
        initial_view_x: Some((3.0f32).to_bits()),
        initial_view_y: None,
        north_dir: Some((90.0f32).to_bits()),
        connections: vec![
            // no target: dropped entirely
            conn_record(12, None, None),
            // no id: stored with the sentinel, not indexed
            ConnectionRecord {
                id: None,
                target_scene_id: Some(4),
                position: None,
                name: None,
                connection_type: None,
                icon_index: None,
            },
        ],
    }];
    let g = from_snapshot(records, None);
    assert_eq!(g.scene_count(), 1);
    assert_eq!(g.current_scene_id(), None);
    let s = g.find_scene(0).expect("missing id defaults to 0");
    assert_eq!(s.name, "");
    assert_eq!(s.file_path, "");
    // initial view needs both coordinates
    assert_eq!(s.initial_view, None);
    assert_eq!(s.north_direction, Some((90.0f32).to_bits()));
    // the targetless record was dropped, the idless one kept unindexed
    assert_eq!(s.connections.len(), 1);
    assert_eq!(s.connections[0].id, 0);
    assert_eq!(s.connections[0].target_scene_id, 4);
    assert!(g.find_connection(0).is_none());
}

#[test]
fn stored_initial_scene_must_exist() {
    let records = vec![scene_record(1, "A", "a.jpg", vec![])];
    let g = from_snapshot(records, Some(9));
    // the stored pointer names no loaded scene: cleared, never dangling
    assert_eq!(g.current_scene_id(), None);
}

#[test]
fn tag_matching_is_ascii_case_insensitive() {
    assert_eq!(kind_for_tag(&Some("closeup".to_string())), ConnectionType::Closeup);
    assert_eq!(kind_for_tag(&Some("Closeup".to_string())), ConnectionType::Closeup);
    assert_eq!(kind_for_tag(&Some("CLOSEUP".to_string())), ConnectionType::Closeup);
    assert_eq!(kind_for_tag(&Some("cLoSeUp".to_string())), ConnectionType::Closeup);
    assert_eq!(kind_for_tag(&Some("Transition".to_string())), ConnectionType::Transition);
    assert_eq!(kind_for_tag(&Some("closeups".to_string())), ConnectionType::Transition);
    assert_eq!(kind_for_tag(&Some("".to_string())), ConnectionType::Transition);
    assert_eq!(kind_for_tag(&None), ConnectionType::Transition);
}
