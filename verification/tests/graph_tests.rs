use tour_editor::coords::Coordinates;
use tour_editor::graph::{Connection, ConnectionPatch, ConnectionType, TourGraph};

fn pos(x: f32, y: f32) -> Coordinates {
    Coordinates { x_bits: x.to_bits(), y_bits: y.to_bits() }
}

fn transition(id: i32, target: i32, x: f32, y: f32) -> Connection {
    Connection {
        id,
        connection_type: ConnectionType::Transition,
        target_scene_id: target,
        position: pos(x, y),
        name: None,
        icon_index: None,
    }
}

/// Index consistency: after a mixed sequence of insertions and removals,
/// every lookup through the indices resolves to the entity at its true
/// position.
#[test]
fn index_consistency_under_mutations() {
    let mut g = TourGraph::new();
    assert!(g.insert_scene(1, "A".to_string(), "a.jpg".to_string()));
    assert!(g.insert_scene(2, "B".to_string(), "b.jpg".to_string()));
    assert!(g.insert_scene(3, "C".to_string(), "c.jpg".to_string()));
    assert!(g.insert_connection(1, transition(10, 2, 0.0, 0.0)));
    assert!(g.insert_connection(1, transition(11, 3, 1.0, 1.0)));
    assert!(g.insert_connection(2, transition(12, 1, 2.0, 2.0)));
    assert!(g.insert_connection(3, transition(13, 1, 3.0, 3.0)));

    // every id resolves, at the stated offset
    for (cid, owner, target) in [(10, 1, 2), (11, 1, 3), (12, 2, 1), (13, 3, 1)] {
        let c = g.find_connection(cid).expect("connection should be indexed");
        assert_eq!(c.id, cid);
        assert_eq!(c.target_scene_id, target);
        let owner_scene = g.find_scene(owner).expect("owner scene should be indexed");
        assert!(owner_scene.connections.iter().any(|k| k.id == cid));
    }

    // remove one connection in the middle of scene 1's list: positions shift
    assert!(g.remove_connection(10));
    assert!(g.find_connection(10).is_none());
    let c11 = g.find_connection(11).expect("surviving connection still indexed");
    assert_eq!(c11.target_scene_id, 3);
    let s1 = g.find_scene(1).unwrap();
    assert_eq!(s1.connections.len(), 1);
    assert_eq!(s1.connections[0].id, 11);

    // remove a scene: the whole index is re-derived
    let removed = g.remove_scene(2).expect("scene 2 exists");
    assert_eq!(removed, vec![12]);
    assert!(g.find_scene(2).is_none());
    assert!(g.find_connection(12).is_none());
    let c13 = g.find_connection(13).expect("unrelated connection kept");
    assert_eq!(c13.id, 13);
}

/// Cascade completeness: deleting a scene removes what it owned and every
/// connection elsewhere that targeted it, in removal order.
#[test]
fn cascade_removes_both_directions() {
    let mut g = TourGraph::new();
    for id in 1..=3 {
        assert!(g.insert_scene(id, format!("S{id}"), format!("s{id}.jpg")));
    }
    assert!(g.insert_connection(2, transition(20, 1, 0.0, 0.0))); // owned by 2
    assert!(g.insert_connection(2, transition(21, 3, 0.0, 0.0))); // owned by 2
    assert!(g.insert_connection(1, transition(22, 2, 0.0, 0.0))); // targets 2
    assert!(g.insert_connection(3, transition(23, 2, 0.0, 0.0))); // targets 2
    assert!(g.insert_connection(3, transition(24, 1, 0.0, 0.0))); // unrelated

    let removed = g.remove_scene(2).expect("scene 2 exists");
    // owned first (in list order), then the incoming ones scene by scene
    assert_eq!(removed, vec![20, 21, 22, 23]);

    // no dangling reference remains
    for scene in g.scenes() {
        assert_ne!(scene.id, 2);
        for c in &scene.connections {
            assert_ne!(c.target_scene_id, 2);
        }
    }
    assert_eq!(g.find_scene(3).unwrap().connections.len(), 1);
    assert!(g.find_connection(24).is_some());
}

/// Initial-scene invariant: deleting the pointed-at scene repoints to a
/// remaining scene, or clears the pointer when none remain.
#[test]
fn initial_scene_repair() {
    let mut g = TourGraph::new();
    assert!(g.insert_scene(1, "A".to_string(), "a.jpg".to_string()));
    assert!(g.insert_scene(2, "B".to_string(), "b.jpg".to_string()));
    // the first scene became the initial scene
    assert_eq!(g.current_scene_id(), Some(1));

    g.remove_scene(1).expect("scene 1 exists");
    // repointed to an existing scene
    assert_eq!(g.current_scene_id(), Some(2));

    g.remove_scene(2).expect("scene 2 exists");
    // no scene remains: cleared
    assert_eq!(g.current_scene_id(), None);
}

#[test]
fn set_current_scene_rejects_unknown() {
    let mut g = TourGraph::new();
    assert!(g.insert_scene(1, "A".to_string(), "a.jpg".to_string()));
    assert!(!g.set_current_scene(99));
    assert_eq!(g.current_scene_id(), Some(1));
    assert!(g.insert_scene(2, "B".to_string(), "b.jpg".to_string()));
    assert!(g.set_current_scene(2));
    assert_eq!(g.current_scene_id(), Some(2));
}

#[test]
fn insert_scene_rejects_duplicate_id() {
    let mut g = TourGraph::new();
    assert!(g.insert_scene(5, "A".to_string(), "a.jpg".to_string()));
    assert!(!g.insert_scene(5, "B".to_string(), "b.jpg".to_string()));
    assert_eq!(g.scene_count(), 1);
    assert_eq!(g.find_scene(5).unwrap().name, "A");
}

#[test]
fn insert_connection_rejections() {
    let mut g = TourGraph::new();
    assert!(g.insert_scene(1, "A".to_string(), "a.jpg".to_string()));
    // unknown owner
    assert!(!g.insert_connection(9, transition(30, 1, 0.0, 0.0)));
    // duplicate non-zero id
    assert!(g.insert_connection(1, transition(30, 1, 0.0, 0.0)));
    assert!(!g.insert_connection(1, transition(30, 1, 0.0, 0.0)));
    // sentinel id 0 is stored but never indexed
    assert!(g.insert_connection(1, transition(0, 1, 0.0, 0.0)));
    assert!(g.insert_connection(1, transition(0, 1, 0.0, 0.0)));
    assert!(g.find_connection(0).is_none());
    assert_eq!(g.find_scene(1).unwrap().connections.len(), 3);
}

#[test]
fn mutate_connection_partial_update() {
    let mut g = TourGraph::new();
    assert!(g.insert_scene(1, "A".to_string(), "a.jpg".to_string()));
    let mut c = transition(40, 1, 1.5, -2.5);
    c.name = Some("door".to_string());
    c.icon_index = Some(3);
    assert!(g.insert_connection(1, c));

    // only supplied fields change; target and position always change
    assert!(g.mutate_connection(40, ConnectionPatch {
        new_target_id: 7,
        new_position: pos(9.0, 9.0),
        new_name: None,
        new_icon_index: None,
    }));
    let c = g.find_connection(40).unwrap();
    assert_eq!(c.target_scene_id, 7);
    assert_eq!(c.position, pos(9.0, 9.0));
    assert_eq!(c.name.as_deref(), Some("door"));
    assert_eq!(c.icon_index, Some(3));

    assert!(g.mutate_connection(40, ConnectionPatch {
        new_target_id: 7,
        new_position: pos(9.0, 9.0),
        new_name: Some("gate".to_string()),
        new_icon_index: Some(8),
    }));
    let c = g.find_connection(40).unwrap();
    assert_eq!(c.name.as_deref(), Some("gate"));
    assert_eq!(c.icon_index, Some(8));

    // unknown id: rejected, untouched
    assert!(!g.mutate_connection(41, ConnectionPatch {
        new_target_id: 0,
        new_position: pos(0.0, 0.0),
        new_name: None,
        new_icon_index: None,
    }));
}

#[test]
fn scene_field_setters() {
    let mut g = TourGraph::new();
    assert!(g.insert_scene(1, "A".to_string(), "a.jpg".to_string()));
    assert!(g.set_scene_name(1, "Atrium".to_string()));
    assert!(g.set_scene_file_path(1, "atrium.jpg".to_string()));
    assert!(g.set_initial_view(1, pos(12.5, -3.0)));
    assert!(g.set_north_direction(1, (90.0f32).to_bits()));
    let s = g.find_scene(1).unwrap();
    assert_eq!(s.name, "Atrium");
    assert_eq!(s.file_path, "atrium.jpg");
    assert_eq!(s.initial_view, Some(pos(12.5, -3.0)));
    assert_eq!(s.north_direction, Some((90.0f32).to_bits()));
    // unknown ids are rejected
    assert!(!g.set_scene_name(2, "X".to_string()));
    assert!(!g.set_scene_file_path(2, "x.jpg".to_string()));
    assert!(!g.set_initial_view(2, pos(0.0, 0.0)));
    assert!(!g.set_north_direction(2, 0));
}

/// Positions round-trip exactly as the client's 32-bit values.
#[test]
fn coordinates_round_trip_bits() {
    let p = pos(10.25, -5.75);
    assert_eq!(f32::from_bits(p.x_bits), 10.25);
    assert_eq!(f32::from_bits(p.y_bits), -5.75);
}
