use tour_editor::coords::Coordinates;
use tour_editor::editor::{
    CommandStep, EditorAction, EditorEvent, EditorState, GatewayCall, GatewayReply,
};

fn pos(x: f32, y: f32) -> Coordinates {
    Coordinates { x_bits: x.to_bits(), y_bits: y.to_bits() }
}

/// Runs one action to completion against a simulated persistence gateway
/// that answers every call with the next reply from `replies`. Returns the
/// events, the calls the gateway saw, and the follow-up call if any.
fn run(
    state: &mut EditorState,
    action: EditorAction,
    mut replies: Vec<GatewayReply>,
) -> (Vec<EditorEvent>, Vec<GatewayCall>, Option<GatewayCall>) {
    let mut calls = Vec::new();
    let mut step = state.begin_action(action);
    loop {
        match step {
            CommandStep::Finished { events, follow_up } => return (events, calls, follow_up),
            CommandStep::Await { call, pending } => {
                calls.push(call);
                let reply = replies.remove(0);
                step = state.resume_action(pending, reply);
            }
        }
    }
}

fn graph_fingerprint(state: &EditorState) -> String {
    format!("{:?} {:?}", state.graph().scenes(), state.graph().current_scene_id())
}

/// The end-to-end editing scenario: two scenes, a connection, then the
/// target scene is deleted and the cascade is observable.
#[test]
fn scenario_add_connect_delete() {
    let mut state = EditorState::new(77, "amira".to_string());

    // AddScene("Lobby", "a.jpg") -> scene id 1, initial scene = 1
    let (events, calls, follow) = run(
        &mut state,
        EditorAction::AddScene { name: "Lobby".to_string(), file_path: "a.jpg".to_string() },
        vec![GatewayReply::Created { id: 1 }],
    );
    assert!(matches!(
        calls[0],
        GatewayCall::CreateScene { tour_id: 77, .. }
    ));
    assert!(matches!(
        events[..],
        [EditorEvent::SceneAdded { id: 1, .. }]
    ));
    // the first scene becomes the initial scene, and that is persisted
    assert!(matches!(
        follow,
        Some(GatewayCall::SetInitialScene { tour_id: 77, scene_id: 1 })
    ));
    assert_eq!(state.graph().current_scene_id(), Some(1));

    // AddScene("Hall", "b.jpg") -> scene id 2
    let (events, _, follow) = run(
        &mut state,
        EditorAction::AddScene { name: "Hall".to_string(), file_path: "b.jpg".to_string() },
        vec![GatewayReply::Created { id: 2 }],
    );
    assert!(matches!(events[..], [EditorEvent::SceneAdded { id: 2, .. }]));
    assert!(follow.is_none());
    assert_eq!(state.graph().current_scene_id(), Some(1));

    // AddConnection(1, 2, (10.0, -5.0), "to hall") -> connection 3 owned by 1
    let (events, calls, _) = run(
        &mut state,
        EditorAction::AddConnection {
            start_scene_id: 1,
            asset_id: 2,
            position: pos(10.0, -5.0),
            name: Some("to hall".to_string()),
        },
        vec![GatewayReply::Created { id: 3 }],
    );
    assert!(matches!(
        calls[0],
        GatewayCall::CreateConnection { start_scene_id: 1, target_id: 2, is_transition: true, .. }
    ));
    assert!(matches!(
        events[..],
        [EditorEvent::ConnectionAdded { connection_id: 3, start_scene: 1, target_scene: 2 }]
    ));
    let c = state.graph().find_connection(3).expect("connection indexed");
    assert_eq!(c.target_scene_id, 2);
    assert_eq!(c.name.as_deref(), Some("to hall"));

    // DeleteScene(2) -> scene_deleted{2} and connection_deleted{3}
    let (events, _, _) = run(
        &mut state,
        EditorAction::DeleteScene { scene_id: 2 },
        vec![GatewayReply::Done],
    );
    assert!(matches!(
        events[..],
        [
            EditorEvent::SceneDeleted { scene_id: 2 },
            EditorEvent::ConnectionDeleted { connection_id: 3 },
        ]
    ));
    let lobby = state.graph().find_scene(1).expect("Lobby remains");
    assert_eq!(lobby.connections.len(), 0);
    assert_eq!(state.graph().current_scene_id(), Some(1));
}

/// Idempotent no-op commands: an unknown-id command leaves the graph
/// byte-for-byte unchanged and yields exactly one error event.
#[test]
fn unknown_id_commands_are_noops() {
    let mut state = EditorState::new(1, "u".to_string());
    let (_, _, _) = run(
        &mut state,
        EditorAction::AddScene { name: "A".to_string(), file_path: "a.jpg".to_string() },
        vec![GatewayReply::Created { id: 1 }],
    );
    let before = graph_fingerprint(&state);

    // EditConnection on an id that was never created
    let (events, calls, follow) = run(
        &mut state,
        EditorAction::EditConnection {
            connection_id: 123,
            new_asset_id: 1,
            new_position: pos(0.0, 0.0),
            new_name: None,
            new_icon_type: None,
            new_file_path: None,
        },
        vec![],
    );
    assert!(calls.is_empty(), "no gateway call for an unknown id");
    assert!(follow.is_none());
    assert_eq!(events.len(), 1);
    assert!(matches!(&events[0], EditorEvent::Error { message } if message == "Connection not found."));
    assert_eq!(graph_fingerprint(&state), before);

    // DeleteScene on an unknown id
    let (events, calls, _) = run(
        &mut state,
        EditorAction::DeleteScene { scene_id: 9 },
        vec![],
    );
    assert!(calls.is_empty());
    assert_eq!(events.len(), 1);
    assert!(matches!(&events[0], EditorEvent::Error { message } if message == "Scene not found."));
    assert_eq!(graph_fingerprint(&state), before);

    // AddConnection from an unknown source
    let (events, _, _) = run(
        &mut state,
        EditorAction::AddConnection {
            start_scene_id: 9,
            asset_id: 1,
            position: pos(0.0, 0.0),
            name: None,
        },
        vec![],
    );
    assert!(matches!(&events[0], EditorEvent::Error { message } if message == "Start scene not found."));
    assert_eq!(graph_fingerprint(&state), before);
}

/// Write-through atomicity: when the persistence call fails, the in-memory
/// graph after the command is identical to before it.
#[test]
fn failed_write_leaves_graph_unchanged() {
    let mut state = EditorState::new(1, "u".to_string());
    let (_, _, _) = run(
        &mut state,
        EditorAction::AddScene { name: "A".to_string(), file_path: "a.jpg".to_string() },
        vec![GatewayReply::Created { id: 1 }],
    );
    let before = graph_fingerprint(&state);

    // a failing swap
    let (events, _, _) = run(
        &mut state,
        EditorAction::SwapScene { scene_id: 1, new_file_path: "new.jpg".to_string() },
        vec![GatewayReply::Failed],
    );
    assert!(matches!(&events[0], EditorEvent::Error { message } if message == "Failed to update scene in database"));
    assert_eq!(graph_fingerprint(&state), before);

    // a failing scene creation
    let (events, _, _) = run(
        &mut state,
        EditorAction::AddScene { name: "B".to_string(), file_path: "b.jpg".to_string() },
        vec![GatewayReply::Failed],
    );
    assert!(matches!(&events[0], EditorEvent::Error { message } if message == "Failed to save scene to database"));
    assert_eq!(graph_fingerprint(&state), before);

    // a failing scene deletion
    let (events, _, _) = run(
        &mut state,
        EditorAction::DeleteScene { scene_id: 1 },
        vec![GatewayReply::Failed],
    );
    assert!(matches!(&events[0], EditorEvent::Error { message } if message == "Failed to delete scene from database"));
    assert_eq!(graph_fingerprint(&state), before);

    // a close-up whose second write-through fails is not reflected at all
    let (events, calls, _) = run(
        &mut state,
        EditorAction::AddCloseup {
            name: "detail".to_string(),
            file_path: "d.jpg".to_string(),
            parent_scene_id: 1,
            position: pos(1.0, 2.0),
            icon_type: Some(2),
        },
        vec![GatewayReply::Created { id: 50 }, GatewayReply::Failed],
    );
    assert_eq!(calls.len(), 2);
    assert!(matches!(&events[0], EditorEvent::Error { message } if message == "Failed to save closeup connection"));
    assert_eq!(graph_fingerprint(&state), before);
}

#[test]
fn closeup_added_with_both_writes() {
    let mut state = EditorState::new(4, "u".to_string());
    let (_, _, _) = run(
        &mut state,
        EditorAction::AddScene { name: "A".to_string(), file_path: "a.jpg".to_string() },
        vec![GatewayReply::Created { id: 1 }],
    );
    let (events, calls, _) = run(
        &mut state,
        EditorAction::AddCloseup {
            name: "detail".to_string(),
            file_path: "d.jpg".to_string(),
            parent_scene_id: 1,
            position: pos(1.0, 2.0),
            icon_type: None,
        },
        vec![GatewayReply::Created { id: 50 }, GatewayReply::Created { id: 6 }],
    );
    assert!(matches!(calls[0], GatewayCall::CreateCloseupAsset { tour_id: 4, .. }));
    assert!(matches!(
        calls[1],
        GatewayCall::CreateConnection { start_scene_id: 1, target_id: 50, is_transition: false, .. }
    ));
    // a missing icon selector is reported as the default icon 1
    assert!(matches!(
        events[..],
        [EditorEvent::CloseupAdded { parent_scene: 1, connection_id: 6, icon_type: 1, .. }]
    ));
    let c = state.graph().find_connection(6).expect("closeup connection indexed");
    assert_eq!(c.target_scene_id, 50);
}

#[test]
fn edit_closeup_path_updates_asset_as_secondary_write() {
    let mut state = EditorState::new(4, "u".to_string());
    run(
        &mut state,
        EditorAction::AddScene { name: "A".to_string(), file_path: "a.jpg".to_string() },
        vec![GatewayReply::Created { id: 1 }],
    );
    run(
        &mut state,
        EditorAction::AddCloseup {
            name: "detail".to_string(),
            file_path: "d.jpg".to_string(),
            parent_scene_id: 1,
            position: pos(1.0, 2.0),
            icon_type: None,
        },
        vec![GatewayReply::Created { id: 50 }, GatewayReply::Created { id: 6 }],
    );
    let (events, _, follow) = run(
        &mut state,
        EditorAction::EditConnection {
            connection_id: 6,
            new_asset_id: 50,
            new_position: pos(3.0, 4.0),
            new_name: None,
            new_icon_type: None,
            new_file_path: Some("d2.jpg".to_string()),
        },
        vec![GatewayReply::Done],
    );
    assert!(matches!(events[..], [EditorEvent::ConnectionEdited { connection_id: 6 }]));
    match follow {
        Some(GatewayCall::UpdateAssetFile { asset_id, file_path }) => {
            assert_eq!(asset_id, 50);
            assert_eq!(file_path, "d2.jpg");
        }
        other => panic!("expected an asset update follow-up, got {other:?}"),
    }
}

#[test]
fn set_initial_scene_and_views() {
    let mut state = EditorState::new(1, "u".to_string());
    run(
        &mut state,
        EditorAction::AddScene { name: "A".to_string(), file_path: "a.jpg".to_string() },
        vec![GatewayReply::Created { id: 1 }],
    );
    run(
        &mut state,
        EditorAction::AddScene { name: "B".to_string(), file_path: "b.jpg".to_string() },
        vec![GatewayReply::Created { id: 2 }],
    );
    let (events, _, _) = run(
        &mut state,
        EditorAction::SetInitialScene { scene_id: 2 },
        vec![GatewayReply::Done],
    );
    assert!(matches!(&events[0], EditorEvent::Success { .. }));
    assert_eq!(state.graph().current_scene_id(), Some(2));

    let (events, _, _) = run(
        &mut state,
        EditorAction::SetInitialView { scene_id: 1, position: pos(5.0, 6.0), fov: None },
        vec![GatewayReply::Done],
    );
    assert!(matches!(&events[0], EditorEvent::Success { message } if message == "Initial view position saved."));
    assert_eq!(state.graph().find_scene(1).unwrap().initial_view, Some(pos(5.0, 6.0)));

    let (events, _, _) = run(
        &mut state,
        EditorAction::SetNorthDirection { scene_id: 1, direction: (45.0f32).to_bits() },
        vec![GatewayReply::Done],
    );
    assert!(matches!(&events[0], EditorEvent::Success { message } if message == "North direction saved."));
    assert_eq!(
        state.graph().find_scene(1).unwrap().north_direction,
        Some((45.0f32).to_bits())
    );

    let (events, _, _) = run(
        &mut state,
        EditorAction::UpdateSceneName { scene_id: 1, name: "Atrium".to_string() },
        vec![GatewayReply::Done],
    );
    assert!(matches!(&events[0], EditorEvent::Success { .. }));
    assert_eq!(state.graph().find_scene(1).unwrap().name, "Atrium");

    let (events, _, _) = run(
        &mut state,
        EditorAction::SwapScene { scene_id: 1, new_file_path: "a2.jpg".to_string() },
        vec![GatewayReply::Done],
    );
    assert!(matches!(
        events[..],
        [EditorEvent::SceneSwapped { scene_id: 1, .. }]
    ));
    assert_eq!(state.graph().find_scene(1).unwrap().file_path, "a2.jpg");
}

#[test]
fn delete_connection_events_and_errors() {
    let mut state = EditorState::new(1, "u".to_string());
    run(
        &mut state,
        EditorAction::AddScene { name: "A".to_string(), file_path: "a.jpg".to_string() },
        vec![GatewayReply::Created { id: 1 }],
    );
    run(
        &mut state,
        EditorAction::AddConnection {
            start_scene_id: 1,
            asset_id: 1,
            position: pos(0.0, 0.0),
            name: None,
        },
        vec![GatewayReply::Created { id: 9 }],
    );
    // failed write-through
    let (events, _, _) = run(
        &mut state,
        EditorAction::DeleteConnection { connection_id: 9 },
        vec![GatewayReply::Failed],
    );
    assert!(matches!(&events[0], EditorEvent::Error { message } if message == "Failed to delete connection from database"));
    assert!(state.graph().find_connection(9).is_some());
    // successful deletion
    let (events, _, _) = run(
        &mut state,
        EditorAction::DeleteConnection { connection_id: 9 },
        vec![GatewayReply::Done],
    );
    assert!(matches!(events[..], [EditorEvent::ConnectionDeleted { connection_id: 9 }]));
    assert!(state.graph().find_connection(9).is_none());
    // now the id is unknown
    let (events, calls, _) = run(
        &mut state,
        EditorAction::DeleteConnection { connection_id: 9 },
        vec![],
    );
    assert!(calls.is_empty());
    assert!(matches!(&events[0], EditorEvent::Error { message } if message == "Connection not found."));
}

/// Reserved protocol tags are acknowledged as no-ops, never as errors.
#[test]
fn placeholder_commands_acknowledge() {
    let mut state = EditorState::new(1, "u".to_string());
    let before = graph_fingerprint(&state);
    let cases = vec![
        EditorAction::ChangeAddress { address: "1 Main St".to_string() },
        EditorAction::AddFloorplan { file_path: "f.png".to_string() },
        EditorAction::DeleteFloorplan { floorplan_id: 1 },
        EditorAction::AddFloorplanConnection { scene_id: 1 },
        EditorAction::DeleteFloorplanConnection { scene_id: 1 },
    ];
    for action in cases {
        let (events, calls, follow) = run(&mut state, action, vec![]);
        assert!(calls.is_empty());
        assert!(follow.is_none());
        assert_eq!(events.len(), 1);
        assert!(matches!(&events[0], EditorEvent::Success { .. }));
    }
    assert_eq!(graph_fingerprint(&state), before);
}

/// Every failing write-through has its own error message, and none of them
/// mutates the graph.
#[test]
fn remaining_failure_messages() {
    let mut state = EditorState::new(1, "u".to_string());
    run(
        &mut state,
        EditorAction::AddScene { name: "A".to_string(), file_path: "a.jpg".to_string() },
        vec![GatewayReply::Created { id: 1 }],
    );
    run(
        &mut state,
        EditorAction::AddConnection {
            start_scene_id: 1,
            asset_id: 1,
            position: pos(0.0, 0.0),
            name: None,
        },
        vec![GatewayReply::Created { id: 2 }],
    );
    let before = graph_fingerprint(&state);

    let cases: Vec<(EditorAction, &str)> = vec![
        (
            EditorAction::AddConnection {
                start_scene_id: 1,
                asset_id: 1,
                position: pos(0.0, 0.0),
                name: None,
            },
            "Failed to save connection to database",
        ),
        (
            EditorAction::AddCloseup {
                name: "d".to_string(),
                file_path: "d.jpg".to_string(),
                parent_scene_id: 1,
                position: pos(0.0, 0.0),
                icon_type: None,
            },
            "Failed to save closeup to database",
        ),
        (
            EditorAction::EditConnection {
                connection_id: 2,
                new_asset_id: 1,
                new_position: pos(0.0, 0.0),
                new_name: None,
                new_icon_type: None,
                new_file_path: None,
            },
            "Failed to update connection in database",
        ),
        (
            EditorAction::SetInitialScene { scene_id: 1 },
            "Failed to set initial scene in database",
        ),
        (
            EditorAction::UpdateSceneName { scene_id: 1, name: "B".to_string() },
            "Failed to update scene name in database",
        ),
        (
            EditorAction::SetInitialView { scene_id: 1, position: pos(0.0, 0.0), fov: None },
            "Failed to update scene in database",
        ),
        (
            EditorAction::SetNorthDirection { scene_id: 1, direction: 0 },
            "Failed to update scene in database",
        ),
    ];
    for (action, expected) in cases {
        let (events, _, follow) = run(&mut state, action, vec![GatewayReply::Failed]);
        assert!(follow.is_none());
        assert_eq!(events.len(), 1);
        match &events[0] {
            EditorEvent::Error { message } => assert_eq!(message, expected),
            other => panic!("expected an error event, got {other:?}"),
        }
        assert_eq!(graph_fingerprint(&state), before);
    }
}

/// A gateway that assigns an id that is already taken cannot corrupt the
/// graph: the command is dropped with an error.
#[test]
fn colliding_store_id_is_rejected() {
    let mut state = EditorState::new(1, "u".to_string());
    run(
        &mut state,
        EditorAction::AddScene { name: "A".to_string(), file_path: "a.jpg".to_string() },
        vec![GatewayReply::Created { id: 1 }],
    );
    let before = graph_fingerprint(&state);
    let (events, _, _) = run(
        &mut state,
        EditorAction::AddScene { name: "B".to_string(), file_path: "b.jpg".to_string() },
        vec![GatewayReply::Created { id: 1 }],
    );
    assert!(matches!(&events[0], EditorEvent::Error { .. }));
    assert_eq!(graph_fingerprint(&state), before);
}
