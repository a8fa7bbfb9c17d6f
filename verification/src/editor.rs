//! The editor command processor.
//!
//! A closed set of editor actions is applied to a tour graph atomically with
//! write-through persistence. The persistence gateway itself is an external
//! collaborator that performs I/O, so the processor is a step machine: for
//! each action it first decides, without mutating anything, which gateway
//! call is required (`begin_action`); the caller performs the call and hands
//! the reply back (`resume_action`), and only on a success reply is the
//! in-memory graph mutated and a confirmation event produced. On a failure
//! reply the graph is left untouched and exactly one error event is
//! produced, so the in-memory graph and the store never diverge on a failed
//! write. Unknown-id actions are rejected up front with exactly one error
//! event and no gateway call at all.
//!
//! The whole behaviour is pinned by one spec-level model: `begin_model` and
//! `resume_model` say, for every state, action and reply, what the next
//! state and the emitted events are, and the two executable methods are
//! proved equal to them.

use vstd::prelude::*;
use crate::coords::Coordinates;
use crate::graph::{
    apply_patch, cascade_scenes, conn_pos, fresh_scene_view, has_conn_id, has_scene_id,
    incoming_removed_ids, owned_conn_ids, scene_pos, Connection, ConnectionPatch,
    ConnectionPatchView, ConnectionType, ConnectionView, SceneView, TourGraph, TourGraphView,
};

verus! {

/// The closed set of editor actions, as decoded from a client. Positions and
/// angles are carried as bit patterns of the client's 32-bit values.
#[derive(Clone, Debug)]
pub enum EditorAction {
    AddScene { name: String, file_path: String },
    SwapScene { scene_id: i32, new_file_path: String },
    DeleteScene { scene_id: i32 },
    SetInitialScene { scene_id: i32 },
    UpdateSceneName { scene_id: i32, name: String },
    AddCloseup {
        name: String,
        file_path: String,
        parent_scene_id: i32,
        position: Coordinates,
        icon_type: Option<i32>,
    },
    AddConnection {
        start_scene_id: i32,
        asset_id: i32,
        position: Coordinates,
        name: Option<String>,
    },
    EditConnection {
        connection_id: i32,
        new_asset_id: i32,
        new_position: Coordinates,
        new_name: Option<String>,
        new_icon_type: Option<i32>,
        new_file_path: Option<String>,
    },
    DeleteConnection { connection_id: i32 },
    SetInitialView { scene_id: i32, position: Coordinates, fov: Option<u32> },
    SetNorthDirection { scene_id: i32, direction: u32 },
    ChangeAddress { address: String },
    AddFloorplan { file_path: String },
    DeleteFloorplan { floorplan_id: i32 },
    AddFloorplanConnection { scene_id: i32 },
    DeleteFloorplanConnection { scene_id: i32 },
}

/// Mathematical model of an editor action.
pub enum EditorActionView {
    AddScene { name: Seq<char>, file_path: Seq<char> },
    SwapScene { scene_id: i32, new_file_path: Seq<char> },
    DeleteScene { scene_id: i32 },
    SetInitialScene { scene_id: i32 },
    UpdateSceneName { scene_id: i32, name: Seq<char> },
    AddCloseup {
        name: Seq<char>,
        file_path: Seq<char>,
        parent_scene_id: i32,
        position: Coordinates,
        icon_type: Option<i32>,
    },
    AddConnection {
        start_scene_id: i32,
        asset_id: i32,
        position: Coordinates,
        name: Option<Seq<char>>,
    },
    EditConnection {
        connection_id: i32,
        new_asset_id: i32,
        new_position: Coordinates,
        new_name: Option<Seq<char>>,
        new_icon_type: Option<i32>,
        new_file_path: Option<Seq<char>>,
    },
    DeleteConnection { connection_id: i32 },
    SetInitialView { scene_id: i32, position: Coordinates, fov: Option<u32> },
    SetNorthDirection { scene_id: i32, direction: u32 },
    ChangeAddress { address: Seq<char> },
    AddFloorplan { file_path: Seq<char> },
    DeleteFloorplan { floorplan_id: i32 },
    AddFloorplanConnection { scene_id: i32 },
    DeleteFloorplanConnection { scene_id: i32 },
}

pub open spec fn opt_string_view(o: Option<String>) -> Option<Seq<char>> {
    match o {
        Some(s) => Some(s@),
        None => None,
    }
}

impl View for EditorAction {
    type V = EditorActionView;

    open spec fn view(&self) -> EditorActionView {
        match self {
            EditorAction::AddScene { name, file_path } => EditorActionView::AddScene {
                name: name@,
                file_path: file_path@,
            },
            EditorAction::SwapScene { scene_id, new_file_path } => EditorActionView::SwapScene {
                scene_id: *scene_id,
                new_file_path: new_file_path@,
            },
            EditorAction::DeleteScene { scene_id } => EditorActionView::DeleteScene {
                scene_id: *scene_id,
            },
            EditorAction::SetInitialScene { scene_id } => EditorActionView::SetInitialScene {
                scene_id: *scene_id,
            },
            EditorAction::UpdateSceneName { scene_id, name } => EditorActionView::UpdateSceneName {
                scene_id: *scene_id,
                name: name@,
            },
            EditorAction::AddCloseup { name, file_path, parent_scene_id, position, icon_type } =>
                EditorActionView::AddCloseup {
                    name: name@,
                    file_path: file_path@,
                    parent_scene_id: *parent_scene_id,
                    position: *position,
                    icon_type: *icon_type,
                },
            EditorAction::AddConnection { start_scene_id, asset_id, position, name } =>
                EditorActionView::AddConnection {
                    start_scene_id: *start_scene_id,
                    asset_id: *asset_id,
                    position: *position,
                    name: opt_string_view(*name),
                },
            EditorAction::EditConnection {
                connection_id,
                new_asset_id,
                new_position,
                new_name,
                new_icon_type,
                new_file_path,
            } => EditorActionView::EditConnection {
                connection_id: *connection_id,
                new_asset_id: *new_asset_id,
                new_position: *new_position,
                new_name: opt_string_view(*new_name),
                new_icon_type: *new_icon_type,
                new_file_path: opt_string_view(*new_file_path),
            },
            EditorAction::DeleteConnection { connection_id } => EditorActionView::DeleteConnection {
                connection_id: *connection_id,
            },
            EditorAction::SetInitialView { scene_id, position, fov } =>
                EditorActionView::SetInitialView {
                    scene_id: *scene_id,
                    position: *position,
                    fov: *fov,
                },
            EditorAction::SetNorthDirection { scene_id, direction } =>
                EditorActionView::SetNorthDirection {
                    scene_id: *scene_id,
                    direction: *direction,
                },
            EditorAction::ChangeAddress { address } => EditorActionView::ChangeAddress {
                address: address@,
            },
            EditorAction::AddFloorplan { file_path } => EditorActionView::AddFloorplan {
                file_path: file_path@,
            },
            EditorAction::DeleteFloorplan { floorplan_id } => EditorActionView::DeleteFloorplan {
                floorplan_id: *floorplan_id,
            },
            EditorAction::AddFloorplanConnection { scene_id } =>
                EditorActionView::AddFloorplanConnection { scene_id: *scene_id },
            EditorAction::DeleteFloorplanConnection { scene_id } =>
                EditorActionView::DeleteFloorplanConnection { scene_id: *scene_id },
        }
    }
}

/// The events the processor emits for the connected client; the transport
/// boundary serialises them. Field names follow the wire protocol.
#[derive(Clone, Debug)]
pub enum EditorEvent {
    SceneAdded { name: String, file_path: String, id: i32 },
    SceneSwapped { scene_id: i32, new_file_path: String },
    SceneDeleted { scene_id: i32 },
    ConnectionAdded { connection_id: i32, start_scene: i32, target_scene: i32 },
    ConnectionEdited { connection_id: i32 },
    ConnectionDeleted { connection_id: i32 },
    CloseupAdded {
        name: String,
        file_path: String,
        parent_scene: i32,
        connection_id: i32,
        icon_type: i32,
    },
    Error { message: String },
    Success { message: String },
}

/// Mathematical model of an event.
pub enum EditorEventView {
    SceneAdded { name: Seq<char>, file_path: Seq<char>, id: i32 },
    SceneSwapped { scene_id: i32, new_file_path: Seq<char> },
    SceneDeleted { scene_id: i32 },
    ConnectionAdded { connection_id: i32, start_scene: i32, target_scene: i32 },
    ConnectionEdited { connection_id: i32 },
    ConnectionDeleted { connection_id: i32 },
    CloseupAdded {
        name: Seq<char>,
        file_path: Seq<char>,
        parent_scene: i32,
        connection_id: i32,
        icon_type: i32,
    },
    Error { message: Seq<char> },
    Success { message: Seq<char> },
}

impl View for EditorEvent {
    type V = EditorEventView;

    open spec fn view(&self) -> EditorEventView {
        match self {
            EditorEvent::SceneAdded { name, file_path, id } => EditorEventView::SceneAdded {
                name: name@,
                file_path: file_path@,
                id: *id,
            },
            EditorEvent::SceneSwapped { scene_id, new_file_path } => EditorEventView::SceneSwapped {
                scene_id: *scene_id,
                new_file_path: new_file_path@,
            },
            EditorEvent::SceneDeleted { scene_id } => EditorEventView::SceneDeleted {
                scene_id: *scene_id,
            },
            EditorEvent::ConnectionAdded { connection_id, start_scene, target_scene } =>
                EditorEventView::ConnectionAdded {
                    connection_id: *connection_id,
                    start_scene: *start_scene,
                    target_scene: *target_scene,
                },
            EditorEvent::ConnectionEdited { connection_id } => EditorEventView::ConnectionEdited {
                connection_id: *connection_id,
            },
            EditorEvent::ConnectionDeleted { connection_id } => EditorEventView::ConnectionDeleted {
                connection_id: *connection_id,
            },
            EditorEvent::CloseupAdded { name, file_path, parent_scene, connection_id, icon_type }
                => EditorEventView::CloseupAdded {
                name: name@,
                file_path: file_path@,
                parent_scene: *parent_scene,
                connection_id: *connection_id,
                icon_type: *icon_type,
            },
            EditorEvent::Error { message } => EditorEventView::Error { message: message@ },
            EditorEvent::Success { message } => EditorEventView::Success { message: message@ },
        }
    }
}

/// One call into the persistence gateway. The caller performs it and hands
/// the outcome back as a `GatewayReply`.
#[derive(Clone, Debug)]
pub enum GatewayCall {
    CreateScene { tour_id: i64, name: String, file_path: String },
    CreateCloseupAsset { tour_id: i64, name: String, file_path: String, icon_type: Option<i32> },
    CreateConnection {
        tour_id: i64,
        start_scene_id: i32,
        target_id: i32,
        position: Coordinates,
        is_transition: bool,
        name: Option<String>,
        file_path: Option<String>,
        icon_type: Option<i32>,
    },
    UpdateSceneName { scene_id: i32, name: String },
    UpdateSceneFile { scene_id: i32, file_path: String },
    UpdateSceneView { scene_id: i32, position: Coordinates, fov: Option<u32> },
    UpdateSceneNorth { scene_id: i32, direction: u32 },
    UpdateAssetFile { asset_id: i32, file_path: String },
    UpdateConnection {
        connection_id: i32,
        target_id: i32,
        position: Coordinates,
        name: Option<String>,
        icon_type: Option<i32>,
        file_path: Option<String>,
    },
    DeleteScene { scene_id: i32 },
    DeleteConnection { connection_id: i32 },
    SetInitialScene { tour_id: i64, scene_id: i32 },
    ClearInitialScene { tour_id: i64 },
}

/// Mathematical model of a gateway call.
pub enum GatewayCallView {
    CreateScene { tour_id: i64, name: Seq<char>, file_path: Seq<char> },
    CreateCloseupAsset {
        tour_id: i64,
        name: Seq<char>,
        file_path: Seq<char>,
        icon_type: Option<i32>,
    },
    CreateConnection {
        tour_id: i64,
        start_scene_id: i32,
        target_id: i32,
        position: Coordinates,
        is_transition: bool,
        name: Option<Seq<char>>,
        file_path: Option<Seq<char>>,
        icon_type: Option<i32>,
    },
    UpdateSceneName { scene_id: i32, name: Seq<char> },
    UpdateSceneFile { scene_id: i32, file_path: Seq<char> },
    UpdateSceneView { scene_id: i32, position: Coordinates, fov: Option<u32> },
    UpdateSceneNorth { scene_id: i32, direction: u32 },
    UpdateAssetFile { asset_id: i32, file_path: Seq<char> },
    UpdateConnection {
        connection_id: i32,
        target_id: i32,
        position: Coordinates,
        name: Option<Seq<char>>,
        icon_type: Option<i32>,
        file_path: Option<Seq<char>>,
    },
    DeleteScene { scene_id: i32 },
    DeleteConnection { connection_id: i32 },
    SetInitialScene { tour_id: i64, scene_id: i32 },
    ClearInitialScene { tour_id: i64 },
}

impl View for GatewayCall {
    type V = GatewayCallView;

    open spec fn view(&self) -> GatewayCallView {
        match self {
            GatewayCall::CreateScene { tour_id, name, file_path } => GatewayCallView::CreateScene {
                tour_id: *tour_id,
                name: name@,
                file_path: file_path@,
            },
            GatewayCall::CreateCloseupAsset { tour_id, name, file_path, icon_type } =>
                GatewayCallView::CreateCloseupAsset {
                    tour_id: *tour_id,
                    name: name@,
                    file_path: file_path@,
                    icon_type: *icon_type,
                },
            GatewayCall::CreateConnection {
                tour_id,
                start_scene_id,
                target_id,
                position,
                is_transition,
                name,
                file_path,
                icon_type,
            } => GatewayCallView::CreateConnection {
                tour_id: *tour_id,
                start_scene_id: *start_scene_id,
                target_id: *target_id,
                position: *position,
                is_transition: *is_transition,
                name: opt_string_view(*name),
                file_path: opt_string_view(*file_path),
                icon_type: *icon_type,
            },
            GatewayCall::UpdateSceneName { scene_id, name } => GatewayCallView::UpdateSceneName {
                scene_id: *scene_id,
                name: name@,
            },
            GatewayCall::UpdateSceneFile { scene_id, file_path } =>
                GatewayCallView::UpdateSceneFile {
                    scene_id: *scene_id,
                    file_path: file_path@,
                },
            GatewayCall::UpdateSceneView { scene_id, position, fov } =>
                GatewayCallView::UpdateSceneView {
                    scene_id: *scene_id,
                    position: *position,
                    fov: *fov,
                },
            GatewayCall::UpdateSceneNorth { scene_id, direction } =>
                GatewayCallView::UpdateSceneNorth {
                    scene_id: *scene_id,
                    direction: *direction,
                },
            GatewayCall::UpdateAssetFile { asset_id, file_path } =>
                GatewayCallView::UpdateAssetFile {
                    asset_id: *asset_id,
                    file_path: file_path@,
                },
            GatewayCall::UpdateConnection {
                connection_id,
                target_id,
                position,
                name,
                icon_type,
                file_path,
            } => GatewayCallView::UpdateConnection {
                connection_id: *connection_id,
                target_id: *target_id,
                position: *position,
                name: opt_string_view(*name),
                icon_type: *icon_type,
                file_path: opt_string_view(*file_path),
            },
            GatewayCall::DeleteScene { scene_id } => GatewayCallView::DeleteScene {
                scene_id: *scene_id,
            },
            GatewayCall::DeleteConnection { connection_id } => GatewayCallView::DeleteConnection {
                connection_id: *connection_id,
            },
            GatewayCall::SetInitialScene { tour_id, scene_id } => GatewayCallView::SetInitialScene {
                tour_id: *tour_id,
                scene_id: *scene_id,
            },
            GatewayCall::ClearInitialScene { tour_id } => GatewayCallView::ClearInitialScene {
                tour_id: *tour_id,
            },
        }
    }
}

/// The outcome of a gateway call, as reported by the caller. `Created`
/// carries the id the store assigned; `Done` is success without a new id;
/// `Failed` is any error. Nothing is assumed about which of these a real
/// gateway produces: the processor is total in the reply.
#[derive(Clone, Copy, Debug, PartialEq, Eq, Structural)]
pub enum GatewayReply {
    Created { id: i32 },
    Done,
    Failed,
}

/// An in-flight command, waiting for a gateway reply. Most commands need a
/// single call; adding a close-up needs two in sequence (persist the asset,
/// then persist the connection to it), so the second leg carries what the
/// first one learned.
#[derive(Clone, Debug)]
pub enum PendingCommand {
    Primary { action: EditorAction },
    CloseupLink {
        name: String,
        file_path: String,
        parent_scene_id: i32,
        position: Coordinates,
        icon_type: Option<i32>,
        asset_id: i32,
    },
}

/// Mathematical model of an in-flight command.
pub enum PendingCommandView {
    Primary { action: EditorActionView },
    CloseupLink {
        name: Seq<char>,
        file_path: Seq<char>,
        parent_scene_id: i32,
        position: Coordinates,
        icon_type: Option<i32>,
        asset_id: i32,
    },
}

impl View for PendingCommand {
    type V = PendingCommandView;

    open spec fn view(&self) -> PendingCommandView {
        match self {
            PendingCommand::Primary { action } => PendingCommandView::Primary { action: action@ },
            PendingCommand::CloseupLink {
                name,
                file_path,
                parent_scene_id,
                position,
                icon_type,
                asset_id,
            } => PendingCommandView::CloseupLink {
                name: name@,
                file_path: file_path@,
                parent_scene_id: *parent_scene_id,
                position: *position,
                icon_type: *icon_type,
                asset_id: *asset_id,
            },
        }
    }
}

/// What the processor hands back at each step: either the command is done,
/// with its events and possibly one fire-and-forget call whose outcome the
/// protocol ignores, or one more gateway call is needed.
#[derive(Clone, Debug)]
pub enum CommandStep {
    Finished { events: Vec<EditorEvent>, follow_up: Option<GatewayCall> },
    Await { call: GatewayCall, pending: PendingCommand },
}

/// Mathematical model of a step result.
pub enum CommandStepView {
    Finished { events: Seq<EditorEventView>, follow_up: Option<GatewayCallView> },
    Await { call: GatewayCallView, pending: PendingCommandView },
}

impl View for CommandStep {
    type V = CommandStepView;

    open spec fn view(&self) -> CommandStepView {
        match self {
            CommandStep::Finished { events, follow_up } => CommandStepView::Finished {
                events: events@.map_values(|e: EditorEvent| e@),
                follow_up: match follow_up {
                    Some(c) => Some(c@),
                    None => None,
                },
            },
            CommandStep::Await { call, pending } => CommandStepView::Await {
                call: call@,
                pending: pending@,
            },
        }
    }
}

/// The reply to an asset upload: where the file was stored, and a message
/// for the client.
#[derive(Debug, Clone)]
pub struct UploadResponse {
    pub file_path: String,
    pub message: String,
}

/// The per-session editor state: which tour is edited, by whom, and the
/// in-memory tour graph.
pub struct EditorState {
    pub tour_id: i64,
    pub username: String,
    graph: TourGraph,
}

/// Mathematical model of the editor state.
pub struct EditorStateView {
    pub tour_id: i64,
    pub username: Seq<char>,
    pub graph: TourGraphView,
}

impl View for EditorState {
    type V = EditorStateView;

    closed spec fn view(&self) -> EditorStateView {
        EditorStateView {
            tour_id: self.tour_id,
            username: self.username@,
            graph: self.graph@,
        }
    }
}

/// A step that finishes with exactly one error event and no further call.
pub open spec fn single_error(msg: Seq<char>) -> CommandStepView {
    CommandStepView::Finished {
        events: seq![EditorEventView::Error { message: msg }],
        follow_up: None,
    }
}

/// A step that finishes with exactly one success event and no further call.
pub open spec fn single_success(msg: Seq<char>) -> CommandStepView {
    CommandStepView::Finished {
        events: seq![EditorEventView::Success { message: msg }],
        follow_up: None,
    }
}

/// The acknowledgement the placeholder commands produce: reserved protocol
/// tags are accepted as no-ops, never as errors, so existing clients keep
/// working.
pub open spec fn placeholder_ack(a: EditorActionView) -> Option<CommandStepView> {
    match a {
        EditorActionView::ChangeAddress { address } => Some(single_success(
            "Address updated."@,
        )),
        EditorActionView::AddFloorplan { file_path } => Some(single_success(
            "Floorplan functionality not yet implemented."@,
        )),
        EditorActionView::DeleteFloorplan { floorplan_id } => Some(single_success(
            "Floorplan functionality not yet implemented."@,
        )),
        EditorActionView::AddFloorplanConnection { scene_id } => Some(single_success(
            "Floorplan functionality not yet implemented."@,
        )),
        EditorActionView::DeleteFloorplanConnection { scene_id } => Some(single_success(
            "Floorplan functionality not yet implemented."@,
        )),
        _ => None,
    }
}

/// What `begin_action` must return: the gateway call a command needs, or an
/// immediate finish — an error event when the command names an id that does
/// not exist (the graph is then untouched, which is the idempotent no-op
/// guarantee), or an acknowledgement for the placeholder commands.
pub open spec fn begin_model(s: EditorStateView, a: EditorActionView) -> CommandStepView {
    let pend = PendingCommandView::Primary { action: a };
    match a {
        EditorActionView::AddScene { name, file_path } => CommandStepView::Await {
            call: GatewayCallView::CreateScene { tour_id: s.tour_id, name, file_path },
            pending: pend,
        },
        EditorActionView::SwapScene { scene_id, new_file_path } => {
            if has_scene_id(s.graph.scenes, scene_id) {
                CommandStepView::Await {
                    call: GatewayCallView::UpdateSceneFile { scene_id, file_path: new_file_path },
                    pending: pend,
                }
            } else {
                single_error("Scene not found."@)
            }
        },
        EditorActionView::DeleteScene { scene_id } => {
            if has_scene_id(s.graph.scenes, scene_id) {
                CommandStepView::Await {
                    call: GatewayCallView::DeleteScene { scene_id },
                    pending: pend,
                }
            } else {
                single_error("Scene not found."@)
            }
        },
        EditorActionView::SetInitialScene { scene_id } => {
            if has_scene_id(s.graph.scenes, scene_id) {
                CommandStepView::Await {
                    call: GatewayCallView::SetInitialScene { tour_id: s.tour_id, scene_id },
                    pending: pend,
                }
            } else {
                single_error("Scene not found."@)
            }
        },
        EditorActionView::UpdateSceneName { scene_id, name } => {
            if has_scene_id(s.graph.scenes, scene_id) {
                CommandStepView::Await {
                    call: GatewayCallView::UpdateSceneName { scene_id, name },
                    pending: pend,
                }
            } else {
                single_error("Scene not found."@)
            }
        },
        EditorActionView::AddCloseup { name, file_path, parent_scene_id, position, icon_type } => {
            if has_scene_id(s.graph.scenes, parent_scene_id) {
                CommandStepView::Await {
                    call: GatewayCallView::CreateCloseupAsset {
                        tour_id: s.tour_id,
                        name,
                        file_path,
                        icon_type,
                    },
                    pending: pend,
                }
            } else {
                single_error("Scene not found."@)
            }
        },
        EditorActionView::AddConnection { start_scene_id, asset_id, position, name } => {
            if has_scene_id(s.graph.scenes, start_scene_id) {
                CommandStepView::Await {
                    call: GatewayCallView::CreateConnection {
                        tour_id: s.tour_id,
                        start_scene_id,
                        target_id: asset_id,
                        position,
                        is_transition: true,
                        name,
                        file_path: None,
                        icon_type: None,
                    },
                    pending: pend,
                }
            } else {
                single_error("Start scene not found."@)
            }
        },
        EditorActionView::EditConnection {
            connection_id,
            new_asset_id,
            new_position,
            new_name,
            new_icon_type,
            new_file_path,
        } => {
            if has_conn_id(s.graph.scenes, connection_id) {
                CommandStepView::Await {
                    call: GatewayCallView::UpdateConnection {
                        connection_id,
                        target_id: new_asset_id,
                        position: new_position,
                        name: new_name,
                        icon_type: new_icon_type,
                        file_path: new_file_path,
                    },
                    pending: pend,
                }
            } else {
                single_error("Connection not found."@)
            }
        },
        EditorActionView::DeleteConnection { connection_id } => {
            if has_conn_id(s.graph.scenes, connection_id) {
                CommandStepView::Await {
                    call: GatewayCallView::DeleteConnection { connection_id },
                    pending: pend,
                }
            } else {
                single_error("Connection not found."@)
            }
        },
        EditorActionView::SetInitialView { scene_id, position, fov } => {
            if has_scene_id(s.graph.scenes, scene_id) {
                CommandStepView::Await {
                    call: GatewayCallView::UpdateSceneView { scene_id, position, fov },
                    pending: pend,
                }
            } else {
                single_error("Scene not found."@)
            }
        },
        EditorActionView::SetNorthDirection { scene_id, direction } => {
            if has_scene_id(s.graph.scenes, scene_id) {
                CommandStepView::Await {
                    call: GatewayCallView::UpdateSceneNorth { scene_id, direction },
                    pending: pend,
                }
            } else {
                single_error("Scene not found."@)
            }
        },
        _ => placeholder_ack(a)->Some_0,
    }
}

/// A state with the graph replaced.
pub open spec fn with_graph(s: EditorStateView, g: TourGraphView) -> EditorStateView {
    EditorStateView { graph: g, ..s }
}

/// The events a scene deletion emits: one `scene_deleted`, then one
/// `connection_deleted` per cascaded connection, in removal order, so
/// observers can drop dangling references.
pub open spec fn delete_scene_events(scene_id: i32, removed: Seq<i32>) -> Seq<EditorEventView> {
    seq![EditorEventView::SceneDeleted { scene_id }]
        + removed.map_values(|cid: i32| EditorEventView::ConnectionDeleted { connection_id: cid })
}

/// What `resume_action` must do for every pending command and every reply:
/// the new state and the step result. On a `Failed` reply the state is the
/// old state, untouched, and exactly one error event is produced — the
/// write-through atomicity guarantee. Replies that should carry a store
/// assigned id but do not (`Done` where `Created` is needed) are treated as
/// failures, as is an id that collides with a live one: the gateway is not
/// trusted to be well-behaved.
pub open spec fn resume_model(
    s: EditorStateView,
    p: PendingCommandView,
    rep: GatewayReply,
) -> (EditorStateView, CommandStepView) {
    match p {
        PendingCommandView::Primary { action } => resume_primary_model(s, action, rep),
        PendingCommandView::CloseupLink {
            name,
            file_path,
            parent_scene_id,
            position,
            icon_type,
            asset_id,
        } => match rep {
            GatewayReply::Created { id } => {
                let conn = ConnectionView {
                    id,
                    connection_type: ConnectionType::Closeup,
                    target_scene_id: asset_id,
                    position,
                    name: Some(name),
                    icon_index: icon_type,
                };
                if has_scene_id(s.graph.scenes, parent_scene_id)
                    && (id == 0 || !has_conn_id(s.graph.scenes, id)) {
                    let pos = scene_pos(s.graph.scenes, parent_scene_id);
                    let g2 = TourGraphView {
                        scenes: s.graph.scenes.update(pos, SceneView {
                            connections: s.graph.scenes[pos].connections.push(conn),
                            ..s.graph.scenes[pos]
                        }),
                        ..s.graph
                    };
                    (with_graph(s, g2), CommandStepView::Finished {
                        events: seq![EditorEventView::CloseupAdded {
                            name,
                            file_path,
                            parent_scene: parent_scene_id,
                            connection_id: id,
                            icon_type: match icon_type {
                                Some(v) => v,
                                None => 1,
                            },
                        }],
                        follow_up: None,
                    })
                } else {
                    (s, single_error("Failed to save closeup connection"@))
                }
            },
            _ => (s, single_error("Failed to save closeup connection"@)),
        },
    }
}

/// `resume_model`, for the single-call commands.
pub open spec fn resume_primary_model(
    s: EditorStateView,
    action: EditorActionView,
    rep: GatewayReply,
) -> (EditorStateView, CommandStepView) {
    let ss = s.graph.scenes;
    match action {
        EditorActionView::AddScene { name, file_path } => match rep {
            GatewayReply::Created { id } => {
                if has_scene_id(ss, id) {
                    (s, single_error("Failed to save scene to database"@))
                } else {
                    let g2 = TourGraphView {
                        scenes: ss.push(fresh_scene_view(id, name, file_path)),
                        current_scene_id: if ss.len() == 0 {
                            Some(id)
                        } else {
                            s.graph.current_scene_id
                        },
                    };
                    (with_graph(s, g2), CommandStepView::Finished {
                        events: seq![EditorEventView::SceneAdded { name, file_path, id }],
                        follow_up: if ss.len() == 0 {
                            Some(GatewayCallView::SetInitialScene {
                                tour_id: s.tour_id,
                                scene_id: id,
                            })
                        } else {
                            None
                        },
                    })
                }
            },
            _ => (s, single_error("Failed to save scene to database"@)),
        },
        EditorActionView::SwapScene { scene_id, new_file_path } => match rep {
            GatewayReply::Failed => (s, single_error("Failed to update scene in database"@)),
            _ => {
                if has_scene_id(ss, scene_id) {
                    let pos = scene_pos(ss, scene_id);
                    let g2 = TourGraphView {
                        scenes: ss.update(pos, SceneView {
                            file_path: new_file_path,
                            ..ss[pos]
                        }),
                        ..s.graph
                    };
                    (with_graph(s, g2), CommandStepView::Finished {
                        events: seq![EditorEventView::SceneSwapped { scene_id, new_file_path }],
                        follow_up: None,
                    })
                } else {
                    (s, single_error("Scene not found."@))
                }
            },
        },
        EditorActionView::DeleteScene { scene_id } => match rep {
            GatewayReply::Failed => (s, single_error("Failed to delete scene from database"@)),
            _ => {
                if has_scene_id(ss, scene_id) {
                    let pos = scene_pos(ss, scene_id);
                    let removed = owned_conn_ids(ss[pos])
                        + incoming_removed_ids(ss.remove(pos), scene_id);
                    let newscenes = cascade_scenes(ss, scene_id);
                    let was_current = s.graph.current_scene_id == Some(scene_id);
                    let g2 = TourGraphView {
                        scenes: newscenes,
                        current_scene_id: if was_current {
                            if newscenes.len() == 0 {
                                None
                            } else {
                                Some(newscenes[0].id)
                            }
                        } else {
                            s.graph.current_scene_id
                        },
                    };
                    (with_graph(s, g2), CommandStepView::Finished {
                        events: delete_scene_events(scene_id, removed),
                        follow_up: if was_current {
                            if newscenes.len() == 0 {
                                Some(GatewayCallView::ClearInitialScene { tour_id: s.tour_id })
                            } else {
                                Some(GatewayCallView::SetInitialScene {
                                    tour_id: s.tour_id,
                                    scene_id: newscenes[0].id,
                                })
                            }
                        } else {
                            None
                        },
                    })
                } else {
                    (s, single_error("Scene not found."@))
                }
            },
        },
        EditorActionView::SetInitialScene { scene_id } => match rep {
            GatewayReply::Failed => (s, single_error("Failed to set initial scene in database"@)),
            _ => {
                if has_scene_id(ss, scene_id) {
                    let g2 = TourGraphView { current_scene_id: Some(scene_id), ..s.graph };
                    (with_graph(s, g2), single_success("Initial scene set."@))
                } else {
                    (s, single_error("Scene not found."@))
                }
            },
        },
        EditorActionView::UpdateSceneName { scene_id, name } => match rep {
            GatewayReply::Failed => (
                s,
                single_error("Failed to update scene name in database"@),
            ),
            _ => {
                if has_scene_id(ss, scene_id) {
                    let pos = scene_pos(ss, scene_id);
                    let g2 = TourGraphView {
                        scenes: ss.update(pos, SceneView { name, ..ss[pos] }),
                        ..s.graph
                    };
                    (with_graph(s, g2), single_success("Scene name updated."@))
                } else {
                    (s, single_error("Scene not found."@))
                }
            },
        },
        EditorActionView::AddCloseup { name, file_path, parent_scene_id, position, icon_type }
            => match rep {
            GatewayReply::Created { id } => (s, CommandStepView::Await {
                call: GatewayCallView::CreateConnection {
                    tour_id: s.tour_id,
                    start_scene_id: parent_scene_id,
                    target_id: id,
                    position,
                    is_transition: false,
                    name: Some(name),
                    file_path: Some(file_path),
                    icon_type,
                },
                pending: PendingCommandView::CloseupLink {
                    name,
                    file_path,
                    parent_scene_id,
                    position,
                    icon_type,
                    asset_id: id,
                },
            }),
            _ => (s, single_error("Failed to save closeup to database"@)),
        },
        EditorActionView::AddConnection { start_scene_id, asset_id, position, name } => match rep {
            GatewayReply::Created { id } => {
                let conn = ConnectionView {
                    id,
                    connection_type: ConnectionType::Transition,
                    target_scene_id: asset_id,
                    position,
                    name,
                    icon_index: None,
                };
                if has_scene_id(ss, start_scene_id) && (id == 0 || !has_conn_id(ss, id)) {
                    let pos = scene_pos(ss, start_scene_id);
                    let g2 = TourGraphView {
                        scenes: ss.update(pos, SceneView {
                            connections: ss[pos].connections.push(conn),
                            ..ss[pos]
                        }),
                        ..s.graph
                    };
                    (with_graph(s, g2), CommandStepView::Finished {
                        events: seq![EditorEventView::ConnectionAdded {
                            connection_id: id,
                            start_scene: start_scene_id,
                            target_scene: asset_id,
                        }],
                        follow_up: None,
                    })
                } else {
                    (s, single_error("Failed to save connection to database"@))
                }
            },
            _ => (s, single_error("Failed to save connection to database"@)),
        },
        EditorActionView::EditConnection {
            connection_id,
            new_asset_id,
            new_position,
            new_name,
            new_icon_type,
            new_file_path,
        } => match rep {
            GatewayReply::Failed => (s, single_error("Failed to update connection in database"@)),
            _ => {
                if has_conn_id(ss, connection_id) {
                    let (k, l) = conn_pos(ss, connection_id);
                    let patch = ConnectionPatchView {
                        new_target_id: new_asset_id,
                        new_position,
                        new_name,
                        new_icon_index: new_icon_type,
                    };
                    let g2 = TourGraphView {
                        scenes: ss.update(k, SceneView {
                            connections: ss[k].connections.update(l,
                                apply_patch(ss[k].connections[l], patch)),
                            ..ss[k]
                        }),
                        ..s.graph
                    };
                    (with_graph(s, g2), CommandStepView::Finished {
                        events: seq![EditorEventView::ConnectionEdited { connection_id }],
                        follow_up: if new_file_path is Some
                            && ss[k].connections[l].connection_type is Closeup
                            && new_asset_id != 0 {
                            Some(GatewayCallView::UpdateAssetFile {
                                asset_id: new_asset_id,
                                file_path: new_file_path->Some_0,
                            })
                        } else {
                            None
                        },
                    })
                } else {
                    (s, single_error("Connection not found."@))
                }
            },
        },
        EditorActionView::DeleteConnection { connection_id } => match rep {
            GatewayReply::Failed => (
                s,
                single_error("Failed to delete connection from database"@),
            ),
            _ => {
                if has_conn_id(ss, connection_id) {
                    let (k, l) = conn_pos(ss, connection_id);
                    let g2 = TourGraphView {
                        scenes: ss.update(k, SceneView {
                            connections: ss[k].connections.remove(l),
                            ..ss[k]
                        }),
                        ..s.graph
                    };
                    (with_graph(s, g2), CommandStepView::Finished {
                        events: seq![EditorEventView::ConnectionDeleted { connection_id }],
                        follow_up: None,
                    })
                } else {
                    (s, single_error("Connection not found."@))
                }
            },
        },
        EditorActionView::SetInitialView { scene_id, position, fov } => match rep {
            GatewayReply::Failed => (s, single_error("Failed to update scene in database"@)),
            _ => {
                if has_scene_id(ss, scene_id) {
                    let pos = scene_pos(ss, scene_id);
                    let g2 = TourGraphView {
                        scenes: ss.update(pos, SceneView {
                            initial_view: Some(position),
                            ..ss[pos]
                        }),
                        ..s.graph
                    };
                    (with_graph(s, g2), single_success("Initial view position saved."@))
                } else {
                    (s, single_error("Scene not found."@))
                }
            },
        },
        EditorActionView::SetNorthDirection { scene_id, direction } => match rep {
            GatewayReply::Failed => (s, single_error("Failed to update scene in database"@)),
            _ => {
                if has_scene_id(ss, scene_id) {
                    let pos = scene_pos(ss, scene_id);
                    let g2 = TourGraphView {
                        scenes: ss.update(pos, SceneView {
                            north_direction: Some(direction),
                            ..ss[pos]
                        }),
                        ..s.graph
                    };
                    (with_graph(s, g2), single_success("North direction saved."@))
                } else {
                    (s, single_error("Scene not found."@))
                }
            },
        },
        _ => (s, placeholder_ack(action)->Some_0),
    }
}

/// Whether an action names a target id that does not exist in the graph.
pub open spec fn targets_unknown_id(s: EditorStateView, a: EditorActionView) -> bool {
    match a {
        EditorActionView::SwapScene { scene_id, new_file_path } => !has_scene_id(
            s.graph.scenes,
            scene_id,
        ),
        EditorActionView::DeleteScene { scene_id } => !has_scene_id(s.graph.scenes, scene_id),
        EditorActionView::SetInitialScene { scene_id } => !has_scene_id(s.graph.scenes, scene_id),
        EditorActionView::UpdateSceneName { scene_id, name } => !has_scene_id(
            s.graph.scenes,
            scene_id,
        ),
        EditorActionView::AddCloseup { name, file_path, parent_scene_id, position, icon_type }
            => !has_scene_id(s.graph.scenes, parent_scene_id),
        EditorActionView::AddConnection { start_scene_id, asset_id, position, name }
            => !has_scene_id(s.graph.scenes, start_scene_id),
        EditorActionView::EditConnection {
            connection_id,
            new_asset_id,
            new_position,
            new_name,
            new_icon_type,
            new_file_path,
        } => !has_conn_id(s.graph.scenes, connection_id),
        EditorActionView::DeleteConnection { connection_id } => !has_conn_id(
            s.graph.scenes,
            connection_id,
        ),
        EditorActionView::SetInitialView { scene_id, position, fov } => !has_scene_id(
            s.graph.scenes,
            scene_id,
        ),
        EditorActionView::SetNorthDirection { scene_id, direction } => !has_scene_id(
            s.graph.scenes,
            scene_id,
        ),
        _ => false,
    }
}

/// Idempotent no-op commands: a command that names an unknown id is
/// finished by `begin_action` at once with exactly one error event and no
/// gateway call, so the graph — which `begin_action` cannot touch — is left
/// byte-for-byte unchanged and the store is never written.
pub proof fn lemma_unknown_id_is_noop(s: EditorStateView, a: EditorActionView)
    requires
        targets_unknown_id(s, a),
    ensures
        begin_model(s, a) matches CommandStepView::Finished { events, follow_up } && {
            &&& events.len() == 1
            &&& events[0] matches EditorEventView::Error { message: m }
            &&& follow_up is None
        },
{
}

/// Write-through atomicity: whatever command is in flight, a failed
/// persistence call leaves the in-memory state exactly as it was before the
/// call.
pub proof fn lemma_failed_write_leaves_state(s: EditorStateView, p: PendingCommandView)
    ensures
        resume_model(s, p, GatewayReply::Failed).0 == s,
{
}

/// For every real (non-placeholder) command, a failed persistence call also
/// yields exactly one error event and no follow-up call.
pub proof fn lemma_failed_write_one_error(s: EditorStateView, p: PendingCommandView)
    requires
        p matches PendingCommandView::Primary { action } ==> placeholder_ack(action) is None,
    ensures
        resume_model(s, p, GatewayReply::Failed).1 matches CommandStepView::Finished {
            events,
            follow_up,
        } && {
            &&& events.len() == 1
            &&& events[0] matches EditorEventView::Error { message: m }
            &&& follow_up is None
        },
{
}

/// A finished step holding exactly one error event.
fn finish_error(msg: &str) -> (r: CommandStep)
    ensures
        r@ == single_error(msg@),
{
    let mut events: Vec<EditorEvent> = Vec::new();
    events.push(EditorEvent::Error { message: msg.to_owned() });
    let r = CommandStep::Finished { events, follow_up: None };
    proof {
        assert(r@->Finished_events =~= seq![EditorEventView::Error { message: msg@ }]);
    }
    r
}

/// A finished step holding exactly one success event.
fn finish_success(msg: &str) -> (r: CommandStep)
    ensures
        r@ == single_success(msg@),
{
    let mut events: Vec<EditorEvent> = Vec::new();
    events.push(EditorEvent::Success { message: msg.to_owned() });
    let r = CommandStep::Finished { events, follow_up: None };
    proof {
        assert(r@->Finished_events =~= seq![EditorEventView::Success { message: msg@ }]);
    }
    r
}

/// A finished step holding exactly one event, with an optional
/// fire-and-forget follow-up call.
fn finish_one(event: EditorEvent, follow_up: Option<GatewayCall>) -> (r: CommandStep)
    ensures
        r@ == (CommandStepView::Finished {
            events: seq![event@],
            follow_up: match follow_up {
                Some(c) => Some(c@),
                None => None,
            },
        }),
{
    let ghost ev = event@;
    let mut events: Vec<EditorEvent> = Vec::new();
    events.push(event);
    let r = CommandStep::Finished { events, follow_up };
    proof {
        assert(r@->Finished_events =~= seq![ev]);
    }
    r
}

impl EditorState {
    /// Whether the underlying graph is well-formed; every operation of the
    /// processor requires and preserves this.
    pub closed spec fn wf(&self) -> bool {
        self.graph.wf()
    }

    /// A fresh session state for one tour of one user, with an empty graph.
    pub fn new(tour_id: i64, username: String) -> (r: EditorState)
        ensures
            r.wf(),
            r@.tour_id == tour_id,
            r@.username == username@,
            r@.graph.scenes == Seq::<SceneView>::empty(),
            r@.graph.current_scene_id is None,
    {
        EditorState { tour_id, username, graph: TourGraph::new() }
    }

    /// A session state around an already loaded graph.
    pub fn with_graph(tour_id: i64, username: String, graph: TourGraph) -> (r: EditorState)
        requires
            graph.wf(),
        ensures
            r.wf(),
            r@.tour_id == tour_id,
            r@.username == username@,
            r@.graph == graph@,
    {
        EditorState { tour_id, username, graph }
    }

    /// Read access to the tour graph.
    pub fn graph(&self) -> (r: &TourGraph)
        ensures
            r@ == self@.graph,
            self.wf() ==> r.wf(),
    {
        &self.graph
    }

    /// First processor phase: decides, without touching the graph, which
    /// gateway call the action needs. An action that names an unknown id is
    /// finished immediately with exactly one error event; a placeholder
    /// action is finished with its acknowledgement. The behaviour is exactly
    /// `begin_model`.
    pub fn begin_action(&self, action: EditorAction) -> (r: CommandStep)
        requires
            self.wf(),
        ensures
            r@ == begin_model(self@, action@),
    {
        match action {
            EditorAction::AddScene { name, file_path } => CommandStep::Await {
                call: GatewayCall::CreateScene {
                    tour_id: self.tour_id,
                    name: name.clone(),
                    file_path: file_path.clone(),
                },
                pending: PendingCommand::Primary {
                    action: EditorAction::AddScene { name, file_path },
                },
            },
            EditorAction::SwapScene { scene_id, new_file_path } => {
                if self.graph.contains_scene(scene_id) {
                    CommandStep::Await {
                        call: GatewayCall::UpdateSceneFile {
                            scene_id,
                            file_path: new_file_path.clone(),
                        },
                        pending: PendingCommand::Primary {
                            action: EditorAction::SwapScene { scene_id, new_file_path },
                        },
                    }
                } else {
                    finish_error("Scene not found.")
                }
            },
            EditorAction::DeleteScene { scene_id } => {
                if self.graph.contains_scene(scene_id) {
                    CommandStep::Await {
                        call: GatewayCall::DeleteScene { scene_id },
                        pending: PendingCommand::Primary {
                            action: EditorAction::DeleteScene { scene_id },
                        },
                    }
                } else {
                    finish_error("Scene not found.")
                }
            },
            EditorAction::SetInitialScene { scene_id } => {
                if self.graph.contains_scene(scene_id) {
                    CommandStep::Await {
                        call: GatewayCall::SetInitialScene { tour_id: self.tour_id, scene_id },
                        pending: PendingCommand::Primary {
                            action: EditorAction::SetInitialScene { scene_id },
                        },
                    }
                } else {
                    finish_error("Scene not found.")
                }
            },
            EditorAction::UpdateSceneName { scene_id, name } => {
                if self.graph.contains_scene(scene_id) {
                    CommandStep::Await {
                        call: GatewayCall::UpdateSceneName { scene_id, name: name.clone() },
                        pending: PendingCommand::Primary {
                            action: EditorAction::UpdateSceneName { scene_id, name },
                        },
                    }
                } else {
                    finish_error("Scene not found.")
                }
            },
            EditorAction::AddCloseup { name, file_path, parent_scene_id, position, icon_type } => {
                if self.graph.contains_scene(parent_scene_id) {
                    CommandStep::Await {
                        call: GatewayCall::CreateCloseupAsset {
                            tour_id: self.tour_id,
                            name: name.clone(),
                            file_path: file_path.clone(),
                            icon_type,
                        },
                        pending: PendingCommand::Primary {
                            action: EditorAction::AddCloseup {
                                name,
                                file_path,
                                parent_scene_id,
                                position,
                                icon_type,
                            },
                        },
                    }
                } else {
                    finish_error("Scene not found.")
                }
            },
            EditorAction::AddConnection { start_scene_id, asset_id, position, name } => {
                if self.graph.contains_scene(start_scene_id) {
                    CommandStep::Await {
                        call: GatewayCall::CreateConnection {
                            tour_id: self.tour_id,
                            start_scene_id,
                            target_id: asset_id,
                            position,
                            is_transition: true,
                            name: name.clone(),
                            file_path: None,
                            icon_type: None,
                        },
                        pending: PendingCommand::Primary {
                            action: EditorAction::AddConnection {
                                start_scene_id,
                                asset_id,
                                position,
                                name,
                            },
                        },
                    }
                } else {
                    finish_error("Start scene not found.")
                }
            },
            EditorAction::EditConnection {
                connection_id,
                new_asset_id,
                new_position,
                new_name,
                new_icon_type,
                new_file_path,
            } => {
                if self.graph.contains_connection(connection_id) {
                    CommandStep::Await {
                        call: GatewayCall::UpdateConnection {
                            connection_id,
                            target_id: new_asset_id,
                            position: new_position,
                            name: new_name.clone(),
                            icon_type: new_icon_type,
                            file_path: new_file_path.clone(),
                        },
                        pending: PendingCommand::Primary {
                            action: EditorAction::EditConnection {
                                connection_id,
                                new_asset_id,
                                new_position,
                                new_name,
                                new_icon_type,
                                new_file_path,
                            },
                        },
                    }
                } else {
                    finish_error("Connection not found.")
                }
            },
            EditorAction::DeleteConnection { connection_id } => {
                if self.graph.contains_connection(connection_id) {
                    CommandStep::Await {
                        call: GatewayCall::DeleteConnection { connection_id },
                        pending: PendingCommand::Primary {
                            action: EditorAction::DeleteConnection { connection_id },
                        },
                    }
                } else {
                    finish_error("Connection not found.")
                }
            },
            EditorAction::SetInitialView { scene_id, position, fov } => {
                if self.graph.contains_scene(scene_id) {
                    CommandStep::Await {
                        call: GatewayCall::UpdateSceneView { scene_id, position, fov },
                        pending: PendingCommand::Primary {
                            action: EditorAction::SetInitialView { scene_id, position, fov },
                        },
                    }
                } else {
                    finish_error("Scene not found.")
                }
            },
            EditorAction::SetNorthDirection { scene_id, direction } => {
                if self.graph.contains_scene(scene_id) {
                    CommandStep::Await {
                        call: GatewayCall::UpdateSceneNorth { scene_id, direction },
                        pending: PendingCommand::Primary {
                            action: EditorAction::SetNorthDirection { scene_id, direction },
                        },
                    }
                } else {
                    finish_error("Scene not found.")
                }
            },
            EditorAction::ChangeAddress { address: _ } => finish_success("Address updated."),
            EditorAction::AddFloorplan { file_path: _ } => finish_success(
                "Floorplan functionality not yet implemented.",
            ),
            EditorAction::DeleteFloorplan { floorplan_id: _ } => finish_success(
                "Floorplan functionality not yet implemented.",
            ),
            EditorAction::AddFloorplanConnection { scene_id: _ } => finish_success(
                "Floorplan functionality not yet implemented.",
            ),
            EditorAction::DeleteFloorplanConnection { scene_id: _ } => finish_success(
                "Floorplan functionality not yet implemented.",
            ),
        }
    }

    /// Second processor phase: takes the gateway's reply for the pending
    /// command and applies the command to the graph — only on a success
    /// reply; a failed write leaves the graph exactly as it was and yields
    /// exactly one error event. The behaviour is exactly `resume_model`.
    pub fn resume_action(&mut self, pending: PendingCommand, reply: GatewayReply) -> (r:
        CommandStep)
        requires
            old(self).wf(),
        ensures
            final(self).wf(),
            final(self)@ == resume_model(old(self)@, pending@, reply).0,
            r@ == resume_model(old(self)@, pending@, reply).1,
    {
        match pending {
            PendingCommand::Primary { action } => match action {
                EditorAction::AddScene { name, file_path } => self.resume_add_scene(
                    name, file_path, reply,
                ),
                EditorAction::SwapScene { scene_id, new_file_path } => self.resume_swap_scene(
                    scene_id, new_file_path, reply,
                ),
                EditorAction::DeleteScene { scene_id } => self.resume_delete_scene(
                    scene_id, reply,
                ),
                EditorAction::SetInitialScene { scene_id } => self.resume_set_initial_scene(
                    scene_id, reply,
                ),
                EditorAction::UpdateSceneName { scene_id, name } => self.resume_update_scene_name(
                    scene_id, name, reply,
                ),
                EditorAction::AddCloseup {
                    name,
                    file_path,
                    parent_scene_id,
                    position,
                    icon_type,
                } => self.resume_add_closeup(name, file_path, parent_scene_id, position,
                    icon_type, reply),
                EditorAction::AddConnection { start_scene_id, asset_id, position, name } =>
                    self.resume_add_connection(start_scene_id, asset_id, position, name, reply),
                EditorAction::EditConnection {
                    connection_id,
                    new_asset_id,
                    new_position,
                    new_name,
                    new_icon_type,
                    new_file_path,
                } => self.resume_edit_connection(connection_id, new_asset_id, new_position,
                    new_name, new_icon_type, new_file_path, reply),
                EditorAction::DeleteConnection { connection_id } => self.resume_delete_connection(
                    connection_id, reply,
                ),
                EditorAction::SetInitialView { scene_id, position, fov } =>
                    self.resume_set_initial_view(scene_id, position, fov, reply),
                EditorAction::SetNorthDirection { scene_id, direction } =>
                    self.resume_set_north_direction(scene_id, direction, reply),
                EditorAction::ChangeAddress { address: _ } => finish_success("Address updated."),
                EditorAction::AddFloorplan { file_path: _ } => finish_success(
                    "Floorplan functionality not yet implemented.",
                ),
                EditorAction::DeleteFloorplan { floorplan_id: _ } => finish_success(
                    "Floorplan functionality not yet implemented.",
                ),
                EditorAction::AddFloorplanConnection { scene_id: _ } => finish_success(
                    "Floorplan functionality not yet implemented.",
                ),
                EditorAction::DeleteFloorplanConnection { scene_id: _ } => finish_success(
                    "Floorplan functionality not yet implemented.",
                ),
            },
            PendingCommand::CloseupLink {
                name,
                file_path,
                parent_scene_id,
                position,
                icon_type,
                asset_id,
            } => self.resume_closeup_link(name, file_path, parent_scene_id, position, icon_type,
                asset_id, reply),
        }
    }

    fn resume_add_scene(&mut self, name: String, file_path: String, reply: GatewayReply) -> (r:
        CommandStep)
        requires
            old(self).wf(),
        ensures
            final(self).wf(),
            final(self)@ == resume_primary_model(old(self)@, EditorActionView::AddScene {
                name: name@,
                file_path: file_path@,
            }, reply).0,
            r@ == resume_primary_model(old(self)@, EditorActionView::AddScene {
                name: name@,
                file_path: file_path@,
            }, reply).1,
    {
        match reply {
            GatewayReply::Created { id } => {
                let was_empty = self.graph.scene_count() == 0;
                let ok = self.graph.insert_scene(id, name.clone(), file_path.clone());
                if ok {
                    let follow = if was_empty {
                        Some(GatewayCall::SetInitialScene { tour_id: self.tour_id, scene_id: id })
                    } else {
                        None
                    };
                    finish_one(EditorEvent::SceneAdded { name, file_path, id }, follow)
                } else {
                    finish_error("Failed to save scene to database")
                }
            },
            _ => finish_error("Failed to save scene to database"),
        }
    }

    fn resume_swap_scene(&mut self, scene_id: i32, new_file_path: String, reply: GatewayReply)
        -> (r: CommandStep)
        requires
            old(self).wf(),
        ensures
            final(self).wf(),
            final(self)@ == resume_primary_model(old(self)@, EditorActionView::SwapScene {
                scene_id,
                new_file_path: new_file_path@,
            }, reply).0,
            r@ == resume_primary_model(old(self)@, EditorActionView::SwapScene {
                scene_id,
                new_file_path: new_file_path@,
            }, reply).1,
    {
        match reply {
            GatewayReply::Failed => finish_error("Failed to update scene in database"),
            _ => {
                if self.graph.set_scene_file_path(scene_id, new_file_path.clone()) {
                    finish_one(EditorEvent::SceneSwapped { scene_id, new_file_path }, None)
                } else {
                    finish_error("Scene not found.")
                }
            },
        }
    }

    #[verifier::loop_isolation(false)]
    fn resume_delete_scene(&mut self, scene_id: i32, reply: GatewayReply) -> (r: CommandStep)
        requires
            old(self).wf(),
        ensures
            final(self).wf(),
            final(self)@ == resume_primary_model(old(self)@, EditorActionView::DeleteScene {
                scene_id,
            }, reply).0,
            r@ == resume_primary_model(old(self)@, EditorActionView::DeleteScene {
                scene_id,
            }, reply).1,
    {
        match reply {
            GatewayReply::Failed => finish_error("Failed to delete scene from database"),
            _ => {
                let was_current = match self.graph.current_scene_id() {
                    Some(cur) => cur == scene_id,
                    None => false,
                };
                match self.graph.remove_scene(scene_id) {
                    Some(ids) => {
                        let mut events: Vec<EditorEvent> = Vec::new();
                        events.push(EditorEvent::SceneDeleted { scene_id });
                        let n = ids.len();
                        let mut i: usize = 0;
                        while i < n
                            invariant
                                i <= n,
                                n == ids@.len(),
                                events@.map_values(|e: EditorEvent| e@) =~= delete_scene_events(
                                    scene_id,
                                    ids@.subrange(0, i as int),
                                ),
                            decreases n - i,
                        {
                            events.push(EditorEvent::ConnectionDeleted { connection_id: ids[i] });
                            proof {
                                let sd = seq![EditorEventView::SceneDeleted { scene_id }];
                                let m = ids@.subrange(0, i as int)
                                    .map_values(|cid: i32| EditorEventView::ConnectionDeleted {
                                        connection_id: cid,
                                    });
                                let x = EditorEventView::ConnectionDeleted {
                                    connection_id: ids@[i as int],
                                };
                                Seq::push_distributes_over_add(sd, m, x);
                                assert(m.push(x)
                                    =~= ids@.subrange(0, i as int + 1)
                                        .map_values(|cid: i32| EditorEventView::ConnectionDeleted {
                                            connection_id: cid,
                                        }));
                                assert(events@.map_values(|e: EditorEvent| e@)
                                    =~= (sd + m).push(x));
                                assert(events@.map_values(|e: EditorEvent| e@)
                                    =~= delete_scene_events(scene_id,
                                        ids@.subrange(0, i as int + 1)));
                            }
                            i = i + 1;
                        }
                        proof {
                            assert(ids@.subrange(0, n as int) =~= ids@);
                        }
                        let follow = if was_current {
                            match self.graph.current_scene_id() {
                                Some(new_id) => Some(GatewayCall::SetInitialScene {
                                    tour_id: self.tour_id,
                                    scene_id: new_id,
                                }),
                                None => Some(GatewayCall::ClearInitialScene {
                                    tour_id: self.tour_id,
                                }),
                            }
                        } else {
                            None
                        };
                        CommandStep::Finished { events, follow_up: follow }
                    },
                    None => finish_error("Scene not found."),
                }
            },
        }
    }

    fn resume_set_initial_scene(&mut self, scene_id: i32, reply: GatewayReply) -> (r: CommandStep)
        requires
            old(self).wf(),
        ensures
            final(self).wf(),
            final(self)@ == resume_primary_model(old(self)@, EditorActionView::SetInitialScene {
                scene_id,
            }, reply).0,
            r@ == resume_primary_model(old(self)@, EditorActionView::SetInitialScene {
                scene_id,
            }, reply).1,
    {
        match reply {
            GatewayReply::Failed => finish_error("Failed to set initial scene in database"),
            _ => {
                if self.graph.set_current_scene(scene_id) {
                    finish_success("Initial scene set.")
                } else {
                    finish_error("Scene not found.")
                }
            },
        }
    }

    fn resume_update_scene_name(&mut self, scene_id: i32, name: String, reply: GatewayReply)
        -> (r: CommandStep)
        requires
            old(self).wf(),
        ensures
            final(self).wf(),
            final(self)@ == resume_primary_model(old(self)@, EditorActionView::UpdateSceneName {
                scene_id,
                name: name@,
            }, reply).0,
            r@ == resume_primary_model(old(self)@, EditorActionView::UpdateSceneName {
                scene_id,
                name: name@,
            }, reply).1,
    {
        match reply {
            GatewayReply::Failed => finish_error("Failed to update scene name in database"),
            _ => {
                if self.graph.set_scene_name(scene_id, name) {
                    finish_success("Scene name updated.")
                } else {
                    finish_error("Scene not found.")
                }
            },
        }
    }

    fn resume_add_closeup(
        &mut self,
        name: String,
        file_path: String,
        parent_scene_id: i32,
        position: Coordinates,
        icon_type: Option<i32>,
        reply: GatewayReply,
    ) -> (r: CommandStep)
        requires
            old(self).wf(),
        ensures
            final(self).wf(),
            final(self)@ == resume_primary_model(old(self)@, EditorActionView::AddCloseup {
                name: name@,
                file_path: file_path@,
                parent_scene_id,
                position,
                icon_type,
            }, reply).0,
            r@ == resume_primary_model(old(self)@, EditorActionView::AddCloseup {
                name: name@,
                file_path: file_path@,
                parent_scene_id,
                position,
                icon_type,
            }, reply).1,
    {
        match reply {
            GatewayReply::Created { id } => CommandStep::Await {
                call: GatewayCall::CreateConnection {
                    tour_id: self.tour_id,
                    start_scene_id: parent_scene_id,
                    target_id: id,
                    position,
                    is_transition: false,
                    name: Some(name.clone()),
                    file_path: Some(file_path.clone()),
                    icon_type,
                },
                pending: PendingCommand::CloseupLink {
                    name,
                    file_path,
                    parent_scene_id,
                    position,
                    icon_type,
                    asset_id: id,
                },
            },
            _ => finish_error("Failed to save closeup to database"),
        }
    }

    fn resume_add_connection(
        &mut self,
        start_scene_id: i32,
        asset_id: i32,
        position: Coordinates,
        name: Option<String>,
        reply: GatewayReply,
    ) -> (r: CommandStep)
        requires
            old(self).wf(),
        ensures
            final(self).wf(),
            final(self)@ == resume_primary_model(old(self)@, EditorActionView::AddConnection {
                start_scene_id,
                asset_id,
                position,
                name: opt_string_view(name),
            }, reply).0,
            r@ == resume_primary_model(old(self)@, EditorActionView::AddConnection {
                start_scene_id,
                asset_id,
                position,
                name: opt_string_view(name),
            }, reply).1,
    {
        match reply {
            GatewayReply::Created { id } => {
                proof {
                    self.graph.lemma_connection_index_is_conn_ids();
                }
                let connection = Connection {
                    id,
                    connection_type: ConnectionType::Transition,
                    target_scene_id: asset_id,
                    position,
                    name,
                    icon_index: None,
                };
                if self.graph.insert_connection(start_scene_id, connection) {
                    finish_one(EditorEvent::ConnectionAdded {
                        connection_id: id,
                        start_scene: start_scene_id,
                        target_scene: asset_id,
                    }, None)
                } else {
                    finish_error("Failed to save connection to database")
                }
            },
            _ => finish_error("Failed to save connection to database"),
        }
    }

    fn resume_edit_connection(
        &mut self,
        connection_id: i32,
        new_asset_id: i32,
        new_position: Coordinates,
        new_name: Option<String>,
        new_icon_type: Option<i32>,
        new_file_path: Option<String>,
        reply: GatewayReply,
    ) -> (r: CommandStep)
        requires
            old(self).wf(),
        ensures
            final(self).wf(),
            final(self)@ == resume_primary_model(old(self)@, EditorActionView::EditConnection {
                connection_id,
                new_asset_id,
                new_position,
                new_name: opt_string_view(new_name),
                new_icon_type,
                new_file_path: opt_string_view(new_file_path),
            }, reply).0,
            r@ == resume_primary_model(old(self)@, EditorActionView::EditConnection {
                connection_id,
                new_asset_id,
                new_position,
                new_name: opt_string_view(new_name),
                new_icon_type,
                new_file_path: opt_string_view(new_file_path),
            }, reply).1,
    {
        match reply {
            GatewayReply::Failed => finish_error("Failed to update connection in database"),
            _ => {
                let is_closeup = match self.graph.find_connection(connection_id) {
                    Some(c) => match c.connection_type {
                        ConnectionType::Closeup => true,
                        ConnectionType::Transition => false,
                    },
                    None => false,
                };
                proof {
                    self.graph.lemma_connection_index_is_conn_ids();
                    if self.graph.has_connection(connection_id) {
                        self.graph.lemma_conn_pos_agrees(connection_id);
                        let ss = self@.graph.scenes;
                        let (k, l) = conn_pos(ss, connection_id);
                        assert(self.graph.connection_index_view()[connection_id].0 == ss[k].id);
                        assert(self.graph.connection_index_view()[connection_id].1 as int == l);
                        assert(scene_pos(ss, ss[k].id) == k);
                    }
                }
                let patch = ConnectionPatch {
                    new_target_id: new_asset_id,
                    new_position,
                    new_name,
                    new_icon_index: new_icon_type,
                };
                if self.graph.mutate_connection(connection_id, patch) {
                    let follow = if is_closeup && new_asset_id != 0 {
                        match new_file_path {
                            Some(fp) => Some(GatewayCall::UpdateAssetFile {
                                asset_id: new_asset_id,
                                file_path: fp,
                            }),
                            None => None,
                        }
                    } else {
                        None
                    };
                    finish_one(EditorEvent::ConnectionEdited { connection_id }, follow)
                } else {
                    finish_error("Connection not found.")
                }
            },
        }
    }

    fn resume_delete_connection(&mut self, connection_id: i32, reply: GatewayReply) -> (r:
        CommandStep)
        requires
            old(self).wf(),
        ensures
            final(self).wf(),
            final(self)@ == resume_primary_model(old(self)@, EditorActionView::DeleteConnection {
                connection_id,
            }, reply).0,
            r@ == resume_primary_model(old(self)@, EditorActionView::DeleteConnection {
                connection_id,
            }, reply).1,
    {
        match reply {
            GatewayReply::Failed => finish_error("Failed to delete connection from database"),
            _ => {
                proof {
                    self.graph.lemma_connection_index_is_conn_ids();
                    if self.graph.has_connection(connection_id) {
                        self.graph.lemma_conn_pos_agrees(connection_id);
                        let ss = self@.graph.scenes;
                        let (k, l) = conn_pos(ss, connection_id);
                        assert(self.graph.connection_index_view()[connection_id].0 == ss[k].id);
                        assert(self.graph.connection_index_view()[connection_id].1 as int == l);
                        assert(scene_pos(ss, ss[k].id) == k);
                    }
                }
                if self.graph.remove_connection(connection_id) {
                    finish_one(EditorEvent::ConnectionDeleted { connection_id }, None)
                } else {
                    finish_error("Connection not found.")
                }
            },
        }
    }

    fn resume_set_initial_view(
        &mut self,
        scene_id: i32,
        position: Coordinates,
        fov: Option<u32>,
        reply: GatewayReply,
    ) -> (r: CommandStep)
        requires
            old(self).wf(),
        ensures
            final(self).wf(),
            final(self)@ == resume_primary_model(old(self)@, EditorActionView::SetInitialView {
                scene_id,
                position,
                fov,
            }, reply).0,
            r@ == resume_primary_model(old(self)@, EditorActionView::SetInitialView {
                scene_id,
                position,
                fov,
            }, reply).1,
    {
        match reply {
            GatewayReply::Failed => finish_error("Failed to update scene in database"),
            _ => {
                if self.graph.set_initial_view(scene_id, position) {
                    finish_success("Initial view position saved.")
                } else {
                    finish_error("Scene not found.")
                }
            },
        }
    }

    fn resume_set_north_direction(&mut self, scene_id: i32, direction: u32, reply: GatewayReply)
        -> (r: CommandStep)
        requires
            old(self).wf(),
        ensures
            final(self).wf(),
            final(self)@ == resume_primary_model(old(self)@,
                EditorActionView::SetNorthDirection { scene_id, direction }, reply).0,
            r@ == resume_primary_model(old(self)@,
                EditorActionView::SetNorthDirection { scene_id, direction }, reply).1,
    {
        match reply {
            GatewayReply::Failed => finish_error("Failed to update scene in database"),
            _ => {
                if self.graph.set_north_direction(scene_id, direction) {
                    finish_success("North direction saved.")
                } else {
                    finish_error("Scene not found.")
                }
            },
        }
    }

    fn resume_closeup_link(
        &mut self,
        name: String,
        file_path: String,
        parent_scene_id: i32,
        position: Coordinates,
        icon_type: Option<i32>,
        asset_id: i32,
        reply: GatewayReply,
    ) -> (r: CommandStep)
        requires
            old(self).wf(),
        ensures
            final(self).wf(),
            final(self)@ == resume_model(old(self)@, PendingCommandView::CloseupLink {
                name: name@,
                file_path: file_path@,
                parent_scene_id,
                position,
                icon_type,
                asset_id,
            }, reply).0,
            r@ == resume_model(old(self)@, PendingCommandView::CloseupLink {
                name: name@,
                file_path: file_path@,
                parent_scene_id,
                position,
                icon_type,
                asset_id,
            }, reply).1,
    {
        match reply {
            GatewayReply::Created { id } => {
                proof {
                    self.graph.lemma_connection_index_is_conn_ids();
                }
                let connection = Connection {
                    id,
                    connection_type: ConnectionType::Closeup,
                    target_scene_id: asset_id,
                    position,
                    name: Some(name.clone()),
                    icon_index: icon_type,
                };
                if self.graph.insert_connection(parent_scene_id, connection) {
                    let icon = match icon_type {
                        Some(v) => v,
                        None => 1,
                    };
                    finish_one(EditorEvent::CloseupAdded {
                        name,
                        file_path,
                        parent_scene: parent_scene_id,
                        connection_id: id,
                        icon_type: icon,
                    }, None)
                } else {
                    finish_error("Failed to save closeup connection")
                }
            },
            _ => finish_error("Failed to save closeup connection"),
        }
    }
}

} // verus!
