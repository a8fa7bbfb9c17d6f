//! The tour graph: scenes, connections, and the two lookup indices.
//!
//! A tour is an ordered collection of scenes (insertion order is display
//! order), each owning an ordered list of outgoing connections, plus a
//! nullable current/initial-scene pointer. Two derived indices give O(1)
//! lookup: scene id to position in the collection, and connection id to
//! (owning scene id, position within that scene's list).
//!
//! Every mutation goes through the methods of this module, which keep the
//! indices consistent with the collection: every indexed id resolves to a
//! live entity at the stated offset, no two connections share a non-zero id,
//! and the initial-scene pointer never names a scene that is gone.

use vstd::prelude::*;
use std::collections::HashMap;
use crate::coords::Coordinates;

verus! {

/// Whether a connection leads to another scene or to a close-up detail asset.
#[derive(Clone, Copy, Debug, PartialEq, Eq, Structural)]
pub enum ConnectionType {
    Transition,
    Closeup,
}

/// A directed link owned by exactly one scene. For a `Transition` the target
/// id names another scene; for a `Closeup` it names a detail asset. The id is
/// assigned by the persistence gateway; 0 is the sentinel for "unassigned".
#[derive(Clone, Debug)]
pub struct Connection {
    pub id: i32,
    pub connection_type: ConnectionType,
    pub target_scene_id: i32,
    pub position: Coordinates,
    pub name: Option<String>,
    pub icon_index: Option<i32>,
}

/// One navigable panorama node of a tour.
#[derive(Clone, Debug)]
pub struct Scene {
    pub id: i32,
    pub name: String,
    pub file_path: String,
    pub connections: Vec<Connection>,
    pub initial_view: Option<Coordinates>,
    pub north_direction: Option<u32>,
}

/// Mathematical model of a connection.
pub struct ConnectionView {
    pub id: i32,
    pub connection_type: ConnectionType,
    pub target_scene_id: i32,
    pub position: Coordinates,
    pub name: Option<Seq<char>>,
    pub icon_index: Option<i32>,
}

/// Mathematical model of a scene.
pub struct SceneView {
    pub id: i32,
    pub name: Seq<char>,
    pub file_path: Seq<char>,
    pub connections: Seq<ConnectionView>,
    pub initial_view: Option<Coordinates>,
    pub north_direction: Option<u32>,
}

impl View for Connection {
    type V = ConnectionView;

    open spec fn view(&self) -> ConnectionView {
        ConnectionView {
            id: self.id,
            connection_type: self.connection_type,
            target_scene_id: self.target_scene_id,
            position: self.position,
            name: match self.name {
                Some(n) => Some(n@),
                None => None,
            },
            icon_index: self.icon_index,
        }
    }
}

impl View for Scene {
    type V = SceneView;

    open spec fn view(&self) -> SceneView {
        SceneView {
            id: self.id,
            name: self.name@,
            file_path: self.file_path@,
            connections: self.connections@.map_values(|c: Connection| c@),
            initial_view: self.initial_view,
            north_direction: self.north_direction,
        }
    }
}

/// Mathematical model of a tour graph: the scene sequence and the pointer.
/// The two indices are derived data and do not appear in the model.
pub struct TourGraphView {
    pub scenes: Seq<SceneView>,
    pub current_scene_id: Option<i32>,
}

/// Whether some scene of `ss` has id `id`.
pub open spec fn has_scene_id(ss: Seq<SceneView>, id: i32) -> bool {
    exists|i: int| 0 <= i < ss.len() && ss[i].id == id
}

/// The position of the scene with id `id` in `ss` (meaningful when
/// `has_scene_id(ss, id)` holds and scene ids are distinct).
pub open spec fn scene_pos(ss: Seq<SceneView>, id: i32) -> int {
    choose|i: int| 0 <= i < ss.len() && ss[i].id == id
}

/// Whether some connection of some scene of `ss` has the (non-zero) id
/// `cid`. Sentinel-id connections are never addressable.
pub open spec fn has_conn_id(ss: Seq<SceneView>, cid: i32) -> bool {
    exists|k: int, l: int|
        0 <= k < ss.len() && 0 <= l < ss[k].connections.len()
        && ss[k].connections[l].id == cid && cid != 0
}

/// The (scene position, list position) of the connection with id `cid`
/// (meaningful when `has_conn_id(ss, cid)` holds and connection ids are
/// distinct).
pub open spec fn conn_pos(ss: Seq<SceneView>, cid: i32) -> (int, int) {
    choose|k: int, l: int|
        0 <= k < ss.len() && 0 <= l < ss[k].connections.len()
        && ss[k].connections[l].id == cid
}

/// No two scenes of `ss` share an id.
pub open spec fn scene_ids_distinct(ss: Seq<SceneView>) -> bool {
    forall|i: int, j: int| 0 <= i < j < ss.len() ==> ss[i].id != ss[j].id
}

/// No two connections anywhere in `ss` share a non-zero id.
pub open spec fn conn_ids_distinct(ss: Seq<SceneView>) -> bool {
    forall|i: int, j: int, k: int, l: int|
        0 <= i < ss.len() && 0 <= j < ss[i].connections.len()
        && 0 <= k < ss.len() && 0 <= l < ss[k].connections.len()
        && (i != k || j != l)
        && #[trigger] ss[i].connections[j].id != 0
        ==> ss[i].connections[j].id != #[trigger] ss[k].connections[l].id
}

/// The in-memory tour graph with its two derived indices.
///
/// The fields are private: all structural changes funnel through the methods
/// below, so no code path can leave an index pointing at a removed or moved
/// element.
pub struct TourGraph {
    scenes: Vec<Scene>,
    current_scene_id: Option<i32>,
    scene_index: HashMap<i32, usize>,
    connection_index: HashMap<i32, (i32, usize)>,
}

impl View for TourGraph {
    type V = TourGraphView;

    closed spec fn view(&self) -> TourGraphView {
        TourGraphView {
            scenes: self.scenes@.map_values(|s: Scene| s@),
            current_scene_id: self.current_scene_id,
        }
    }
}

impl TourGraph {
    /// The scene index, as a map from scene id to collection position.
    pub closed spec fn scene_index_view(&self) -> Map<i32, usize> {
        self.scene_index@
    }

    /// The connection index, as a map from connection id to
    /// (owning scene id, position in that scene's connection list).
    pub closed spec fn connection_index_view(&self) -> Map<i32, (i32, usize)> {
        self.connection_index@
    }

    /// Every scene is indexed at its true position, and every index entry
    /// resolves to a live scene with that id.
    spec fn scene_index_ok(&self) -> bool {
        &&& forall|i: int| 0 <= i < self@.scenes.len()
            ==> {
                let id = (#[trigger] self@.scenes[i]).id;
                self.scene_index@.contains_key(id) && self.scene_index@[id] == i
            }
        &&& forall|id: i32| #[trigger] self.scene_index@.contains_key(id)
            ==> {
                let si = self.scene_index@[id] as int;
                0 <= si < self@.scenes.len() && self@.scenes[si].id == id
            }
    }

    /// Every connection with a non-zero id is indexed at its true offset, and
    /// every index entry resolves to a live connection with that id.
    spec fn connection_index_ok(&self) -> bool {
        &&& forall|i: int, j: int|
            0 <= i < self@.scenes.len() && 0 <= j < self@.scenes[i].connections.len()
            && (#[trigger] self@.scenes[i].connections[j]).id != 0
            ==> {
                let cid = self@.scenes[i].connections[j].id;
                self.connection_index@.contains_key(cid)
                && self.connection_index@[cid] == (self@.scenes[i].id, j as usize)
            }
        &&& forall|cid: i32| #[trigger] self.connection_index@.contains_key(cid)
            ==> {
                let owner = self.connection_index@[cid].0;
                let ci = self.connection_index@[cid].1 as int;
                cid != 0
                && self.scene_index@.contains_key(owner)
                && ci < self@.scenes[self.scene_index@[owner] as int].connections.len()
                && self@.scenes[self.scene_index@[owner] as int].connections[ci].id == cid
            }
    }

    /// The invariant every public operation preserves: both indices agree
    /// with the scene collection and the initial-scene pointer, if non-null,
    /// names a live scene.
    pub closed spec fn wf(&self) -> bool {
        &&& self.scene_index_ok()
        &&& self.connection_index_ok()
        &&& match self@.current_scene_id {
            Some(id) => self.scene_index@.contains_key(id),
            None => true,
        }
    }

    /// Whether the graph has a scene with the given id.
    pub open spec fn has_scene(&self, id: i32) -> bool {
        has_scene_id(self@.scenes, id)
    }

    /// Whether the graph has an (indexed) connection with the given id.
    pub closed spec fn has_connection(&self, id: i32) -> bool {
        self.connection_index@.contains_key(id)
    }

    /// In a well-formed graph the scene index keys are exactly the live
    /// scene ids.
    pub proof fn lemma_scene_index_is_scene_ids(&self)
        requires
            self.wf(),
        ensures
            forall|id: i32| self.scene_index_view().contains_key(id) <==> has_scene_id(self@.scenes, id),
    {
        assert forall|id: i32| self.scene_index_view().contains_key(id) <==> has_scene_id(self@.scenes, id) by {
            if self.scene_index@.contains_key(id) {
                let si = self.scene_index@[id] as int;
                assert(0 <= si < self@.scenes.len() && self@.scenes[si].id == id);
            }
            if has_scene_id(self@.scenes, id) {
                let i = choose|i: int| 0 <= i < self@.scenes.len() && self@.scenes[i].id == id;
                assert(self.scene_index@.contains_key(self@.scenes[i].id));
            }
        }
    }

    /// In a well-formed graph the connection index keys are exactly the
    /// live non-zero connection ids.
    pub proof fn lemma_connection_index_is_conn_ids(&self)
        requires
            self.wf(),
        ensures
            forall|cid: i32| self.has_connection(cid) <==> has_conn_id(self@.scenes, cid),
    {
        assert forall|cid: i32| self.has_connection(cid) <==> has_conn_id(self@.scenes, cid) by {
            if self.connection_index@.contains_key(cid) {
                let owner = self.connection_index@[cid].0;
                let ci = self.connection_index@[cid].1 as int;
                let k = self.scene_index@[owner] as int;
                assert(0 <= k < self@.scenes.len() && self@.scenes[k].connections[ci].id == cid
                    && cid != 0);
            }
            if has_conn_id(self@.scenes, cid) {
                let (k, l) = choose|k: int, l: int|
                    0 <= k < self@.scenes.len() && 0 <= l < self@.scenes[k].connections.len()
                    && self@.scenes[k].connections[l].id == cid && cid != 0;
                assert(self.connection_index@.contains_key(self@.scenes[k].connections[l].id));
            }
        }
    }

    /// In a well-formed graph, the position `conn_pos` picks for an indexed
    /// connection id agrees with the connection index.
    pub proof fn lemma_conn_pos_agrees(&self, cid: i32)
        requires
            self.wf(),
            self.has_connection(cid),
        ensures
            ({
                let (k, l) = conn_pos(self@.scenes, cid);
                &&& 0 <= k < self@.scenes.len()
                &&& 0 <= l < self@.scenes[k].connections.len()
                &&& self@.scenes[k].connections[l].id == cid
                &&& self.connection_index_view()[cid] == (self@.scenes[k].id, l as usize)
                &&& self.connection_index_view()[cid].0 == self@.scenes[k].id
                &&& self.connection_index_view()[cid].1 as int == l
                &&& scene_pos(self@.scenes, self@.scenes[k].id) == k
            }),
    {
        self.lemma_connection_index_is_conn_ids();
        self.lemma_wf_scene_ids_distinct();
        let (k, l) = conn_pos(self@.scenes, cid);
        assert(0 <= k < self@.scenes.len() && 0 <= l < self@.scenes[k].connections.len()
            && self@.scenes[k].connections[l].id == cid) by {
            let (k0, l0) = choose|k0: int, l0: int|
                0 <= k0 < self@.scenes.len() && 0 <= l0 < self@.scenes[k0].connections.len()
                && self@.scenes[k0].connections[l0].id == cid && cid != 0;
            assert(0 <= k0 < self@.scenes.len() && 0 <= l0 < self@.scenes[k0].connections.len()
                && self@.scenes[k0].connections[l0].id == cid);
        }
        assert(self.connection_index@[cid] == (self@.scenes[k].id, l as usize));
        assert(self@.scenes[k].connections.len() <= usize::MAX) by {
            assert(vstd::std_specs::vec::spec_vec_len(&self.scenes@[k].connections)
                == self.scenes@[k].connections@.len());
        }
        assert(self.connection_index@[cid].1 as int == l);
        let p = scene_pos(self@.scenes, self@.scenes[k].id);
        assert(0 <= p < self@.scenes.len() && self@.scenes[p].id == self@.scenes[k].id);
        if p != k {
            assert(self.scene_index@[self@.scenes[p].id] == p);
            assert(self.scene_index@[self@.scenes[k].id] == k);
        }
    }

    /// In a well-formed graph no two scenes share an id.
    pub proof fn lemma_wf_scene_ids_distinct(&self)
        requires
            self.wf(),
        ensures
            scene_ids_distinct(self@.scenes),
    {
        assert forall|i: int, j: int| 0 <= i < j < self@.scenes.len()
            implies self@.scenes[i].id != self@.scenes[j].id by {
            let idi = self@.scenes[i].id;
            let idj = self@.scenes[j].id;
            assert(self.scene_index@[idi] == i);
            assert(self.scene_index@[idj] == j);
        }
    }

    /// In a well-formed graph no two connections share a non-zero id.
    pub proof fn lemma_wf_conn_ids_distinct(&self)
        requires
            self.wf(),
        ensures
            conn_ids_distinct(self@.scenes),
    {
        self.lemma_wf_scene_ids_distinct();
        assert forall|i: int, j: int, k: int, l: int|
            0 <= i < self@.scenes.len() && 0 <= j < self@.scenes[i].connections.len()
            && 0 <= k < self@.scenes.len() && 0 <= l < self@.scenes[k].connections.len()
            && (i != k || j != l)
            && #[trigger] self@.scenes[i].connections[j].id != 0
            implies self@.scenes[i].connections[j].id != #[trigger] self@.scenes[k].connections[l].id by {
            let cid = self@.scenes[i].connections[j].id;
            if self@.scenes[k].connections[l].id == cid {
                assert(self@.scenes[i].connections.len() <= usize::MAX) by {
                    assert(vstd::std_specs::vec::spec_vec_len(&self.scenes@[i].connections)
                        == self.scenes@[i].connections@.len());
                }
                assert(self@.scenes[k].connections.len() <= usize::MAX) by {
                    assert(vstd::std_specs::vec::spec_vec_len(&self.scenes@[k].connections)
                        == self.scenes@[k].connections@.len());
                }
                assert(self.connection_index@[cid] == (self@.scenes[i].id, j as usize));
                assert(self.connection_index@[cid] == (self@.scenes[k].id, l as usize));
                assert(self.scene_index@[self@.scenes[i].id] == i);
                assert(self.scene_index@[self@.scenes[k].id] == k);
            }
        }
    }

    /// An empty tour graph.
    pub fn new() -> (r: TourGraph)
        ensures
            r.wf(),
            r@.scenes == Seq::<SceneView>::empty(),
            r@.current_scene_id is None,
    {
        let r = TourGraph {
            scenes: Vec::new(),
            current_scene_id: None,
            scene_index: HashMap::new(),
            connection_index: HashMap::new(),
        };
        proof {
            assert(r@.scenes =~= Seq::<SceneView>::empty());
        }
        r
    }

    /// The number of scenes.
    pub fn scene_count(&self) -> (r: usize)
        ensures
            r == self@.scenes.len(),
    {
        self.scenes.len()
    }

    /// The current/initial scene pointer.
    pub fn current_scene_id(&self) -> (r: Option<i32>)
        ensures
            r == self@.current_scene_id,
    {
        self.current_scene_id
    }

    /// Read access to the scene collection, in display order.
    pub fn scenes(&self) -> (r: &Vec<Scene>)
        ensures
            r@.map_values(|s: Scene| s@) == self@.scenes,
    {
        &self.scenes
    }

    /// Position of a scene in the collection, through the scene index.
    fn lookup_scene(&self, scene_id: i32) -> (r: Option<usize>)
        requires
            self.wf(),
        ensures
            match r {
                Some(si) => {
                    &&& self.has_scene(scene_id)
                    &&& si < self@.scenes.len()
                    &&& self@.scenes[si as int].id == scene_id
                    &&& si as int == scene_pos(self@.scenes, scene_id)
                },
                None => !self.has_scene(scene_id),
            },
    {
        proof {
            self.lemma_scene_index_is_scene_ids();
            self.lemma_wf_scene_ids_distinct();
        }
        match self.scene_index.get(&scene_id) {
            Some(si_ref) => {
                let si = *si_ref;
                proof {
                    let p = scene_pos(self@.scenes, scene_id);
                    assert(0 <= p < self@.scenes.len() && self@.scenes[p].id == scene_id);
                    if p != si as int {
                        assert(self.scene_index@[self@.scenes[p].id] == p);
                    }
                }
                Some(si)
            },
            None => None,
        }
    }

    /// Whether a scene with this id exists, through the scene index.
    pub fn contains_scene(&self, scene_id: i32) -> (r: bool)
        requires
            self.wf(),
        ensures
            r == has_scene_id(self@.scenes, scene_id),
    {
        proof {
            self.lemma_scene_index_is_scene_ids();
        }
        self.scene_index.contains_key(&scene_id)
    }

    /// Whether a connection with this id is indexed, through the
    /// connection index.
    pub fn contains_connection(&self, connection_id: i32) -> (r: bool)
        requires
            self.wf(),
        ensures
            r == has_conn_id(self@.scenes, connection_id),
    {
        proof {
            self.lemma_connection_index_is_conn_ids();
        }
        self.connection_index.contains_key(&connection_id)
    }

    /// O(1) lookup of a scene by id through the scene index.
    pub fn find_scene(&self, scene_id: i32) -> (r: Option<&Scene>)
        requires
            self.wf(),
        ensures
            match r {
                Some(s) => {
                    &&& self.has_scene(scene_id)
                    &&& s@ == self@.scenes[scene_pos(self@.scenes, scene_id)]
                    &&& s@.id == scene_id
                },
                None => !self.has_scene(scene_id),
            },
    {
        proof {
            self.lemma_scene_index_is_scene_ids();
            self.lemma_wf_scene_ids_distinct();
        }
        match self.scene_index.get(&scene_id) {
            Some(si_ref) => {
                let si = *si_ref;
                let s = &self.scenes[si];
                proof {
                    let p = scene_pos(self@.scenes, scene_id);
                    assert(0 <= p < self@.scenes.len() && self@.scenes[p].id == scene_id);
                    if p != si as int {
                        assert(self.scene_index@[self@.scenes[p].id] == p);
                    }
                }
                Some(s)
            },
            None => None,
        }
    }

    /// O(1) lookup of a connection by id through the connection index.
    pub fn find_connection(&self, connection_id: i32) -> (r: Option<&Connection>)
        requires
            self.wf(),
        ensures
            match r {
                Some(c) => {
                    &&& self.has_connection(connection_id)
                    &&& {
                        let (owner, ci) = self.connection_index_view()[connection_id];
                        &&& has_scene_id(self@.scenes, owner)
                        &&& ci < self@.scenes[scene_pos(self@.scenes, owner)].connections.len()
                        &&& c@ == self@.scenes[scene_pos(self@.scenes, owner)].connections[ci as int]
                    }
                    &&& c@.id == connection_id
                },
                None => !self.has_connection(connection_id),
            },
    {
        proof {
            self.lemma_scene_index_is_scene_ids();
            self.lemma_wf_scene_ids_distinct();
        }
        match self.connection_index.get(&connection_id) {
            Some(entry) => {
                let owner = entry.0;
                let ci = entry.1;
                let si = match self.scene_index.get(&owner) {
                    Some(si_ref) => *si_ref,
                    None => {
                        proof {
                            assert(false);
                        }
                        0
                    },
                };
                proof {
                    let p = scene_pos(self@.scenes, owner);
                    assert(0 <= p < self@.scenes.len() && self@.scenes[p].id == owner);
                    if p != si as int {
                        assert(self.scene_index@[self@.scenes[p].id] == p);
                    }
                }
                Some(&self.scenes[si].connections[ci])
            },
            None => None,
        }
    }

    /// Appends a scene under a gateway-issued id and indexes it. If this is
    /// the first scene of the graph it becomes the initial scene. Rejected
    /// (no mutation) when a scene with this id already exists, so that a
    /// misbehaving id source can never corrupt the index.
    pub fn insert_scene(&mut self, scene_id: i32, name: String, file_path: String) -> (r: bool)
        requires
            old(self).wf(),
        ensures
            final(self).wf(),
            r == !old(self).has_scene(scene_id),
            r ==> final(self)@.scenes == old(self)@.scenes.push(fresh_scene_view(scene_id, name@, file_path@)),
            r ==> final(self)@.current_scene_id == (if old(self)@.scenes.len() == 0 {
                Some(scene_id)
            } else {
                old(self)@.current_scene_id
            }),
            !r ==> *final(self) == *old(self),
    {
        proof {
            self.lemma_scene_index_is_scene_ids();
        }
        if self.scene_index.contains_key(&scene_id) {
            return false;
        }
        let ghost name0 = name@;
        let ghost path0 = file_path@;
        let si = self.scenes.len();
        let scene = Scene {
            id: scene_id,
            name,
            file_path,
            connections: Vec::new(),
            initial_view: None,
            north_direction: None,
        };
        let ghost sv = scene@;
        proof {
            assert(sv.connections =~= Seq::<ConnectionView>::empty());
            assert(sv =~~= fresh_scene_view(scene_id, name0, path0));
        }
        self.scenes.push(scene);
        self.scene_index.insert(scene_id, si);
        if si == 0 {
            self.current_scene_id = Some(scene_id);
        }
        proof {
            assert(self@.scenes =~~= old(self)@.scenes.push(sv));
        }
        true
    }

    /// Replaces the image asset reference of a scene. Rejected when the id
    /// is unknown.
    pub fn set_scene_file_path(&mut self, scene_id: i32, new_file_path: String) -> (r: bool)
        requires
            old(self).wf(),
        ensures
            final(self).wf(),
            r == old(self).has_scene(scene_id),
            r ==> {
                let p = scene_pos(old(self)@.scenes, scene_id);
                final(self)@.scenes == old(self)@.scenes.update(p, SceneView {
                    file_path: new_file_path@,
                    ..old(self)@.scenes[p]
                })
            },
            r ==> final(self)@.current_scene_id == old(self)@.current_scene_id,
            !r ==> *final(self) == *old(self),
    {
        match self.lookup_scene(scene_id) {
            Some(si) => {
                self.scenes[si].file_path = new_file_path;
                proof {
                    let p = scene_pos(old(self)@.scenes, scene_id);
                    assert(self@.scenes =~= old(self)@.scenes.update(p, SceneView {
                        file_path: new_file_path@,
                        ..old(self)@.scenes[p]
                    }));
                }
                true
            },
            None => false,
        }
    }

    /// Renames a scene. Rejected when the id is unknown.
    pub fn set_scene_name(&mut self, scene_id: i32, new_name: String) -> (r: bool)
        requires
            old(self).wf(),
        ensures
            final(self).wf(),
            r == old(self).has_scene(scene_id),
            r ==> {
                let p = scene_pos(old(self)@.scenes, scene_id);
                final(self)@.scenes == old(self)@.scenes.update(p, SceneView {
                    name: new_name@,
                    ..old(self)@.scenes[p]
                })
            },
            r ==> final(self)@.current_scene_id == old(self)@.current_scene_id,
            !r ==> *final(self) == *old(self),
    {
        match self.lookup_scene(scene_id) {
            Some(si) => {
                self.scenes[si].name = new_name;
                proof {
                    let p = scene_pos(old(self)@.scenes, scene_id);
                    assert(self@.scenes =~= old(self)@.scenes.update(p, SceneView {
                        name: new_name@,
                        ..old(self)@.scenes[p]
                    }));
                }
                true
            },
            None => false,
        }
    }

    /// Stores the initial-view position of a scene. Rejected when the id is
    /// unknown.
    pub fn set_initial_view(&mut self, scene_id: i32, position: Coordinates) -> (r: bool)
        requires
            old(self).wf(),
        ensures
            final(self).wf(),
            r == old(self).has_scene(scene_id),
            r ==> {
                let p = scene_pos(old(self)@.scenes, scene_id);
                final(self)@.scenes == old(self)@.scenes.update(p, SceneView {
                    initial_view: Some(position),
                    ..old(self)@.scenes[p]
                })
            },
            r ==> final(self)@.current_scene_id == old(self)@.current_scene_id,
            !r ==> *final(self) == *old(self),
    {
        match self.lookup_scene(scene_id) {
            Some(si) => {
                self.scenes[si].initial_view = Some(position);
                proof {
                    let p = scene_pos(old(self)@.scenes, scene_id);
                    assert(self@.scenes =~= old(self)@.scenes.update(p, SceneView {
                        initial_view: Some(position),
                        ..old(self)@.scenes[p]
                    }));
                }
                true
            },
            None => false,
        }
    }

    /// Stores the north direction of a scene (bit pattern of the client's
    /// 32-bit angle). Rejected when the id is unknown.
    pub fn set_north_direction(&mut self, scene_id: i32, direction_bits: u32) -> (r: bool)
        requires
            old(self).wf(),
        ensures
            final(self).wf(),
            r == old(self).has_scene(scene_id),
            r ==> {
                let p = scene_pos(old(self)@.scenes, scene_id);
                final(self)@.scenes == old(self)@.scenes.update(p, SceneView {
                    north_direction: Some(direction_bits),
                    ..old(self)@.scenes[p]
                })
            },
            r ==> final(self)@.current_scene_id == old(self)@.current_scene_id,
            !r ==> *final(self) == *old(self),
    {
        match self.lookup_scene(scene_id) {
            Some(si) => {
                self.scenes[si].north_direction = Some(direction_bits);
                proof {
                    let p = scene_pos(old(self)@.scenes, scene_id);
                    assert(self@.scenes =~= old(self)@.scenes.update(p, SceneView {
                        north_direction: Some(direction_bits),
                        ..old(self)@.scenes[p]
                    }));
                }
                true
            },
            None => false,
        }
    }

    /// Appends a connection to the scene that owns it and indexes it under
    /// its id. Rejected (no mutation) when the owner scene id is unknown, or
    /// when the connection carries a non-zero id that is already indexed —
    /// accepting the latter would let two live connections share an id. A
    /// connection with the sentinel id 0 is stored but never indexed.
    pub fn insert_connection(&mut self, owner_scene_id: i32, connection: Connection) -> (r: bool)
        requires
            old(self).wf(),
        ensures
            final(self).wf(),
            r == (old(self).has_scene(owner_scene_id)
                && (connection@.id == 0 || !old(self).has_connection(connection@.id))),
            r ==> {
                let p = scene_pos(old(self)@.scenes, owner_scene_id);
                final(self)@.scenes == old(self)@.scenes.update(p, SceneView {
                    connections: old(self)@.scenes[p].connections.push(connection@),
                    ..old(self)@.scenes[p]
                })
            },
            r ==> final(self)@.current_scene_id == old(self)@.current_scene_id,
            r && connection@.id != 0 ==> final(self).has_connection(connection@.id),
            !r ==> *final(self) == *old(self),
    {
        let si = match self.lookup_scene(owner_scene_id) {
            Some(si) => si,
            None => {
                return false;
            },
        };
        if connection.id != 0 && self.connection_index.contains_key(&connection.id) {
            return false;
        }
        let cid = connection.id;
        let ghost cv = connection@;
        let ci = self.scenes[si].connections.len();
        self.scenes[si].connections.push(connection);
        if cid != 0 {
            self.connection_index.insert(cid, (owner_scene_id, ci));
        }
        proof {
            let p = scene_pos(old(self)@.scenes, owner_scene_id);
            assert(self.scenes@.len() == old(self).scenes@.len());
            assert(forall|i: int| 0 <= i < self.scenes@.len() && i != p
                ==> self.scenes@[i] == old(self).scenes@[i]);
            assert(self.scenes@[p].connections@.map_values(|c: Connection| c@)
                =~= old(self).scenes@[p].connections@.map_values(|c: Connection| c@).push(cv));
            assert(self@.scenes =~~= old(self)@.scenes.update(p, SceneView {
                connections: old(self)@.scenes[p].connections.push(cv),
                ..old(self)@.scenes[p]
            }));
            assert forall|i: int, j: int|
                0 <= i < self@.scenes.len() && 0 <= j < self@.scenes[i].connections.len()
                && (#[trigger] self@.scenes[i].connections[j]).id != 0
                implies {
                    let cid2 = self@.scenes[i].connections[j].id;
                    self.connection_index@.contains_key(cid2)
                    && self.connection_index@[cid2] == (self@.scenes[i].id, j as usize)
                } by {
                if i == p && j == ci as int {
                } else {
                    assert(self@.scenes[i].connections[j] == old(self)@.scenes[i].connections[j]);
                }
            }
            assert(self.connection_index_ok());
        }
        true
    }

    /// Position of a connection, through the connection index: the owning
    /// scene's collection position and the offset in its connection list.
    fn lookup_connection(&self, connection_id: i32) -> (r: Option<(usize, usize)>)
        requires
            self.wf(),
        ensures
            match r {
                Some((si, ci)) => {
                    &&& self.has_connection(connection_id)
                    &&& si < self@.scenes.len()
                    &&& ci < self@.scenes[si as int].connections.len()
                    &&& self@.scenes[si as int].connections[ci as int].id == connection_id
                    &&& self.connection_index_view()[connection_id]
                        == (self@.scenes[si as int].id, ci)
                    &&& si as int == scene_pos(self@.scenes, self@.scenes[si as int].id)
                },
                None => !self.has_connection(connection_id),
            },
    {
        proof {
            self.lemma_wf_scene_ids_distinct();
        }
        match self.connection_index.get(&connection_id) {
            Some(entry) => {
                let owner = entry.0;
                let ci = entry.1;
                let si = match self.scene_index.get(&owner) {
                    Some(si_ref) => *si_ref,
                    None => {
                        proof {
                            assert(false);
                        }
                        0
                    },
                };
                proof {
                    let p = scene_pos(self@.scenes, self@.scenes[si as int].id);
                    assert(0 <= p < self@.scenes.len()
                        && self@.scenes[p].id == self@.scenes[si as int].id);
                }
                Some((si, ci))
            },
            None => None,
        }
    }

    /// Applies a partial update to a connection in place: target and
    /// position always change, name and icon only when the patch supplies
    /// them. The id and the kind never change. Rejected when the id is not
    /// indexed.
    pub fn mutate_connection(&mut self, connection_id: i32, patch: ConnectionPatch) -> (r: bool)
        requires
            old(self).wf(),
        ensures
            final(self).wf(),
            r == old(self).has_connection(connection_id),
            r ==> {
                let owner = old(self).connection_index_view()[connection_id].0;
                let ci = old(self).connection_index_view()[connection_id].1 as int;
                let p = scene_pos(old(self)@.scenes, owner);
                final(self)@.scenes == old(self)@.scenes.update(p, SceneView {
                    connections: old(self)@.scenes[p].connections.update(ci,
                        apply_patch(old(self)@.scenes[p].connections[ci], patch@)),
                    ..old(self)@.scenes[p]
                })
            },
            r ==> final(self)@.current_scene_id == old(self)@.current_scene_id,
            !r ==> *final(self) == *old(self),
    {
        let (si, ci) = match self.lookup_connection(connection_id) {
            Some(pair) => pair,
            None => {
                return false;
            },
        };
        let ghost pv = patch@;
        self.scenes[si].connections[ci].target_scene_id = patch.new_target_id;
        self.scenes[si].connections[ci].position = patch.new_position;
        if patch.new_name.is_some() {
            self.scenes[si].connections[ci].name = patch.new_name;
        }
        if patch.new_icon_index.is_some() {
            self.scenes[si].connections[ci].icon_index = patch.new_icon_index;
        }
        proof {
            let owner = old(self).connection_index_view()[connection_id].0;
            let p = scene_pos(old(self)@.scenes, owner);
            assert(p == si as int);
            assert(self.scenes@.len() == old(self).scenes@.len());
            assert(forall|i: int| 0 <= i < self.scenes@.len() && i != p
                ==> self.scenes@[i] == old(self).scenes@[i]);
            assert(self.scenes@[p].connections@.map_values(|c: Connection| c@)
                =~= old(self).scenes@[p].connections@.map_values(|c: Connection| c@).update(
                    ci as int,
                    apply_patch(old(self)@.scenes[p].connections[ci as int], pv)));
            assert(self@.scenes =~~= old(self)@.scenes.update(p, SceneView {
                connections: old(self)@.scenes[p].connections.update(ci as int,
                    apply_patch(old(self)@.scenes[p].connections[ci as int], pv)),
                ..old(self)@.scenes[p]
            }));
            assert forall|i: int, j: int|
                0 <= i < self@.scenes.len() && 0 <= j < self@.scenes[i].connections.len()
                && (#[trigger] self@.scenes[i].connections[j]).id != 0
                implies {
                    let cid2 = self@.scenes[i].connections[j].id;
                    self.connection_index@.contains_key(cid2)
                    && self.connection_index@[cid2] == (self@.scenes[i].id, j as usize)
                } by {
                if i == p && j == ci as int {
                    assert(self@.scenes[i].connections[j].id
                        == old(self)@.scenes[i].connections[j].id);
                } else {
                    assert(self@.scenes[i].connections[j] == old(self)@.scenes[i].connections[j]);
                }
            }
            assert(self.connection_index_ok());
        }
        true
    }

    /// Removes a connection from its owning scene's list and drops it from
    /// the index; the entries for the connections after it in the same list
    /// are re-derived, since their positions shift down by one. Rejected
    /// when the id is not indexed.
    #[verifier::loop_isolation(false)]
    pub fn remove_connection(&mut self, connection_id: i32) -> (r: bool)
        requires
            old(self).wf(),
        ensures
            final(self).wf(),
            r == old(self).has_connection(connection_id),
            r ==> {
                let owner = old(self).connection_index_view()[connection_id].0;
                let ci = old(self).connection_index_view()[connection_id].1 as int;
                let p = scene_pos(old(self)@.scenes, owner);
                final(self)@.scenes == old(self)@.scenes.update(p, SceneView {
                    connections: old(self)@.scenes[p].connections.remove(ci),
                    ..old(self)@.scenes[p]
                })
            },
            r ==> final(self)@.current_scene_id == old(self)@.current_scene_id,
            r ==> !final(self).has_connection(connection_id),
            !r ==> *final(self) == *old(self),
    {
        let (si, ci) = match self.lookup_connection(connection_id) {
            Some(pair) => pair,
            None => {
                return false;
            },
        };
        proof {
            self.lemma_wf_conn_ids_distinct();
        }
        let owner = self.scenes[si].id;
        self.connection_index.remove(&connection_id);
        self.scenes[si].connections.remove(ci);
        let ghost mid = *self;
        let ghost p = si as int;
        let ghost newc = self@.scenes[p].connections;
        let ghost oldc = old(self)@.scenes[p].connections;
        proof {
            assert(mid.connection_index@ == old(self).connection_index@.remove(connection_id));
            assert(newc =~= oldc.remove(ci as int));
            // elements of the shortened list are pairwise distinct in their
            // non-zero ids, because they were in the whole old graph
            assert forall|m1: int, m2: int|
                0 <= m1 < newc.len() && 0 <= m2 < newc.len() && m1 != m2
                && (#[trigger] newc[m1]).id != 0
                implies newc[m1].id != (#[trigger] newc[m2]).id by {
                let o1: int = if m1 < ci as int { m1 } else { m1 + 1 };
                let o2: int = if m2 < ci as int { m2 } else { m2 + 1 };
                assert(newc[m1] == old(self)@.scenes[p].connections[o1]);
                assert(newc[m2] == old(self)@.scenes[p].connections[o2]);
            }
            // no element of the shortened list carries the removed id
            assert forall|m: int| 0 <= m < newc.len()
                implies (#[trigger] newc[m]).id != connection_id by {
                let o: int = if m < ci as int { m } else { m + 1 };
                assert(newc[m] == old(self)@.scenes[p].connections[o]);
                if newc[m].id == connection_id {
                    assert(old(self)@.scenes[p].connections[ci as int].id == connection_id);
                }
            }
        }
        let n = self.scenes[si].connections.len();
        let mut k = ci;
        while k < n
            invariant
                ci <= k <= n,
                si < self.scenes@.len(),
                p == si as int,
                n == self.scenes@[p].connections@.len(),
                *self == (TourGraph {
                    connection_index: self.connection_index,
                    ..mid
                }),
                newc == self@.scenes[p].connections,
                owner == self@.scenes[p].id,
                forall|m: int| ci as int <= m < k
                    && (#[trigger] newc[m]).id != 0
                    ==> self.connection_index@.contains_key(newc[m].id)
                        && self.connection_index@[newc[m].id] == (owner, m as usize),
                forall|cid2: i32| #[trigger] self.connection_index@.contains_key(cid2)
                    <==> mid.connection_index@.contains_key(cid2),
                forall|cid2: i32| #[trigger] self.connection_index@.contains_key(cid2)
                    ==> (self.connection_index@[cid2] == mid.connection_index@[cid2]
                        || exists|m: int| ci as int <= m < k
                            && (#[trigger] newc[m]).id == cid2),
            decreases n - k,
        {
            let cid2 = self.scenes[si].connections[k].id;
            if cid2 != 0 {
                proof {
                    // this id is already a key: it was indexed in the old
                    // graph at the position one past its new one
                    assert(old(self)@.scenes[p].connections[k + 1].id == cid2);
                    assert(old(self).connection_index@.contains_key(cid2));
                    assert(cid2 != connection_id);
                }
                self.connection_index.insert(cid2, (owner, k));
                proof {
                    assert(exists|m: int| ci as int <= m < k + 1
                        && (#[trigger] newc[m]).id == cid2) by {
                        assert(newc[k as int].id == cid2);
                    }
                }
            }
            k = k + 1;
        }
        proof {
            assert(k == n);
        }
        proof {
            let ownerg = old(self).connection_index_view()[connection_id].0;
            let cig = old(self).connection_index_view()[connection_id].1 as int;
            assert(ownerg == owner);
            assert(cig == ci as int);
            assert(scene_pos(old(self)@.scenes, ownerg) == p) by {
                assert(old(self)@.scenes[old(self).scene_index_view()[ownerg] as int].id == ownerg);
            }
            assert(self.scenes@.len() == old(self).scenes@.len());
            assert(forall|i: int| 0 <= i < self.scenes@.len() && i != p
                ==> self.scenes@[i] == old(self).scenes@[i]);
            assert(self.scenes@[p].connections@.map_values(|c: Connection| c@)
                =~= old(self).scenes@[p].connections@.map_values(|c: Connection| c@).remove(cig));
            assert(self@.scenes =~~= old(self)@.scenes.update(p, SceneView {
                connections: old(self)@.scenes[p].connections.remove(cig),
                ..old(self)@.scenes[p]
            }));
            // scene ids and positions are untouched
            assert(forall|i: int| 0 <= i < self@.scenes.len()
                ==> (#[trigger] self@.scenes[i]).id == old(self)@.scenes[i].id);
            assert(self.scene_index_ok());
            // completeness: every live non-zero connection id is indexed at
            // its true offset
            assert forall|i: int, j: int|
                0 <= i < self@.scenes.len() && 0 <= j < self@.scenes[i].connections.len()
                && (#[trigger] self@.scenes[i].connections[j]).id != 0
                implies {
                    let cid2 = self@.scenes[i].connections[j].id;
                    self.connection_index@.contains_key(cid2)
                    && self.connection_index@[cid2] == (self@.scenes[i].id, j as usize)
                } by {
                let cid2 = self@.scenes[i].connections[j].id;
                if i == p && j >= ci as int {
                    assert(self.connection_index@[cid2] == (owner, j as usize));
                } else {
                    // the entry is the old one: the key was neither removed
                    // nor overwritten by the re-derivation loop
                    let oj: int = if i == p { j } else { j };
                    assert(self@.scenes[i].connections[j]
                        == old(self)@.scenes[i].connections[oj]);
                    assert(old(self).connection_index@[cid2]
                        == (old(self)@.scenes[i].id, oj as usize));
                    assert(cid2 != connection_id) by {
                        if cid2 == connection_id {
                            assert(old(self).connection_index@[connection_id]
                                == (owner, ci));
                            assert(old(self)@.scenes[i].id == owner);
                            assert(i == p);
                        }
                    }
                    assert(mid.connection_index@.contains_key(cid2));
                    assert(mid.connection_index@[cid2] == old(self).connection_index@[cid2]);
                    assert(!(exists|m: int| ci as int <= m < n
                        && (#[trigger] newc[m]).id == cid2)) by {
                        if exists|m: int| ci as int <= m < n && (#[trigger] newc[m]).id == cid2 {
                            let m = choose|m: int| ci as int <= m < n
                                && (#[trigger] newc[m]).id == cid2;
                            assert(newc[m] == old(self)@.scenes[p].connections[m + 1]);
                            assert(old(self).connection_index@[cid2]
                                == (owner, (m + 1) as usize));
                            assert((oldc[m + 1].id != 0));
                            assert(old(self)@.scenes[i].connections[j].id == cid2);
                            assert((old(self)@.scenes[i].id, j as usize)
                                == (owner, (m + 1) as usize));
                            assert(i == p);
                            assert(j as usize == (m + 1) as usize);
                            assert(0 <= j <= usize::MAX) by {
                                assert(vstd::std_specs::vec::spec_vec_len(
                                    &self.scenes@[i].connections)
                                    == self.scenes@[i].connections@.len());
                            }
                            assert(j == m + 1);
                            assert(j >= ci as int + 1);
                        }
                    }
                    assert(self.connection_index@.contains_key(cid2));
                    assert(self.connection_index@[cid2] == mid.connection_index@[cid2]);
                    assert(self.connection_index@[cid2] == old(self).connection_index@[cid2]);
                }
            }
            // soundness: every index entry resolves to a live connection
            assert forall|cid2: i32| #[trigger] self.connection_index@.contains_key(cid2)
                implies {
                    let owner2 = self.connection_index@[cid2].0;
                    let c2 = self.connection_index@[cid2].1 as int;
                    cid2 != 0
                    && self.scene_index@.contains_key(owner2)
                    && c2 < self@.scenes[self.scene_index@[owner2] as int].connections.len()
                    && self@.scenes[self.scene_index@[owner2] as int].connections[c2].id == cid2
                } by {
                assert(mid.connection_index@.contains_key(cid2));
                assert(old(self).connection_index@.contains_key(cid2));
                assert(cid2 != connection_id);
                if exists|m: int| ci as int <= m < n && (#[trigger] newc[m]).id == cid2 {
                    let m = choose|m: int| ci as int <= m < n && (#[trigger] newc[m]).id == cid2;
                    assert(newc[m].id != 0) by {
                        assert(newc[m] == old(self)@.scenes[p].connections[m + 1]);
                        assert(old(self).connection_index@[cid2]
                            == (owner, (m + 1) as usize));
                    }
                    assert(self.connection_index@[cid2] == (owner, m as usize));
                    assert(self.scene_index@[owner] == si);
                } else {
                    assert(self.connection_index@[cid2] == old(self).connection_index@[cid2]);
                    let owner2 = self.connection_index@[cid2].0;
                    let c2 = old(self).connection_index@[cid2].1 as int;
                    let s2 = old(self).scene_index@[owner2] as int;
                    assert(old(self)@.scenes[s2].connections[c2].id == cid2);
                    if s2 == p {
                        assert(owner2 == owner);
                        if c2 > ci as int {
                            assert(newc[c2 - 1] == old(self)@.scenes[p].connections[c2]);
                            assert(false);
                        } else if c2 == ci as int {
                            assert(cid2 == connection_id);
                            assert(false);
                        } else {
                            assert(newc[c2] == old(self)@.scenes[p].connections[c2]);
                        }
                    } else {
                        assert(self@.scenes[s2].connections[c2]
                            == old(self)@.scenes[s2].connections[c2]);
                    }
                }
            }
            assert(self.connection_index_ok());
            assert(!self.connection_index@.contains_key(connection_id));
        }
        true
    }

    /// Rebuilds both indices from scratch to reflect the scene collection.
    /// Meaningful only when ids are already distinct, which every public
    /// operation guarantees.
    #[verifier::loop_isolation(false)]
    fn rebuild_indices(&mut self)
        requires
            scene_ids_distinct(old(self)@.scenes),
            conn_ids_distinct(old(self)@.scenes),
        ensures
            final(self)@ == old(self)@,
            final(self).scene_index_ok(),
            final(self).connection_index_ok(),
    {
        self.scene_index.clear();
        self.connection_index.clear();
        let n = self.scenes.len();
        let mut i: usize = 0;
        while i < n
            invariant
                i <= n,
                n == self.scenes@.len(),
                self.scenes == old(self).scenes,
                self.current_scene_id == old(self).current_scene_id,
                forall|k: int| 0 <= k < i
                    ==> self.scene_index@.contains_key((#[trigger] self@.scenes[k]).id)
                        && self.scene_index@[self@.scenes[k].id] == k,
                forall|id: i32| #[trigger] self.scene_index@.contains_key(id)
                    ==> {
                        let si = self.scene_index@[id] as int;
                        0 <= si < i && self@.scenes[si].id == id
                    },
                forall|a: int, b: int|
                    0 <= a < i && 0 <= b < self@.scenes[a].connections.len()
                    && (#[trigger] self@.scenes[a].connections[b]).id != 0
                    ==> {
                        let cid = self@.scenes[a].connections[b].id;
                        self.connection_index@.contains_key(cid)
                        && self.connection_index@[cid] == (self@.scenes[a].id, b as usize)
                    },
                forall|cid: i32| #[trigger] self.connection_index@.contains_key(cid)
                    ==> {
                        let owner = self.connection_index@[cid].0;
                        let ci = self.connection_index@[cid].1 as int;
                        cid != 0
                        && self.scene_index@.contains_key(owner)
                        && (self.scene_index@[owner] as int) < i
                        && ci < self@.scenes[self.scene_index@[owner] as int].connections.len()
                        && self@.scenes[self.scene_index@[owner] as int].connections[ci].id == cid
                    },
            decreases n - i,
        {
            let sid = self.scenes[i].id;
            self.scene_index.insert(sid, i);
            let m = self.scenes[i].connections.len();
            let mut j: usize = 0;
            while j < m
                invariant
                    j <= m,
                    i < n,
                    m == self.scenes@[i as int].connections@.len(),
                    sid == self@.scenes[i as int].id,
                    self.scenes == old(self).scenes,
                    self.current_scene_id == old(self).current_scene_id,
                    forall|k: int| 0 <= k <= i
                        ==> self.scene_index@.contains_key((#[trigger] self@.scenes[k]).id)
                            && self.scene_index@[self@.scenes[k].id] == k,
                    forall|id: i32| #[trigger] self.scene_index@.contains_key(id)
                        ==> {
                            let si = self.scene_index@[id] as int;
                            0 <= si <= i && self@.scenes[si].id == id
                        },
                    forall|a: int, b: int|
                        0 <= a < self@.scenes.len() && 0 <= b < self@.scenes[a].connections.len()
                        && (a < i || (a == i && b < j))
                        && (#[trigger] self@.scenes[a].connections[b]).id != 0
                        ==> {
                            let cid = self@.scenes[a].connections[b].id;
                            self.connection_index@.contains_key(cid)
                            && self.connection_index@[cid] == (self@.scenes[a].id, b as usize)
                        },
                    forall|cid: i32| #[trigger] self.connection_index@.contains_key(cid)
                        ==> {
                            let owner = self.connection_index@[cid].0;
                            let ci = self.connection_index@[cid].1 as int;
                            let a = self.scene_index@[owner] as int;
                            cid != 0
                            && self.scene_index@.contains_key(owner)
                            && a <= i
                            && (a < i || ci < j)
                            && ci < self@.scenes[a].connections.len()
                            && self@.scenes[a].connections[ci].id == cid
                        },
                decreases m - j,
            {
                let cid = self.scenes[i].connections[j].id;
                if cid != 0 {
                    proof {
                        // no earlier connection shares this id
                        assert forall|a: int, b: int|
                            0 <= a < self@.scenes.len()
                            && 0 <= b < self@.scenes[a].connections.len()
                            && (a != i as int || b != j as int)
                            && (#[trigger] self@.scenes[a].connections[b]).id != 0
                            implies self@.scenes[a].connections[b].id != cid by {
                            assert(self@.scenes[i as int].connections[j as int].id == cid);
                        }
                    }
                    self.connection_index.insert(cid, (sid, j));
                }
                j = j + 1;
            }
            i = i + 1;
        }
        proof {
            assert(self@ =~~= old(self)@);
        }
    }

    /// Drops the connections of scene `i` that target `scene_id`, appending
    /// their ids to `removed` in list order; everything else is untouched.
    /// The indices are not adjusted: the caller rebuilds them.
    #[verifier::loop_isolation(false)]
    fn cascade_one_scene(&mut self, i: usize, scene_id: i32, removed: &mut Vec<i32>)
        requires
            i < old(self)@.scenes.len(),
        ensures
            final(self)@.scenes.len() == old(self)@.scenes.len(),
            forall|k: int| 0 <= k < old(self)@.scenes.len() && k != i as int
                ==> #[trigger] final(self)@.scenes[k] == old(self)@.scenes[k],
            final(self)@.scenes[i as int]
                == cascade_scene(old(self)@.scenes[i as int], scene_id),
            final(self)@.current_scene_id == old(self)@.current_scene_id,
            final(self).scene_index == old(self).scene_index,
            final(self).connection_index == old(self).connection_index,
            final(removed)@ == old(removed)@
                + dropped_conn_ids(old(self)@.scenes[i as int].connections, scene_id),
    {
        let ghost cs = self@.scenes[i as int].connections;
        let ghost n = self@.scenes.len();
        let mi = self.scenes[i].connections.len();
        let mut kept: Vec<Connection> = Vec::new();
        let mut t: usize = 0;
        while t < mi
            invariant
                t <= mi,
                i < n,
                mi == cs.len(),
                n == self.scenes@.len(),
                self.current_scene_id == old(self).current_scene_id,
                self.scene_index == old(self).scene_index,
                self.connection_index == old(self).connection_index,
                forall|k: int| 0 <= k < n && k != i as int
                    ==> #[trigger] self@.scenes[k] == old(self)@.scenes[k],
                self@.scenes[i as int].connections =~= cs.subrange(t as int, mi as int),
                self@.scenes[i as int] == (SceneView {
                    connections: self@.scenes[i as int].connections,
                    ..old(self)@.scenes[i as int]
                }),
                kept@.map_values(|c: Connection| c@)
                    =~= keep_connections(cs.subrange(0, t as int), scene_id),
                removed@ =~= old(removed)@
                    + dropped_conn_ids(cs.subrange(0, t as int), scene_id),
            decreases mi - t,
        {
            proof {
                assert(cs.subrange(0, t as int + 1).drop_last() =~= cs.subrange(0, t as int));
                assert(cs.subrange(0, t as int + 1).last() == cs[t as int]);
                assert(self@.scenes[i as int].connections[0] == cs[t as int]);
            }
            let ghost prevlist = self@.scenes[i as int].connections;
            let ghost prevvec = self.scenes@[i as int].connections@;
            let ghost prevexec = self.scenes@;
            let ghost prevview = self@.scenes;
            let c = self.scenes[i].connections.remove(0);
            proof {
                assert(forall|k: int| 0 <= k < n && k != i as int
                    ==> self.scenes@[k] == prevexec[k]);
                assert(forall|k: int| 0 <= k < n && k != i as int
                    ==> #[trigger] self@.scenes[k] == prevview[k]);
                assert(c@ == cs[t as int]);
                assert(self.scenes@[i as int].connections@ =~= prevvec.remove(0));
                assert(self@.scenes[i as int].connections =~= prevlist.remove(0));
                assert(prevlist.remove(0) =~= cs.subrange(t as int + 1, mi as int));
            }
            if c.target_scene_id == scene_id {
                removed.push(c.id);
            } else {
                kept.push(c);
            }
            t = t + 1;
        }
        let ghost before_assign = self@.scenes;
        let ghost before_exec = self.scenes@;
        self.scenes[i].connections = kept;
        proof {
            assert(self.scenes@.len() == before_assign.len());
            assert(forall|k: int| 0 <= k < n && k != i as int
                ==> self.scenes@[k] == before_exec[k]);
            assert(forall|k: int| 0 <= k < n && k != i as int
                ==> #[trigger] self@.scenes[k] == before_assign[k]);
            assert(cs.subrange(0, mi as int) =~= cs);
            assert(self@.scenes[i as int] =~~= cascade_scene(old(self)@.scenes[i as int],
                scene_id));
        }
    }

    /// Removes a scene and cascades: every connection owned by it and every
    /// connection elsewhere that targets it are removed too, both indices
    /// are rebuilt, and if the removed scene was the initial scene the
    /// pointer moves to the first remaining scene, or is cleared when none
    /// remain. Returns the ids of all removed connections — first the ones
    /// the scene owned, then, scene by scene in display order, the ones
    /// that targeted it — so the caller can notify every observer. Rejected
    /// when the id is unknown.
    #[verifier::loop_isolation(false)]
    pub fn remove_scene(&mut self, scene_id: i32) -> (r: Option<Vec<i32>>)
        requires
            old(self).wf(),
        ensures
            final(self).wf(),
            r is Some <==> old(self).has_scene(scene_id),
            r matches Some(ids) ==> {
                let p = scene_pos(old(self)@.scenes, scene_id);
                &&& final(self)@.scenes == cascade_scenes(old(self)@.scenes, scene_id)
                &&& ids@ == owned_conn_ids(old(self)@.scenes[p])
                    + incoming_removed_ids(old(self)@.scenes.remove(p), scene_id)
                &&& final(self)@.current_scene_id == (
                    if old(self)@.current_scene_id == Some(scene_id) {
                        if final(self)@.scenes.len() == 0 {
                            None
                        } else {
                            Some(final(self)@.scenes[0].id)
                        }
                    } else {
                        old(self)@.current_scene_id
                    })
            },
            r is None ==> *final(self) == *old(self),
    {
        let si = match self.lookup_scene(scene_id) {
            Some(si) => si,
            None => {
                return None;
            },
        };
        proof {
            self.lemma_wf_scene_ids_distinct();
            self.lemma_wf_conn_ids_distinct();
        }
        let ghost p = si as int;
        let mut removed: Vec<i32> = Vec::new();
        // the connections the scene itself owns
        let m0 = self.scenes[si].connections.len();
        let mut j: usize = 0;
        while j < m0
            invariant
                j <= m0,
                *self == *old(self),
                removed@.len() == j,
                forall|t: int| 0 <= t < j
                    ==> removed@[t] == old(self)@.scenes[p].connections[t].id,
            decreases m0 - j,
        {
            let cid = self.scenes[si].connections[j].id;
            removed.push(cid);
            j = j + 1;
        }
        proof {
            assert(removed@ =~= owned_conn_ids(old(self)@.scenes[p]));
        }
        // drop the scene itself
        self.scenes.remove(si);
        let ghost base = old(self)@.scenes.remove(p);
        proof {
            assert(self@.scenes =~= base);
        }
        let ghost owned = removed@;
        // drop the connections that target it, collecting their ids
        let n = self.scenes.len();
        let mut i: usize = 0;
        while i < n
            invariant
                i <= n,
                n == self.scenes@.len(),
                n == base.len(),
                self.current_scene_id == old(self).current_scene_id,
                self.scene_index == old(self).scene_index,
                self.connection_index == old(self).connection_index,
                forall|k: int| 0 <= k < i
                    ==> #[trigger] self@.scenes[k] == cascade_scene(base[k], scene_id),
                forall|k: int| i <= k < n ==> #[trigger] self@.scenes[k] == base[k],
                removed@ == owned + incoming_removed_ids(base.subrange(0, i as int), scene_id),
            decreases n - i,
        {
            let ghost cs = base[i as int].connections;
            let ghost removed_at_entry = removed@;
            proof {
                assert(incoming_removed_ids(base.subrange(0, i as int + 1), scene_id)
                    == incoming_removed_ids(base.subrange(0, i as int), scene_id)
                        + dropped_conn_ids(cs, scene_id)) by {
                    assert(base.subrange(0, i as int + 1).drop_last()
                        =~= base.subrange(0, i as int));
                    assert(base.subrange(0, i as int + 1).last() == base[i as int]);
                }
            }
            self.cascade_one_scene(i, scene_id, &mut removed);
            proof {
                assert(self@.scenes[i as int] == cascade_scene(base[i as int], scene_id));
            }
            i = i + 1;
        }
        proof {
            assert(base.subrange(0, n as int) =~= base);
            assert(self@.scenes =~~= base.map_values(|s: SceneView| cascade_scene(s, scene_id)));
        }
        // repair the initial-scene pointer
        let was_current = match self.current_scene_id {
            Some(cur) => cur == scene_id,
            None => false,
        };
        if was_current {
            if self.scenes.len() > 0 {
                let first_id = self.scenes[0].id;
                self.current_scene_id = Some(first_id);
            } else {
                self.current_scene_id = None;
            }
        }
        // ids are still distinct, so the indices can be re-derived
        proof {
            lemma_cascade_ids_distinct(old(self)@.scenes, p, scene_id, self@.scenes);
        }
        self.rebuild_indices();
        proof {
            // the pointer, if set, names a live scene
            match self@.current_scene_id {
                Some(cur2) => {
                    if old(self)@.current_scene_id == Some(scene_id) {
                        assert(self@.scenes.len() > 0 && cur2 == self@.scenes[0].id);
                        assert(self.scene_index@.contains_key(self@.scenes[0].id));
                    } else {
                        assert(old(self)@.current_scene_id == Some(cur2));
                        let q = old(self).scene_index_view()[cur2] as int;
                        assert(old(self)@.scenes[q].id == cur2);
                        assert(q != p);
                        let q2: int = if q < p { q } else { q - 1 };
                        assert(base[q2].id == cur2);
                        assert(self@.scenes[q2].id == cur2);
                        assert(self.scene_index@.contains_key(self@.scenes[q2].id));
                    }
                },
                None => {},
            }
            assert(self.wf());
            // the result is the cascade of the old collection
            assert(scene_pos(old(self)@.scenes, scene_id) == p) by {
                let p2 = scene_pos(old(self)@.scenes, scene_id);
                assert(0 <= p2 < old(self)@.scenes.len()
                    && old(self)@.scenes[p2].id == scene_id);
            }
            assert(self@.scenes == cascade_scenes(old(self)@.scenes, scene_id));
        }
        Some(removed)
    }

    /// Clears the current/initial scene pointer.
    pub fn clear_current_scene(&mut self)
        requires
            old(self).wf(),
        ensures
            final(self).wf(),
            final(self)@ == (TourGraphView {
                current_scene_id: None,
                ..old(self)@
            }),
    {
        self.current_scene_id = None;
    }

    /// Repoints the current/initial scene. Rejected when the id is unknown,
    /// so the pointer can never name a scene that does not exist.
    pub fn set_current_scene(&mut self, scene_id: i32) -> (r: bool)
        requires
            old(self).wf(),
        ensures
            final(self).wf(),
            r == old(self).has_scene(scene_id),
            r ==> final(self)@ == (TourGraphView {
                current_scene_id: Some(scene_id),
                ..old(self)@
            }),
            !r ==> *final(self) == *old(self),
    {
        match self.lookup_scene(scene_id) {
            Some(_si) => {
                self.current_scene_id = Some(scene_id);
                true
            },
            None => false,
        }
    }
}

/// A partial update for a connection: the target and position always
/// replace the old values, the name and icon only when supplied.
#[derive(Clone, Debug)]
pub struct ConnectionPatch {
    pub new_target_id: i32,
    pub new_position: Coordinates,
    pub new_name: Option<String>,
    pub new_icon_index: Option<i32>,
}

/// Mathematical model of a connection patch.
pub struct ConnectionPatchView {
    pub new_target_id: i32,
    pub new_position: Coordinates,
    pub new_name: Option<Seq<char>>,
    pub new_icon_index: Option<i32>,
}

impl View for ConnectionPatch {
    type V = ConnectionPatchView;

    open spec fn view(&self) -> ConnectionPatchView {
        ConnectionPatchView {
            new_target_id: self.new_target_id,
            new_position: self.new_position,
            new_name: match self.new_name {
                Some(n) => Some(n@),
                None => None,
            },
            new_icon_index: self.new_icon_index,
        }
    }
}

/// The result of applying a patch to a connection: the id and the kind are
/// kept, target and position are replaced, name and icon are replaced only
/// where the patch supplies a value.
pub open spec fn apply_patch(c: ConnectionView, p: ConnectionPatchView) -> ConnectionView {
    ConnectionView {
        id: c.id,
        connection_type: c.connection_type,
        target_scene_id: p.new_target_id,
        position: p.new_position,
        name: if p.new_name is Some {
            p.new_name
        } else {
            c.name
        },
        icon_index: if p.new_icon_index is Some {
            p.new_icon_index
        } else {
            c.icon_index
        },
    }
}

/// The model of a scene freshly created by `insert_scene`: no connections,
/// no initial view, no north direction.
pub open spec fn fresh_scene_view(id: i32, name: Seq<char>, file_path: Seq<char>) -> SceneView {
    SceneView {
        id: id,
        name: name,
        file_path: file_path,
        connections: Seq::empty(),
        initial_view: None,
        north_direction: None,
    }
}

/// The ids of a scene's connections, in list order.
pub open spec fn owned_conn_ids(s: SceneView) -> Seq<i32> {
    s.connections.map_values(|c: ConnectionView| c.id)
}

/// A connection list with every connection targeting `sid` removed; the
/// order of the kept connections is unchanged.
pub open spec fn keep_connections(cs: Seq<ConnectionView>, sid: i32) -> Seq<ConnectionView>
    decreases cs.len(),
{
    if cs.len() == 0 {
        Seq::empty()
    } else {
        let rest = keep_connections(cs.drop_last(), sid);
        if cs.last().target_scene_id == sid {
            rest
        } else {
            rest.push(cs.last())
        }
    }
}

/// The ids of the connections of a list that target `sid`, in list order.
pub open spec fn dropped_conn_ids(cs: Seq<ConnectionView>, sid: i32) -> Seq<i32>
    decreases cs.len(),
{
    if cs.len() == 0 {
        Seq::empty()
    } else {
        let rest = dropped_conn_ids(cs.drop_last(), sid);
        if cs.last().target_scene_id == sid {
            rest.push(cs.last().id)
        } else {
            rest
        }
    }
}

/// A scene after a cascade: same identity and fields, with the connections
/// that target the removed scene dropped.
pub open spec fn cascade_scene(s: SceneView, sid: i32) -> SceneView {
    SceneView {
        connections: keep_connections(s.connections, sid),
        ..s
    }
}

/// The scene collection after removing the scene with id `sid`: that scene
/// is gone, and every remaining scene loses its connections that target it.
pub open spec fn cascade_scenes(ss: Seq<SceneView>, sid: i32) -> Seq<SceneView> {
    ss.remove(scene_pos(ss, sid)).map_values(|s: SceneView| cascade_scene(s, sid))
}

/// The ids of the connections dropped from other scenes by a cascade, scene
/// by scene in display order (`ss` is the collection without the removed
/// scene itself).
pub open spec fn incoming_removed_ids(ss: Seq<SceneView>, sid: i32) -> Seq<i32>
    decreases ss.len(),
{
    if ss.len() == 0 {
        Seq::empty()
    } else {
        incoming_removed_ids(ss.drop_last(), sid) + dropped_conn_ids(ss.last().connections, sid)
    }
}

/// Index consistency: in a well-formed graph, every id in the connection
/// index maps to a connection that exists at the stated (scene, position)
/// offset, and every scene id in the scene index maps to its actual
/// collection position. This holds after every operation of `TourGraph`,
/// since each one requires and re-establishes `wf`.
pub proof fn lemma_index_consistency(g: &TourGraph)
    requires
        g.wf(),
    ensures
        forall|i: int| 0 <= i < g@.scenes.len()
            ==> g.scene_index_view().contains_key((#[trigger] g@.scenes[i]).id)
                && g.scene_index_view()[g@.scenes[i].id] == i,
        forall|id: i32| #[trigger] g.scene_index_view().contains_key(id)
            ==> 0 <= g.scene_index_view()[id] < g@.scenes.len()
                && g@.scenes[g.scene_index_view()[id] as int].id == id,
        forall|i: int, j: int|
            0 <= i < g@.scenes.len() && 0 <= j < g@.scenes[i].connections.len()
            && (#[trigger] g@.scenes[i].connections[j]).id != 0
            ==> g.connection_index_view().contains_key(g@.scenes[i].connections[j].id)
                && g.connection_index_view()[g@.scenes[i].connections[j].id]
                    == (g@.scenes[i].id, j as usize),
        forall|cid: i32| #[trigger] g.connection_index_view().contains_key(cid)
            ==> {
                let owner = g.connection_index_view()[cid].0;
                let ci = g.connection_index_view()[cid].1 as int;
                &&& cid != 0
                &&& g.scene_index_view().contains_key(owner)
                &&& ci < g@.scenes[g.scene_index_view()[owner] as int].connections.len()
                &&& g@.scenes[g.scene_index_view()[owner] as int].connections[ci].id == cid
            },
{
}

/// Initial-scene invariant: in a well-formed graph the current/initial
/// scene pointer is either null or names a scene that exists in the
/// collection — never a removed one.
pub proof fn lemma_initial_scene_valid(g: &TourGraph)
    requires
        g.wf(),
    ensures
        g@.current_scene_id matches Some(id) ==> has_scene_id(g@.scenes, id),
{
    g.lemma_scene_index_is_scene_ids();
}

/// Cascade completeness: after removing scene `sid`, no scene with that id
/// remains and no remaining connection targets it — a cascade leaves no
/// dangling reference in either direction. What each surviving scene keeps
/// is exactly its old connection list with the targeting entries dropped,
/// in order.
pub proof fn lemma_cascade_complete(ss: Seq<SceneView>, sid: i32)
    requires
        has_scene_id(ss, sid),
        scene_ids_distinct(ss),
    ensures
        cascade_scenes(ss, sid).len() == ss.len() - 1,
        forall|k: int| 0 <= k < cascade_scenes(ss, sid).len()
            ==> (#[trigger] cascade_scenes(ss, sid)[k]).id != sid,
        forall|k: int, l: int|
            0 <= k < cascade_scenes(ss, sid).len()
            && 0 <= l < cascade_scenes(ss, sid)[k].connections.len()
            ==> (#[trigger] cascade_scenes(ss, sid)[k].connections[l]).target_scene_id != sid,
        forall|k: int| 0 <= k < cascade_scenes(ss, sid).len()
            ==> (#[trigger] cascade_scenes(ss, sid)[k]).connections
                == keep_connections(ss.remove(scene_pos(ss, sid))[k].connections, sid),
{
    let p = scene_pos(ss, sid);
    assert(0 <= p < ss.len() && ss[p].id == sid);
    let base = ss.remove(p);
    let cur = cascade_scenes(ss, sid);
    assert forall|k: int| 0 <= k < cur.len()
        implies (#[trigger] cur[k]).id != sid by {
        let o: int = if k < p { k } else { k + 1 };
        assert(base[k].id == ss[o].id);
    }
    assert forall|k: int, l: int|
        0 <= k < cur.len() && 0 <= l < cur[k].connections.len()
        implies (#[trigger] cur[k].connections[l]).target_scene_id != sid by {
        assert(cur[k].connections == keep_connections(base[k].connections, sid));
        lemma_keep_connections_elem(base[k].connections, sid, l);
    }
}

/// A cascade keeps scene ids and connection ids distinct: the scenes are a
/// subset of the old ones and every kept connection was a connection of the
/// same scene before.
proof fn lemma_cascade_ids_distinct(oldss: Seq<SceneView>, p: int, sid: i32, cur: Seq<SceneView>)
    requires
        scene_ids_distinct(oldss),
        conn_ids_distinct(oldss),
        0 <= p < oldss.len(),
        cur == oldss.remove(p).map_values(|s: SceneView| cascade_scene(s, sid)),
    ensures
        scene_ids_distinct(cur),
        conn_ids_distinct(cur),
{
    let base = oldss.remove(p);
    assert forall|k1: int, k2: int| 0 <= k1 < k2 < cur.len()
        implies cur[k1].id != cur[k2].id by {
        let o1: int = if k1 < p { k1 } else { k1 + 1 };
        let o2: int = if k2 < p { k2 } else { k2 + 1 };
        assert(base[k1].id == oldss[o1].id);
        assert(base[k2].id == oldss[o2].id);
    }
    assert forall|k1: int, l1: int, k2: int, l2: int|
        0 <= k1 < cur.len() && 0 <= l1 < cur[k1].connections.len()
        && 0 <= k2 < cur.len() && 0 <= l2 < cur[k2].connections.len()
        && (k1 != k2 || l1 != l2)
        && (#[trigger] cur[k1].connections[l1]).id != 0
        implies cur[k1].connections[l1].id != (#[trigger] cur[k2].connections[l2]).id by {
        let o1: int = if k1 < p { k1 } else { k1 + 1 };
        let o2: int = if k2 < p { k2 } else { k2 + 1 };
        assert(cur[k1].connections == keep_connections(base[k1].connections, sid));
        assert(cur[k2].connections == keep_connections(base[k2].connections, sid));
        assert(base[k1].connections == oldss[o1].connections);
        assert(base[k2].connections == oldss[o2].connections);
        if k1 == k2 {
            let la: int = if l1 < l2 { l1 } else { l2 };
            let lb: int = if l1 < l2 { l2 } else { l1 };
            lemma_keep_connections_two(base[k1].connections, sid, la, lb);
            let (j1, j2) = choose|j1: int, j2: int|
                0 <= j1 < j2 < base[k1].connections.len()
                && base[k1].connections[j1]
                    == keep_connections(base[k1].connections, sid)[la]
                && base[k1].connections[j2]
                    == keep_connections(base[k1].connections, sid)[lb];
            assert(oldss[o1].connections[j1] == cur[k1].connections[la]);
            assert(oldss[o1].connections[j2] == cur[k1].connections[lb]);
        } else {
            lemma_keep_connections_elem(base[k1].connections, sid, l1);
            lemma_keep_connections_elem(base[k2].connections, sid, l2);
            let j1 = choose|j: int| 0 <= j < base[k1].connections.len()
                && base[k1].connections[j] == cur[k1].connections[l1];
            let j2 = choose|j: int| 0 <= j < base[k2].connections.len()
                && base[k2].connections[j] == cur[k2].connections[l2];
            assert(oldss[o1].connections[j1] == cur[k1].connections[l1]);
            assert(oldss[o2].connections[j2] == cur[k2].connections[l2]);
            assert(o1 != o2);
        }
    }
}

/// Every kept connection is one of the original connections, at some
/// original position, and does not target `sid`.
proof fn lemma_keep_connections_elem(cs: Seq<ConnectionView>, sid: i32, l: int)
    requires
        0 <= l < keep_connections(cs, sid).len(),
    ensures
        keep_connections(cs, sid)[l].target_scene_id != sid,
        exists|j: int| 0 <= j < cs.len() && cs[j] == keep_connections(cs, sid)[l],
    decreases cs.len(),
{
    let kept = keep_connections(cs, sid);
    let rest = keep_connections(cs.drop_last(), sid);
    if cs.last().target_scene_id == sid || l < rest.len() {
        lemma_keep_connections_elem(cs.drop_last(), sid, l);
        let j = choose|j: int| 0 <= j < cs.drop_last().len()
            && cs.drop_last()[j] == keep_connections(cs.drop_last(), sid)[l];
        assert(cs[j] == kept[l]);
    } else {
        assert(cs[cs.len() - 1] == kept[l]);
    }
}

/// Two distinct kept positions come from two distinct original positions,
/// in the same order.
proof fn lemma_keep_connections_two(cs: Seq<ConnectionView>, sid: i32, l1: int, l2: int)
    requires
        0 <= l1 < l2 < keep_connections(cs, sid).len(),
    ensures
        exists|j1: int, j2: int| 0 <= j1 < j2 < cs.len()
            && cs[j1] == keep_connections(cs, sid)[l1]
            && cs[j2] == keep_connections(cs, sid)[l2],
    decreases cs.len(),
{
    let kept = keep_connections(cs, sid);
    let rest = keep_connections(cs.drop_last(), sid);
    if cs.last().target_scene_id == sid || l2 < rest.len() {
        lemma_keep_connections_two(cs.drop_last(), sid, l1, l2);
        let (j1, j2) = choose|j1: int, j2: int| 0 <= j1 < j2 < cs.drop_last().len()
            && cs.drop_last()[j1] == keep_connections(cs.drop_last(), sid)[l1]
            && cs.drop_last()[j2] == keep_connections(cs.drop_last(), sid)[l2];
        assert(cs[j1] == kept[l1] && cs[j2] == kept[l2]);
    } else {
        lemma_keep_connections_elem(cs.drop_last(), sid, l1);
        let j1 = choose|j: int| 0 <= j < cs.drop_last().len()
            && cs.drop_last()[j] == keep_connections(cs.drop_last(), sid)[l1];
        assert(cs[j1] == kept[l1]);
        assert(cs[cs.len() - 1] == kept[l2]);
    }
}

} // verus!
