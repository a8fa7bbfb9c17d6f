//! Loading a tour graph from a stored snapshot.
//!
//! The persistence gateway hands back a tour as a tree of plain records:
//! one per scene, each with its connection records. Fields a row may lack
//! are optional, and this module applies the defaults: a missing id is the
//! sentinel 0, a missing name or path is empty, a connection without a
//! target is dropped, the initial view exists only when both coordinates
//! do, and the connection kind tag is matched case-insensitively against
//! `closeup`. Building the graph re-derives both indices, so a freshly
//! loaded graph is well-formed whatever the store contained.

use vstd::prelude::*;
use vstd::string::StrSliceExecFns;
use crate::coords::Coordinates;
use crate::graph::{
    has_scene_id, scene_pos, Connection, ConnectionType, ConnectionView, SceneView, TourGraph,
};

verus! {

/// One stored connection row, as the gateway returns it.
#[derive(Debug, Clone)]
pub struct ConnectionRecord {
    pub id: Option<i32>,
    pub target_scene_id: Option<i32>,
    pub position: Option<Coordinates>,
    pub name: Option<String>,
    pub connection_type: Option<String>,
    pub icon_index: Option<i32>,
}

/// Mathematical model of a connection record.
pub struct ConnectionRecordView {
    pub id: Option<i32>,
    pub target_scene_id: Option<i32>,
    pub position: Option<Coordinates>,
    pub name: Option<Seq<char>>,
    pub connection_type: Option<Seq<char>>,
    pub icon_index: Option<i32>,
}

impl View for ConnectionRecord {
    type V = ConnectionRecordView;

    open spec fn view(&self) -> ConnectionRecordView {
        ConnectionRecordView {
            id: self.id,
            target_scene_id: self.target_scene_id,
            position: self.position,
            name: match self.name {
                Some(n) => Some(n@),
                None => None,
            },
            connection_type: match self.connection_type {
                Some(t) => Some(t@),
                None => None,
            },
            icon_index: self.icon_index,
        }
    }
}

/// One stored scene row with its connection rows.
#[derive(Debug, Clone)]
pub struct SceneRecord {
    pub id: Option<i32>,
    pub name: Option<String>,
    pub file_path: Option<String>,
    pub initial_view_x: Option<u32>,
    pub initial_view_y: Option<u32>,
    pub north_dir: Option<u32>,
    pub connections: Vec<ConnectionRecord>,
}

/// Mathematical model of a scene record.
pub struct SceneRecordView {
    pub id: Option<i32>,
    pub name: Option<Seq<char>>,
    pub file_path: Option<Seq<char>>,
    pub initial_view_x: Option<u32>,
    pub initial_view_y: Option<u32>,
    pub north_dir: Option<u32>,
    pub connections: Seq<ConnectionRecordView>,
}

impl View for SceneRecord {
    type V = SceneRecordView;

    open spec fn view(&self) -> SceneRecordView {
        SceneRecordView {
            id: self.id,
            name: match self.name {
                Some(n) => Some(n@),
                None => None,
            },
            file_path: match self.file_path {
                Some(p) => Some(p@),
                None => None,
            },
            initial_view_x: self.initial_view_x,
            initial_view_y: self.initial_view_y,
            north_dir: self.north_dir,
            connections: self.connections@.map_values(|c: ConnectionRecord| c@),
        }
    }
}

/// The lower-cased code point of an ASCII letter; other characters are
/// unchanged.
pub open spec fn lower_code(c: char) -> int {
    let x = c as int;
    if 65 <= x <= 90 {
        x + 32
    } else {
        x
    }
}

/// Character equality up to ASCII case.
pub open spec fn ascii_eq_nocase(a: char, b: char) -> bool {
    lower_code(a) == lower_code(b)
}

/// String equality up to ASCII case.
pub open spec fn seq_eq_nocase(a: Seq<char>, b: Seq<char>) -> bool {
    a.len() == b.len() && forall|i: int| 0 <= i < a.len() ==> ascii_eq_nocase(a[i], b[i])
}

/// The connection kind a stored tag denotes: `closeup` in any ASCII casing
/// means a close-up; anything else, or no tag at all, is a transition.
pub open spec fn kind_of_tag(tag: Option<Seq<char>>) -> ConnectionType {
    match tag {
        Some(t) => if seq_eq_nocase(t, "closeup"@) {
            ConnectionType::Closeup
        } else {
            ConnectionType::Transition
        },
        None => ConnectionType::Transition,
    }
}

/// Character comparison up to ASCII case.
fn chars_eq_nocase(a: char, b: char) -> (r: bool)
    ensures
        r == ascii_eq_nocase(a, b),
{
    let xa = a as u32;
    let xb = b as u32;
    let la: u32 = if 65 <= xa && xa <= 90 {
        xa + 32
    } else {
        xa
    };
    let lb: u32 = if 65 <= xb && xb <= 90 {
        xb + 32
    } else {
        xb
    };
    la == lb
}

/// String comparison up to ASCII case.
fn str_eq_ignore_ascii_case(a: &str, b: &str) -> (r: bool)
    ensures
        r == seq_eq_nocase(a@, b@),
{
    let na = a.unicode_len();
    let nb = b.unicode_len();
    if na != nb {
        return false;
    }
    let mut i: usize = 0;
    while i < na
        invariant
            i <= na,
            na == a@.len(),
            na == b@.len(),
            forall|k: int| 0 <= k < i ==> ascii_eq_nocase(a@[k], b@[k]),
        decreases na - i,
    {
        if !chars_eq_nocase(a.get_char(i), b.get_char(i)) {
            return false;
        }
        i = i + 1;
    }
    true
}

/// The connection kind for a stored tag.
pub fn kind_for_tag(tag: &Option<String>) -> (r: ConnectionType)
    ensures
        r == kind_of_tag(match *tag {
            Some(t) => Some(t@),
            None => None,
        }),
{
    match tag {
        Some(t) => {
            if str_eq_ignore_ascii_case(t.as_str(), "closeup") {
                ConnectionType::Closeup
            } else {
                ConnectionType::Transition
            }
        },
        None => ConnectionType::Transition,
    }
}

/// The scene id a record denotes: the stored id, or the sentinel 0.
pub open spec fn record_scene_id(r: SceneRecordView) -> i32 {
    match r.id {
        Some(v) => v,
        None => 0,
    }
}

/// The connection a record denotes (meaningful when it has a target).
pub open spec fn conn_from_record(c: ConnectionRecordView) -> ConnectionView {
    ConnectionView {
        id: match c.id {
            Some(v) => v,
            None => 0,
        },
        connection_type: kind_of_tag(c.connection_type),
        target_scene_id: c.target_scene_id->Some_0,
        position: match c.position {
            Some(p) => p,
            None => Coordinates { x_bits: 0, y_bits: 0 },
        },
        name: c.name,
        icon_index: c.icon_index,
    }
}

/// The connections a record list denotes: records without a target are
/// dropped, order is kept.
pub open spec fn conns_from_records(cs: Seq<ConnectionRecordView>) -> Seq<ConnectionView>
    decreases cs.len(),
{
    if cs.len() == 0 {
        Seq::empty()
    } else {
        let rest = conns_from_records(cs.drop_last());
        if cs.last().target_scene_id is Some {
            rest.push(conn_from_record(cs.last()))
        } else {
            rest
        }
    }
}

/// The scene a record denotes, defaults applied: empty name and path when
/// missing, an initial view only when both coordinates are stored.
pub open spec fn scene_from_record(r: SceneRecordView) -> SceneView {
    SceneView {
        id: record_scene_id(r),
        name: match r.name {
            Some(n) => n,
            None => Seq::empty(),
        },
        file_path: match r.file_path {
            Some(p) => p,
            None => Seq::empty(),
        },
        connections: conns_from_records(r.connections),
        initial_view: if r.initial_view_x is Some && r.initial_view_y is Some {
            Some(Coordinates {
                x_bits: r.initial_view_x->Some_0,
                y_bits: r.initial_view_y->Some_0,
            })
        } else {
            None
        },
        north_direction: r.north_dir,
    }
}

/// The scene collection a snapshot denotes.
pub open spec fn scenes_from_records(rs: Seq<SceneRecordView>) -> Seq<SceneView> {
    rs.map_values(|r: SceneRecordView| scene_from_record(r))
}

/// A consistent snapshot: scene ids are pairwise distinct and non-zero
/// connection ids are pairwise distinct, as a store that maintained its
/// keys produces.
pub open spec fn snapshot_consistent(rs: Seq<SceneRecordView>) -> bool {
    &&& forall|i: int, j: int| 0 <= i < j < rs.len()
        ==> record_scene_id(#[trigger] rs[i]) != record_scene_id(#[trigger] rs[j])
    &&& forall|i: int, j: int, k: int, l: int|
        0 <= i < rs.len() && 0 <= j < rs[i].connections.len()
        && 0 <= k < rs.len() && 0 <= l < rs[k].connections.len()
        && (i != k || j != l)
        && conn_from_record(#[trigger] rs[i].connections[j]).id != 0
        ==> conn_from_record(rs[i].connections[j]).id
            != conn_from_record(#[trigger] rs[k].connections[l]).id
}

/// Every denoted connection comes from some record with a target.
proof fn lemma_conns_from_records_elem(cs: Seq<ConnectionRecordView>, l: int)
    requires
        0 <= l < conns_from_records(cs).len(),
    ensures
        exists|j: int| 0 <= j < cs.len() && cs[j].target_scene_id is Some
            && conn_from_record(cs[j]) == conns_from_records(cs)[l],
    decreases cs.len(),
{
    let out = conns_from_records(cs);
    let rest = conns_from_records(cs.drop_last());
    if cs.last().target_scene_id is None || l < rest.len() {
        lemma_conns_from_records_elem(cs.drop_last(), l);
        let j = choose|j: int| 0 <= j < cs.drop_last().len()
            && cs.drop_last()[j].target_scene_id is Some
            && conn_from_record(cs.drop_last()[j]) == conns_from_records(cs.drop_last())[l];
        assert(cs[j].target_scene_id is Some && conn_from_record(cs[j]) == out[l]);
    } else {
        assert(cs[cs.len() - 1].target_scene_id is Some
            && conn_from_record(cs[cs.len() - 1]) == out[l]);
    }
}

/// Builds the in-memory graph a snapshot denotes. The graph is well-formed
/// whatever the snapshot holds; when the snapshot is consistent — the only
/// thing a store that keeps unique keys produces — the result is exactly
/// the denoted scene collection, and the initial-scene pointer is the
/// stored one when that scene exists, or cleared when it does not.
#[verifier::loop_isolation(false)]
pub fn from_snapshot(records: Vec<SceneRecord>, initial_scene_id: Option<i32>) -> (r: TourGraph)
    ensures
        r.wf(),
        snapshot_consistent(records@.map_values(|rec: SceneRecord| rec@)) ==> {
            &&& r@.scenes == scenes_from_records(records@.map_values(|rec: SceneRecord| rec@))
            &&& r@.current_scene_id == (match initial_scene_id {
                Some(id) => if has_scene_id(r@.scenes, id) {
                    Some(id)
                } else {
                    None
                },
                None => None,
            })
        },
{
    let ghost base = records@.map_values(|rec: SceneRecord| rec@);
    let ghost consistent = snapshot_consistent(base);
    let mut g = TourGraph::new();
    let mut records = records;
    let n = records.len();
    let mut t: usize = 0;
    while t < n
        invariant
            t <= n,
            n == base.len(),
            records@.map_values(|rec: SceneRecord| rec@) =~= base.subrange(t as int, n as int),
            g.wf(),
            consistent ==> g@.scenes =~~= scenes_from_records(base.subrange(0, t as int)),
        decreases n - t,
    {
        proof {
            assert(records@.map_values(|rec2: SceneRecord| rec2@).len() == records@.len());
            assert(records@.len() == n - t);
            assert(records@.map_values(|rec2: SceneRecord| rec2@)[0]
                == base.subrange(t as int, n as int)[0]);
            assert(records@.map_values(|rec2: SceneRecord| rec2@)[0] == records@[0]@);
            assert(records@[0]@ == base[t as int]);
        }
        let ghost prevvec = records@;
        let rec = records.remove(0);
        proof {
            assert(records@ =~= prevvec.remove(0));
            assert(forall|x: int| 0 <= x < records@.len()
                ==> #[trigger] records@[x] == prevvec[x + 1]);
            assert forall|x: int| 0 <= x < records@.len()
                implies #[trigger] records@[x]@ == prevvec[x + 1]@
                    && prevvec.map_values(|rec2: SceneRecord| rec2@)[x + 1]
                        == prevvec[x + 1]@ by {
                assert(0 <= x + 1 < prevvec.len());
            }
            assert(records@.map_values(|rec2: SceneRecord| rec2@)
                =~= base.subrange(t as int + 1, n as int));
        }
        let scene_id = match rec.id {
            Some(v) => v,
            None => 0,
        };
        let name = match rec.name {
            Some(n2) => n2,
            None => String::new(),
        };
        let file_path = match rec.file_path {
            Some(p) => p,
            None => String::new(),
        };
        proof {
            if consistent {
                assert forall|i: int| 0 <= i < g@.scenes.len()
                    implies (#[trigger] g@.scenes[i]).id != scene_id by {
                    assert(g@.scenes[i] == scene_from_record(base[i]));
                    assert(record_scene_id(base[i]) != record_scene_id(base[t as int]));
                }
            }
        }
        let ok_scene = g.insert_scene(scene_id, name, file_path);
        proof {
            if consistent {
                assert(ok_scene);
                assert(g@.scenes.len() == t + 1);
                assert(g@.scenes[t as int].id == scene_id);
            }
        }
        match rec.initial_view_x {
            Some(x_bits) => match rec.initial_view_y {
                Some(y_bits) => {
                    proof {
                        if consistent {
                            g.lemma_wf_scene_ids_distinct();
                            assert(scene_pos(g@.scenes, scene_id) == t as int) by {
                                let p2 = scene_pos(g@.scenes, scene_id);
                                assert(0 <= p2 < g@.scenes.len()
                                    && g@.scenes[p2].id == scene_id);
                            }
                        }
                    }
                    let _ = g.set_initial_view(scene_id, Coordinates { x_bits, y_bits });
                },
                None => {},
            },
            None => {},
        }
        match rec.north_dir {
            Some(direction_bits) => {
                proof {
                    if consistent {
                        g.lemma_wf_scene_ids_distinct();
                        assert(g@.scenes[t as int].id == scene_id);
                        assert(scene_pos(g@.scenes, scene_id) == t as int) by {
                            let p2 = scene_pos(g@.scenes, scene_id);
                            assert(0 <= p2 < g@.scenes.len() && g@.scenes[p2].id == scene_id);
                        }
                    }
                }
                let _ = g.set_north_direction(scene_id, direction_bits);
            },
            None => {},
        }
        proof {
            if consistent {
                assert(g@.scenes[t as int] =~~= (SceneView {
                    connections: Seq::<ConnectionView>::empty(),
                    ..scene_from_record(base[t as int])
                }));
                assert(forall|k: int| 0 <= k < t
                    ==> #[trigger] g@.scenes[k]
                        == scenes_from_records(base.subrange(0, t as int))[k]);
                assert(g@.scenes =~~= scenes_from_records(base.subrange(0, t as int)).push(
                    SceneView {
                        connections: Seq::<ConnectionView>::empty(),
                        ..scene_from_record(base[t as int])
                    }));
            }
        }
        let mut conns = rec.connections;
        let ghost cbase = base[t as int].connections;
        proof {
            assert(conns@.map_values(|c: ConnectionRecord| c@) =~= cbase);
            assert(cbase.subrange(0, 0) =~= Seq::<ConnectionRecordView>::empty());
        }
        let m = conns.len();
        let mut u: usize = 0;
        while u < m
            invariant
                u <= m,
                m == cbase.len(),
                t < n,
                conns@.map_values(|c: ConnectionRecord| c@)
                    =~= cbase.subrange(u as int, m as int),
                g.wf(),
                consistent && ok_scene ==> g@.scenes =~~= scenes_from_records(
                    base.subrange(0, t as int),
                ).push(SceneView {
                    connections: conns_from_records(cbase.subrange(0, u as int)),
                    ..scene_from_record(base[t as int])
                }),
            decreases m - u,
        {
            proof {
                assert(conns@.map_values(|c: ConnectionRecord| c@).len() == conns@.len());
                assert(conns@.len() == m - u);
                assert(conns@.map_values(|c: ConnectionRecord| c@)[0]
                    == cbase.subrange(u as int, m as int)[0]);
                assert(conns@.map_values(|c: ConnectionRecord| c@)[0] == conns@[0]@);
                assert(conns@[0]@ == cbase[u as int]);
                assert(cbase.subrange(0, u as int + 1).drop_last()
                    =~= cbase.subrange(0, u as int));
                assert(cbase.subrange(0, u as int + 1).last() == cbase[u as int]);
            }
            let ghost cprev = conns@;
            let crec = conns.remove(0);
            proof {
                assert(conns@ =~= cprev.remove(0));
                assert(forall|x: int| 0 <= x < conns@.len()
                    ==> #[trigger] conns@[x] == cprev[x + 1]);
                assert forall|x: int| 0 <= x < conns@.len()
                    implies #[trigger] conns@[x]@ == cprev[x + 1]@
                        && cprev.map_values(|c: ConnectionRecord| c@)[x + 1]
                            == cprev[x + 1]@ by {
                    assert(0 <= x + 1 < cprev.len());
                }
                assert(conns@.map_values(|c: ConnectionRecord| c@)
                    =~= cbase.subrange(u as int + 1, m as int));
            }
            match crec.target_scene_id {
                Some(target) => {
                    let kind = kind_for_tag(&crec.connection_type);
                    let connection = Connection {
                        id: match crec.id {
                            Some(v) => v,
                            None => 0,
                        },
                        connection_type: kind,
                        target_scene_id: target,
                        position: match crec.position {
                            Some(p) => p,
                            None => Coordinates { x_bits: 0, y_bits: 0 },
                        },
                        name: crec.name,
                        icon_index: crec.icon_index,
                    };
                    let ghost cv = connection@;
                    proof {
                        assert(cv == conn_from_record(cbase[u as int]));
                        if consistent && ok_scene {
                            g.lemma_connection_index_is_conn_ids();
                            if cv.id != 0 {
                                assert forall|k2: int, l2: int|
                                    0 <= k2 < g@.scenes.len()
                                    && 0 <= l2 < g@.scenes[k2].connections.len()
                                    implies (#[trigger] g@.scenes[k2].connections[l2]).id
                                        != cv.id by {
                                    if k2 < t as int {
                                        assert(g@.scenes[k2] == scene_from_record(base[k2]));
                                        lemma_conns_from_records_elem(base[k2].connections, l2);
                                        let j2 = choose|j: int|
                                            0 <= j < base[k2].connections.len()
                                            && base[k2].connections[j].target_scene_id is Some
                                            && conn_from_record(base[k2].connections[j])
                                                == conns_from_records(base[k2].connections)[l2];
                                        assert(conn_from_record(base[k2].connections[j2]).id
                                            != conn_from_record(base[t as int]
                                                .connections[u as int]).id);
                                    } else {
                                        assert(k2 == t as int);
                                        assert(g@.scenes[k2].connections
                                            == conns_from_records(cbase.subrange(0, u as int)));
                                        lemma_conns_from_records_elem(
                                            cbase.subrange(0, u as int), l2);
                                        let j2 = choose|j: int|
                                            0 <= j < cbase.subrange(0, u as int).len()
                                            && cbase.subrange(0, u as int)[j].target_scene_id
                                                is Some
                                            && conn_from_record(cbase.subrange(0, u as int)[j])
                                                == conns_from_records(
                                                    cbase.subrange(0, u as int))[l2];
                                        assert(cbase.subrange(0, u as int)[j2] == cbase[j2]);
                                        assert(conn_from_record(base[t as int].connections[j2]).id
                                            != conn_from_record(base[t as int]
                                                .connections[u as int]).id);
                                    }
                                }
                            }
                            assert(has_scene_id(g@.scenes, scene_id)) by {
                                assert(g@.scenes[t as int].id == scene_id);
                            }
                            g.lemma_wf_scene_ids_distinct();
                            assert(scene_pos(g@.scenes, scene_id) == t as int) by {
                                let p2 = scene_pos(g@.scenes, scene_id);
                                assert(0 <= p2 < g@.scenes.len()
                                    && g@.scenes[p2].id == scene_id);
                            }
                        }
                    }
                    let ok_conn = g.insert_connection(scene_id, connection);
                    proof {
                        if consistent && ok_scene {
                            assert(ok_conn);
                            assert(g@.scenes =~~= scenes_from_records(
                                base.subrange(0, t as int),
                            ).push(SceneView {
                                connections: conns_from_records(cbase.subrange(0, u as int + 1)),
                                ..scene_from_record(base[t as int])
                            }));
                        }
                    }
                },
                None => {
                    proof {
                        if consistent && ok_scene {
                            assert(conns_from_records(cbase.subrange(0, u as int + 1))
                                == conns_from_records(cbase.subrange(0, u as int)));
                        }
                    }
                },
            }
            u = u + 1;
        }
        proof {
            if consistent {
                assert(ok_scene);
                assert(cbase.subrange(0, m as int) =~= cbase);
                assert(base.subrange(0, t as int + 1).drop_last() =~= base.subrange(0, t as int));
                assert(SceneView {
                    connections: conns_from_records(cbase),
                    ..scene_from_record(base[t as int])
                } =~~= scene_from_record(base[t as int]));
                assert(g@.scenes =~~= scenes_from_records(base.subrange(0, t as int + 1)));
            }
        }
        t = t + 1;
    }
    proof {
        assert(base.subrange(0, n as int) =~= base);
    }
    g.clear_current_scene();
    match initial_scene_id {
        Some(id) => {
            let _ = g.set_current_scene(id);
        },
        None => {},
    }
    g
}

} // verus!
