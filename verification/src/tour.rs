//! Tour metadata.
//!
//! The record the store keeps about one tour: identity, display name,
//! timestamps, the initial scene, a location, and the optional floor plan.
//! The id is private: it is assigned by the store and only changed through
//! `set_id`.

use vstd::prelude::*;

verus! {

/// Metadata of one tour, as listed for its owner.
#[derive(Debug, Clone)]
pub struct Tour {
    id: i32,
    pub name: String,
    pub created_at: String,
    pub modified_at: String,
    pub initial_scene_id: i32,
    pub location: String,
    has_floorplan: bool,
    floorplan_id: Option<i32>,
}

impl Tour {
    /// The tour's id.
    pub closed spec fn spec_id(&self) -> i32 {
        self.id
    }

    /// Whether the tour has a floor plan.
    pub closed spec fn spec_has_floorplan(&self) -> bool {
        self.has_floorplan
    }

    /// The floor plan's id, when there is one.
    pub closed spec fn spec_floorplan_id(&self) -> Option<i32> {
        self.floorplan_id
    }

    /// The display name.
    pub closed spec fn spec_name(&self) -> Seq<char> {
        self.name@
    }

    /// The creation timestamp.
    pub closed spec fn spec_created_at(&self) -> Seq<char> {
        self.created_at@
    }

    /// The last-modified timestamp.
    pub closed spec fn spec_modified_at(&self) -> Seq<char> {
        self.modified_at@
    }

    /// The initial scene's id.
    pub closed spec fn spec_initial_scene_id(&self) -> i32 {
        self.initial_scene_id
    }

    /// The location text.
    pub closed spec fn spec_location(&self) -> Seq<char> {
        self.location@
    }

    /// A tour record with the given fields.
    pub fn new(
        id: i32,
        name: String,
        created_at: String,
        modified_at: String,
        initial_scene_id: i32,
        location: String,
        has_floorplan: bool,
        floorplan_id: Option<i32>,
    ) -> (r: Tour)
        ensures
            r.spec_id() == id,
            r.spec_name() == name@,
            r.spec_created_at() == created_at@,
            r.spec_modified_at() == modified_at@,
            r.spec_initial_scene_id() == initial_scene_id,
            r.spec_location() == location@,
            r.spec_has_floorplan() == has_floorplan,
            r.spec_floorplan_id() == floorplan_id,
    {
        Tour {
            id,
            name,
            created_at,
            modified_at,
            initial_scene_id,
            location,
            has_floorplan,
            floorplan_id,
        }
    }

    /// The tour's id.
    pub fn get_id(&self) -> (r: i32)
        ensures
            r == self.spec_id(),
    {
        self.id
    }

    /// Replaces the tour's id; every other field is kept.
    pub fn set_id(&mut self, id: i32)
        ensures
            final(self).spec_id() == id,
            final(self).spec_name() == old(self).spec_name(),
            final(self).spec_created_at() == old(self).spec_created_at(),
            final(self).spec_modified_at() == old(self).spec_modified_at(),
            final(self).spec_initial_scene_id() == old(self).spec_initial_scene_id(),
            final(self).spec_location() == old(self).spec_location(),
            final(self).spec_has_floorplan() == old(self).spec_has_floorplan(),
            final(self).spec_floorplan_id() == old(self).spec_floorplan_id(),
    {
        self.id = id;
    }
}

} // verus!
