pub mod commands;
pub mod edit_mode;
pub mod events;
pub mod replay;

use vstd::prelude::*;

use crate::chamber::{has_wall, Chamber, ChamberId};
use crate::door::{Door, DoorId};
use crate::dungeon::{
    chamber_key, chamber_pos, door_key, door_pos, has_chamber, has_door, has_object, object_key,
    object_pos, Dungeon,
};
use crate::ids::unique_keys;
use crate::object::{Object, ObjectId};


pub use self::commands::StateCommand;
pub use self::edit_mode::EditMode;

verus! {

/// The editor's state: the dungeon, the camera, the active tool and the
/// selected chamber, door or object.
pub struct State {
    pub dungeon: Dungeon,
    pub view: crate::view::View,
    pub mode: EditMode,
    pub active_chamber_id: Option<ChamberId>,
    pub active_door_id: Option<DoorId>,
    pub active_object_id: Option<ObjectId>,
}

impl State {
    /// Every chamber is well formed, and chambers, doors and objects each
    /// have unique ids.
    pub open spec fn wf(&self) -> bool {
        &&& forall|i: int|
            0 <= i < self.dungeon.chambers@.len() ==> (#[trigger] self.dungeon.chambers@[i]).wf()
        &&& unique_keys(self.dungeon.chambers@, chamber_key())
        &&& unique_keys(self.dungeon.doors@, door_key())
        &&& unique_keys(self.dungeon.objects@, object_key())
    }

    /// Every door stands on an existing wall of its own chamber.
    pub open spec fn doors_on_walls(&self) -> bool {
        let cs = self.dungeon.chambers@;
        forall|i: int|
            #![trigger self.dungeon.doors@[i]]
            0 <= i < self.dungeon.doors@.len() ==> exists|k: int|
                0 <= k < cs.len() && #[trigger] cs[k].id == self.dungeon.doors@[i].part_of
                    && has_wall(cs[k].walls@, self.dungeon.doors@[i].on_wall)
    }

    /// An empty dungeon, the camera at the origin, the select tool and
    /// nothing selected.
    pub fn new() -> (r: State)
        ensures
            r.dungeon.chambers@.len() == 0,
            r.dungeon.doors@.len() == 0,
            r.dungeon.objects@.len() == 0,
            r.dungeon.name@ == Seq::<char>::empty(),
            r.dungeon.notes@ == Seq::<char>::empty(),
            r.view == crate::view::View::new_view(),
            r.mode == EditMode::Select,
            r.active_chamber_id is None,
            r.active_door_id is None,
            r.active_object_id is None,
            r.wf(),
            r.doors_on_walls(),
    {
        State {
            active_chamber_id: None,
            active_door_id: None,
            active_object_id: None,
            dungeon: Dungeon::new(),
            view: crate::view::View::new(),
            mode: EditMode::Select,
        }
    }

    /// The selected chamber, if it exists.
    pub fn active_chamber(&self) -> (r: Option<&Chamber>)
        ensures
            r is Some <==> (self.active_chamber_id matches Some(id) && has_chamber(
                self.dungeon.chambers@,
                id,
            )),
            r matches Some(c) ==> *c == self.dungeon.chambers@[chamber_pos(
                self.dungeon.chambers@,
                self.active_chamber_id->0,
            )],
    {
        match self.active_chamber_id {
            Some(chamber_id) => self.dungeon.chamber(chamber_id),
            None => None,
        }
    }

    /// The selected door, if it exists.
    pub fn active_door(&self) -> (r: Option<&Door>)
        ensures
            r is Some <==> (self.active_door_id matches Some(id) && has_door(
                self.dungeon.doors@,
                id,
            )),
            r matches Some(d) ==> *d == self.dungeon.doors@[door_pos(
                self.dungeon.doors@,
                self.active_door_id->0,
            )],
    {
        match self.active_door_id {
            Some(door_id) => self.dungeon.door(door_id),
            None => None,
        }
    }

    /// The selected object, if it exists.
    pub fn active_object(&self) -> (r: Option<&Object>)
        ensures
            r is Some <==> (self.active_object_id matches Some(id) && has_object(
                self.dungeon.objects@,
                id,
            )),
            r matches Some(o) ==> *o == self.dungeon.objects@[object_pos(
                self.dungeon.objects@,
                self.active_object_id->0,
            )],
    {
        match self.active_object_id {
            Some(object_id) => self.dungeon.object(object_id),
            None => None,
        }
    }
}

} // verus!
