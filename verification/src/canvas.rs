//! What a click or a drag on the map does. The geometry under the pointer
//! (which door, chamber or wall is there) is measured in floating point by
//! the caller and handed over as a `Pointer`; the decisions are taken here.

use vstd::prelude::*;

use crate::chamber::{
    corners_in_range, has_wall, lemma_nearest_corner_is_nearest, lemma_wall_index_found,
    nearest_corner_index, Chamber, ChamberId, WallId,
};
use crate::common::{fits_i32, Vec2};
use crate::door::{new_door_view, Door, DoorId};
use crate::dungeon::{chamber_pos, has_chamber};
use crate::state::commands::CommandView;
use crate::state::edit_mode::EditMode;
use crate::state::{State, StateCommand};

verus! {

/// The width of a door placed with the mouse, 50.0 as an IEEE 754 double.
pub const NEW_DOOR_WIDTH_BITS: u64 = 0x4049_0000_0000_0000;

/// What the pointer is over, measured by the caller from the cursor's world
/// position.
#[derive(Clone, Copy, Debug)]
pub struct Pointer {
    /// The cursor's world position, each coordinate cut to an integer.
    pub world_pos: Vec2<i32>,
    /// The grid point the cursor snaps to.
    pub snapped: Vec2<i32>,
    /// The first door under the cursor.
    pub door_at: Option<DoorId>,
    /// The first chamber under the cursor.
    pub chamber_at: Option<ChamberId>,
    /// The wall of the selected chamber nearest to the cursor, if there is a
    /// selected chamber with walls.
    pub nearest_wall: Option<WallId>,
    /// Where along the wall picked for a new door the cursor is (0 at its
    /// first end point, 1 at its second), as the bit pattern of a double.
    pub door_pos_bits: u64,
}

/// The map's own state between pointer events: the wall picked for a split
/// or a door, and where the last drag step ended.
pub struct Canvas {
    selected_wall: Option<WallId>,
    last_pos: Option<Vec2<i32>>,
}

/// The selected chamber, if it exists.
pub open spec fn active_chamber_of(s: State) -> Option<Chamber> {
    match s.active_chamber_id {
        Some(id) => if has_chamber(s.dungeon.chambers@, id) {
            Some(s.dungeon.chambers@[chamber_pos(s.dungeon.chambers@, id)])
        } else {
            None
        },
        None => None,
    }
}

/// The picked wall after trying to pick the wall nearest to the cursor: it
/// changes only when there is a selected chamber and a nearest wall.
pub open spec fn picked_nearest(s: State, p: Pointer, selected: Option<WallId>) -> Option<WallId> {
    match (active_chamber_of(s), p.nearest_wall) {
        (Some(_), Some(w)) => Some(w),
        _ => selected,
    }
}

/// A click in a mode that does not need the selected chamber's walls to be
/// checked: the command it issues, if any, and the picked wall afterwards.
pub open spec fn click_effect(mode: EditMode, s: State, p: Pointer, selected: Option<WallId>) -> (
    Option<CommandView>,
    Option<WallId>,
) {
    match mode {
        EditMode::Select => match p.door_at {
            Some(d) => (Some(CommandView::SelectDoor(Some(d))), selected),
            None => (Some(CommandView::SelectChamber(p.chamber_at)), selected),
        },
        EditMode::AppendChamber => match active_chamber_of(s) {
            Some(c) => (Some(CommandView::AddVertexToChamber(c.id, p.snapped)), selected),
            None => (None, selected),
        },
        EditMode::SplitEdge => match selected {
            Some(w) => match active_chamber_of(s) {
                Some(c) => (Some(CommandView::SplitWall(c.id, w, p.snapped)), None),
                None => (None, selected),
            },
            None => (None, picked_nearest(s, p, selected)),
        },
        EditMode::AddDoor => match selected {
            Some(w) => match active_chamber_of(s) {
                Some(c) => (
                    Some(
                        CommandView::AddDoor(
                            new_door_view(c.id, None, NEW_DOOR_WIDTH_BITS, w, p.door_pos_bits),
                        ),
                    ),
                    None,
                ),
                None => (None, selected),
            },
            None => (None, picked_nearest(s, p, selected)),
        },
        EditMode::AddObject => (Some(CommandView::AddObject(p.snapped, p.chamber_at)), selected),
        EditMode::RemoveVertex => match active_chamber_of(s) {
            Some(c) => if c.walls@.len() > 0 {
                (
                    Some(
                        CommandView::CollapseWall(
                            c.id,
                            c.walls@[nearest_corner_index(c.walls@, p.world_pos)].id,
                        ),
                    ),
                    selected,
                )
            } else {
                (None, selected)
            },
            None => (None, selected),
        },
    }
}

/// A click with the Remove Vertex tool on a selected chamber with walls
/// collapses a corner of that chamber nearest to the cursor: the wall it
/// names ends no farther from the cursor than any wall of the chamber.
pub proof fn lemma_remove_vertex_collapses_nearest_corner(
    s: State,
    p: Pointer,
    selected: Option<WallId>,
)
    requires
        active_chamber_of(s) matches Some(c) && c.walls@.len() > 0,
    ensures
        ({
            let c = active_chamber_of(s)->0;
            let pos = p.world_pos;
            exists|k: int|
                #![trigger c.walls@[k]]
                0 <= k < c.walls@.len() && click_effect(EditMode::RemoveVertex, s, p, selected).0
                    == Some(CommandView::CollapseWall(c.id, c.walls@[k].id)) && forall|j: int|
                    #![trigger c.walls@[j]]
                    0 <= j < c.walls@.len() ==> (c.walls@[k].p2.x - pos.x) * (c.walls@[k].p2.x
                        - pos.x) + (c.walls@[k].p2.y - pos.y) * (c.walls@[k].p2.y - pos.y) <= (
                    c.walls@[j].p2.x - pos.x) * (c.walls@[j].p2.x - pos.x) + (c.walls@[j].p2.y
                        - pos.y) * (c.walls@[j].p2.y - pos.y)
        }),
{
    let c = active_chamber_of(s)->0;
    lemma_nearest_corner_is_nearest(c.walls@, p.world_pos);
    let k = nearest_corner_index(c.walls@, p.world_pos);
    assert(c.walls@[k] == c.walls@[k]);
}

/// A click on the map can be handled: a door is only placed on a wall of the
/// selected chamber, and the squared distances to the selected chamber's
/// corners fit in `i32` when a corner is to be removed.
pub open spec fn click_ok(s: State, p: Pointer, selected: Option<WallId>) -> bool {
    &&& (s.mode == EditMode::AddDoor && selected is Some) ==> (active_chamber_of(s) matches Some(
        c,
    ) ==> has_wall(c.walls@, selected->0))
    &&& s.mode == EditMode::RemoveVertex ==> (active_chamber_of(s) matches Some(c)
        ==> corners_in_range(c.walls@, p.world_pos))
}

/// Where a drag step starts: where the last one ended, the origin when
/// there was none.
pub open spec fn drag_origin(last: Option<Vec2<i32>>) -> Vec2<i32> {
    match last {
        Some(p) => p,
        None => Vec2 { x: 0, y: 0 },
    }
}

/// The commands of a click: the one command of `click_effect`, or none.
pub open spec fn issued(r: Seq<StateCommand>, cmd: Option<CommandView>) -> bool {
    match cmd {
        Some(c) => r.len() == 1 && r[0]@ == c,
        None => r.len() == 0,
    }
}

impl Canvas {
    /// The wall picked for a split or a door.
    pub closed spec fn spec_selected_wall(&self) -> Option<WallId> {
        self.selected_wall
    }

    /// Where the last drag step ended.
    pub closed spec fn spec_last_pos(&self) -> Option<Vec2<i32>> {
        self.last_pos
    }

    /// A map with no wall picked and no drag going on.
    pub fn new() -> (r: Canvas)
        ensures
            r.spec_selected_wall() is None,
            r.spec_last_pos() is None,
    {
        Canvas { selected_wall: None, last_pos: None }
    }

    /// The wall picked for a split or a door.
    pub fn selected_wall(&self) -> (r: Option<WallId>)
        ensures
            r == self.spec_selected_wall(),
    {
        self.selected_wall
    }

    /// Picks a wall, or none.
    pub fn set_selected_wall(&mut self, wall_id: Option<WallId>)
        ensures
            final(self).spec_selected_wall() == wall_id,
            final(self).spec_last_pos() == old(self).spec_last_pos(),
    {
        self.selected_wall = wall_id;
    }

    /// Where the last drag step ended.
    pub fn last_pos(&self) -> (r: Option<Vec2<i32>>)
        ensures
            r == self.spec_last_pos(),
    {
        self.last_pos
    }

    /// Sets where the last drag step ended.
    pub fn set_last_pos(&mut self, pos: Option<Vec2<i32>>)
        ensures
            final(self).spec_last_pos() == pos,
            final(self).spec_selected_wall() == old(self).spec_selected_wall(),
    {
        self.last_pos = pos;
    }

    /// Picks the wall of the selected chamber nearest to the cursor, when
    /// there is a selected chamber and it has walls.
    pub fn select_nearest_wall(&mut self, state: &State, pointer: &Pointer)
        ensures
            final(self).spec_selected_wall() == picked_nearest(
                *state,
                *pointer,
                old(self).spec_selected_wall(),
            ),
            final(self).spec_last_pos() == old(self).spec_last_pos(),
    {
        if let Some(_) = state.active_chamber() {
            if let Some(w) = pointer.nearest_wall {
                self.set_selected_wall(Some(w));
            }
        }
    }

    /// Selects the door under the cursor, or else the chamber under it (none
    /// when there is no chamber there).
    fn click_select(&mut self, pointer: &Pointer) -> (r: Vec<StateCommand>)
        ensures
            issued(
                r@,
                Some(
                    match pointer.door_at {
                        Some(d) => CommandView::SelectDoor(Some(d)),
                        None => CommandView::SelectChamber(pointer.chamber_at),
                    },
                ),
            ),
            *final(self) == *old(self),
    {
        match pointer.door_at {
            Some(id) => vec![StateCommand::SelectDoor(Some(id))],
            None => vec![StateCommand::SelectChamber(pointer.chamber_at)],
        }
    }

    /// Adds the snapped cursor position as the next corner of the selected
    /// chamber.
    fn click_append_chamber(&mut self, state: &State, pointer: &Pointer) -> (r: Vec<StateCommand>)
        ensures
            issued(r@, click_effect(EditMode::AppendChamber, *state, *pointer, None).0),
            *final(self) == *old(self),
    {
        match state.active_chamber() {
            Some(chamber) => vec![StateCommand::AddVertexToChamber(chamber.id, pointer.snapped)],
            None => vec![],
        }
    }

    /// The first click picks the wall nearest to the cursor, the second
    /// splits it at the snapped cursor position.
    fn click_split_edge(&mut self, state: &State, pointer: &Pointer) -> (r: Vec<StateCommand>)
        ensures
            issued(
                r@,
                click_effect(EditMode::SplitEdge, *state, *pointer, old(self).spec_selected_wall()).0,
            ),
            final(self).spec_selected_wall() == click_effect(
                EditMode::SplitEdge,
                *state,
                *pointer,
                old(self).spec_selected_wall(),
            ).1,
            final(self).spec_last_pos() == old(self).spec_last_pos(),
    {
        match self.selected_wall() {
            Some(wall_id) => {
                if let Some(chamber) = state.active_chamber() {
                    let chamber_id = chamber.id;
                    self.set_selected_wall(None);
                    return vec![StateCommand::SplitWall(chamber_id, wall_id, pointer.snapped)];
                }
            },
            None => {
                self.select_nearest_wall(state, pointer);
            },
        }
        vec![]
    }

    /// The first click picks the wall nearest to the cursor, the second
    /// places a door on it where the cursor is.
    fn click_add_door(&mut self, state: &State, pointer: &Pointer) -> (r: Vec<StateCommand>)
        requires
            old(self).spec_selected_wall() matches Some(w) ==> (active_chamber_of(*state) matches Some(
                c,
            ) ==> has_wall(c.walls@, w)),
        ensures
            issued(
                r@,
                click_effect(EditMode::AddDoor, *state, *pointer, old(self).spec_selected_wall()).0,
            ),
            final(self).spec_selected_wall() == click_effect(
                EditMode::AddDoor,
                *state,
                *pointer,
                old(self).spec_selected_wall(),
            ).1,
            final(self).spec_last_pos() == old(self).spec_last_pos(),
    {
        match self.selected_wall() {
            None => {
                self.select_nearest_wall(state, pointer);
            },
            Some(wall_id) => {
                if let Some(chamber) = state.active_chamber() {
                    let wall = chamber.wall(wall_id).unwrap();
                    proof {
                        lemma_wall_index_found(chamber.walls@, wall_id);
                    }
                    let door = Door::new(
                        chamber.id,
                        None,
                        NEW_DOOR_WIDTH_BITS,
                        wall.id,
                        pointer.door_pos_bits,
                    );
                    self.set_selected_wall(None);
                    return vec![StateCommand::AddDoor(door)];
                }
            },
        }
        vec![]
    }

    /// Removes the corner of the selected chamber nearest to the cursor.
    fn click_remove_vertex(&mut self, state: &State, pointer: &Pointer) -> (r: Vec<StateCommand>)
        requires
            active_chamber_of(*state) matches Some(c) ==> corners_in_range(c.walls@, pointer.world_pos),
        ensures
            issued(r@, click_effect(EditMode::RemoveVertex, *state, *pointer, None).0),
            *final(self) == *old(self),
    {
        if let Some(chamber) = state.active_chamber() {
            if let Some((w1, _)) = chamber.nearest_corner(pointer.world_pos) {
                return vec![StateCommand::CollapseWall(chamber.id, w1.id)];
            }
        }
        vec![]
    }

    /// Places an object at the snapped cursor position, in the chamber under
    /// the cursor if there is one.
    fn click_add_object(&mut self, pointer: &Pointer) -> (r: Vec<StateCommand>)
        ensures
            issued(r@, Some(CommandView::AddObject(pointer.snapped, pointer.chamber_at))),
            *final(self) == *old(self),
    {
        vec![StateCommand::AddObject(pointer.snapped, pointer.chamber_at)]
    }

    /// The commands that a click issues in the state's edit mode; the picked
    /// wall changes as `click_effect` says.
    pub fn click(&mut self, state: &State, pointer: &Pointer) -> (r: Vec<StateCommand>)
        requires
            click_ok(*state, *pointer, old(self).spec_selected_wall()),
        ensures
            issued(
                r@,
                click_effect(state.mode, *state, *pointer, old(self).spec_selected_wall()).0,
            ),
            final(self).spec_selected_wall() == click_effect(
                state.mode,
                *state,
                *pointer,
                old(self).spec_selected_wall(),
            ).1,
            final(self).spec_last_pos() == old(self).spec_last_pos(),
    {
        match state.mode {
            EditMode::Select => self.click_select(pointer),
            EditMode::AppendChamber => self.click_append_chamber(state, pointer),
            EditMode::SplitEdge => self.click_split_edge(state, pointer),
            EditMode::AddDoor => self.click_add_door(state, pointer),
            EditMode::AddObject => self.click_add_object(pointer),
            EditMode::RemoveVertex => self.click_remove_vertex(state, pointer),
        }
    }

    /// A drag starts afresh.
    pub fn drag_begin(&mut self)
        ensures
            final(self).spec_last_pos() is None,
            final(self).spec_selected_wall() == old(self).spec_selected_wall(),
    {
        self.set_last_pos(None);
    }

    /// A drag step to `cur`: the view moves by the way back from `cur` to
    /// where the last step ended (the origin for the first step), and `cur`
    /// is remembered.
    pub fn drag_update(&mut self, view: &mut crate::view::View, cur: Vec2<i32>)
        requires
            fits_i32(drag_origin(old(self).spec_last_pos()).x - cur.x),
            fits_i32(drag_origin(old(self).spec_last_pos()).y - cur.y),
            fits_i32(
                old(view).spec_world_min().x + (drag_origin(old(self).spec_last_pos()).x - cur.x),
            ),
            fits_i32(
                old(view).spec_world_min().y + (drag_origin(old(self).spec_last_pos()).y - cur.y),
            ),
        ensures
            final(view).spec_world_min().x == old(view).spec_world_min().x + (drag_origin(
                old(self).spec_last_pos(),
            ).x - cur.x),
            final(view).spec_world_min().y == old(view).spec_world_min().y + (drag_origin(
                old(self).spec_last_pos(),
            ).y - cur.y),
            final(self).spec_last_pos() == Some(cur),
            final(self).spec_selected_wall() == old(self).spec_selected_wall(),
    {
        let last = match self.last_pos() {
            Some(p) => p,
            None => Vec2 { x: 0, y: 0 },
        };
        view.move_view(last.sub(cur));
        self.set_last_pos(Some(cur));
    }
}

} // verus!
