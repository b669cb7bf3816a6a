use vstd::prelude::*;

use crate::chamber::{
    append_post, collapse_post, collapsed_wall_id, has_wall, split_post, Chamber, ChamberId,
    Wall, WallId,
};
use crate::common::Vec2;
use crate::door::{Door, DoorId, DoorView};
use crate::chamber::{
    lemma_append_keeps_ids, lemma_append_post_wf, lemma_collapse_keeps_ids, lemma_collapse_post_wf,
    lemma_split_keeps_ids, lemma_split_post_wf,
};
use crate::dungeon::{
    added_chamber_id, added_door_id, all_walls, can_add_chamber, can_add_door, can_add_object,
    chamber_has_id, chamber_key, chamber_pos, door_has_id, door_ids_part_of, door_key,
    door_not_part_of, door_pos, has_chamber, has_door, has_object, next_object_id_of,
    object_has_id, object_key, object_pos, Dungeon,
};
use crate::ids::{
    lemma_first_index, lemma_first_index_update, lemma_fresh_above_max, lemma_unique_filter, lemma_unique_push,
    lemma_unique_remove, lemma_unique_update,
};
use crate::object::{Object, ObjectId, ObjectStyle};
use crate::state::edit_mode::EditMode;
use crate::state::events::StateEvent;
use crate::observers::text_edit;
use crate::state::State;

verus! {

/// An edit of the state. Every change to a dungeon is one of these, so that
/// the list of commands applied so far describes the dungeon completely.
#[derive(Debug)]
pub enum StateCommand {
    AddChamber,
    ChangeMode(EditMode),
    SelectChamber(Option<ChamberId>),
    AddVertexToChamber(ChamberId, Vec2<i32>),
    ChangeChamberName(ChamberId, String),
    ChangeChamberNotes(ChamberId, String),
    ChangeChamberHidden(ChamberId, bool),
    SplitWall(ChamberId, WallId, Vec2<i32>),
    CollapseWall(ChamberId, WallId),
    DeleteChamber(ChamberId),
    AddDoor(Door),
    SelectDoor(Option<DoorId>),
    ChangeDoorName(DoorId, String),
    ChangeDoorNotes(DoorId, String),
    ChangeDoorLeadsTo(DoorId, Option<ChamberId>),
    ChangeDoorHidden(DoorId, bool),
    DeleteDoor(DoorId),
    ChangeDungeonName(String),
    ChangeDungeonNotes(String),
    AddObject(Vec2<i32>, Option<ChamberId>),
    SelectObject(Option<ObjectId>),
    DeleteObject(ObjectId),
    ChangeObjectName(ObjectId, String),
    ChangeObjectNotes(ObjectId, String),
    ChangeObjectHidden(ObjectId, bool),
    ChangeObjectStyle(ObjectId, ObjectStyle),
}

/// The mathematical content of a command, with its texts as character
/// sequences.
pub enum CommandView {
    AddChamber,
    ChangeMode(EditMode),
    SelectChamber(Option<ChamberId>),
    AddVertexToChamber(ChamberId, Vec2<i32>),
    ChangeChamberName(ChamberId, Seq<char>),
    ChangeChamberNotes(ChamberId, Seq<char>),
    ChangeChamberHidden(ChamberId, bool),
    SplitWall(ChamberId, WallId, Vec2<i32>),
    CollapseWall(ChamberId, WallId),
    DeleteChamber(ChamberId),
    AddDoor(DoorView),
    SelectDoor(Option<DoorId>),
    ChangeDoorName(DoorId, Seq<char>),
    ChangeDoorNotes(DoorId, Seq<char>),
    ChangeDoorLeadsTo(DoorId, Option<ChamberId>),
    ChangeDoorHidden(DoorId, bool),
    DeleteDoor(DoorId),
    ChangeDungeonName(Seq<char>),
    ChangeDungeonNotes(Seq<char>),
    AddObject(Vec2<i32>, Option<ChamberId>),
    SelectObject(Option<ObjectId>),
    DeleteObject(ObjectId),
    ChangeObjectName(ObjectId, Seq<char>),
    ChangeObjectNotes(ObjectId, Seq<char>),
    ChangeObjectHidden(ObjectId, bool),
    ChangeObjectStyle(ObjectId, ObjectStyle),
}

impl View for StateCommand {
    type V = CommandView;

    open spec fn view(&self) -> CommandView {
        match self {
            StateCommand::AddChamber => CommandView::AddChamber,
            StateCommand::ChangeMode(m) => CommandView::ChangeMode(*m),
            StateCommand::SelectChamber(c) => CommandView::SelectChamber(*c),
            StateCommand::AddVertexToChamber(c, p) => CommandView::AddVertexToChamber(*c, *p),
            StateCommand::ChangeChamberName(c, s) => CommandView::ChangeChamberName(*c, s@),
            StateCommand::ChangeChamberNotes(c, s) => CommandView::ChangeChamberNotes(*c, s@),
            StateCommand::ChangeChamberHidden(c, h) => CommandView::ChangeChamberHidden(*c, *h),
            StateCommand::SplitWall(c, w, p) => CommandView::SplitWall(*c, *w, *p),
            StateCommand::CollapseWall(c, w) => CommandView::CollapseWall(*c, *w),
            StateCommand::DeleteChamber(c) => CommandView::DeleteChamber(*c),
            StateCommand::AddDoor(d) => CommandView::AddDoor(d@),
            StateCommand::SelectDoor(d) => CommandView::SelectDoor(*d),
            StateCommand::ChangeDoorName(d, s) => CommandView::ChangeDoorName(*d, s@),
            StateCommand::ChangeDoorNotes(d, s) => CommandView::ChangeDoorNotes(*d, s@),
            StateCommand::ChangeDoorLeadsTo(d, c) => CommandView::ChangeDoorLeadsTo(*d, *c),
            StateCommand::ChangeDoorHidden(d, h) => CommandView::ChangeDoorHidden(*d, *h),
            StateCommand::DeleteDoor(d) => CommandView::DeleteDoor(*d),
            StateCommand::ChangeDungeonName(s) => CommandView::ChangeDungeonName(s@),
            StateCommand::ChangeDungeonNotes(s) => CommandView::ChangeDungeonNotes(s@),
            StateCommand::AddObject(p, c) => CommandView::AddObject(*p, *c),
            StateCommand::SelectObject(o) => CommandView::SelectObject(*o),
            StateCommand::DeleteObject(o) => CommandView::DeleteObject(*o),
            StateCommand::ChangeObjectName(o, s) => CommandView::ChangeObjectName(*o, s@),
            StateCommand::ChangeObjectNotes(o, s) => CommandView::ChangeObjectNotes(*o, s@),
            StateCommand::ChangeObjectHidden(o, h) => CommandView::ChangeObjectHidden(*o, *h),
            StateCommand::ChangeObjectStyle(o, s) => CommandView::ChangeObjectStyle(*o, *s),
        }
    }
}

impl Clone for StateCommand {
    fn clone(&self) -> (r: Self)
        ensures
            r == *self,
    {
        match self {
            StateCommand::AddChamber => StateCommand::AddChamber,
            StateCommand::ChangeMode(m) => StateCommand::ChangeMode(*m),
            StateCommand::SelectChamber(c) => StateCommand::SelectChamber(*c),
            StateCommand::AddVertexToChamber(c, p) => StateCommand::AddVertexToChamber(*c, *p),
            StateCommand::ChangeChamberName(c, s) => StateCommand::ChangeChamberName(*c, s.clone()),
            StateCommand::ChangeChamberNotes(c, s) => StateCommand::ChangeChamberNotes(
                *c,
                s.clone(),
            ),
            StateCommand::ChangeChamberHidden(c, h) => StateCommand::ChangeChamberHidden(*c, *h),
            StateCommand::SplitWall(c, w, p) => StateCommand::SplitWall(*c, *w, *p),
            StateCommand::CollapseWall(c, w) => StateCommand::CollapseWall(*c, *w),
            StateCommand::DeleteChamber(c) => StateCommand::DeleteChamber(*c),
            StateCommand::AddDoor(d) => StateCommand::AddDoor(d.clone()),
            StateCommand::SelectDoor(d) => StateCommand::SelectDoor(*d),
            StateCommand::ChangeDoorName(d, s) => StateCommand::ChangeDoorName(*d, s.clone()),
            StateCommand::ChangeDoorNotes(d, s) => StateCommand::ChangeDoorNotes(*d, s.clone()),
            StateCommand::ChangeDoorLeadsTo(d, c) => StateCommand::ChangeDoorLeadsTo(*d, *c),
            StateCommand::ChangeDoorHidden(d, h) => StateCommand::ChangeDoorHidden(*d, *h),
            StateCommand::DeleteDoor(d) => StateCommand::DeleteDoor(*d),
            StateCommand::ChangeDungeonName(s) => StateCommand::ChangeDungeonName(s.clone()),
            StateCommand::ChangeDungeonNotes(s) => StateCommand::ChangeDungeonNotes(s.clone()),
            StateCommand::AddObject(p, c) => StateCommand::AddObject(*p, *c),
            StateCommand::SelectObject(o) => StateCommand::SelectObject(*o),
            StateCommand::DeleteObject(o) => StateCommand::DeleteObject(*o),
            StateCommand::ChangeObjectName(o, s) => StateCommand::ChangeObjectName(*o, s.clone()),
            StateCommand::ChangeObjectNotes(o, s) => StateCommand::ChangeObjectNotes(
                *o,
                s.clone(),
            ),
            StateCommand::ChangeObjectHidden(o, h) => StateCommand::ChangeObjectHidden(*o, *h),
            StateCommand::ChangeObjectStyle(o, s) => StateCommand::ChangeObjectStyle(*o, *s),
        }
    }
}

/// `c` is a chamber other than `part_of` that owns one of the first `n`
/// walls of `walls` on which the door's position lies.
pub open spec fn candidate_before(
    walls: Seq<Wall>,
    on_walls: Seq<bool>,
    part_of: ChamberId,
    c: ChamberId,
    n: int,
) -> bool {
    exists|k: int|
        0 <= k < n && k < walls.len() && k < on_walls.len() && #[trigger] on_walls[k]
            && walls[k].chamber_id == c && c != part_of
}

/// A candidate among the first `n` walls is one among the first `m >= n`.
pub proof fn lemma_candidate_grows(
    walls: Seq<Wall>,
    on_walls: Seq<bool>,
    part_of: ChamberId,
    c: ChamberId,
    n: int,
    m: int,
)
    requires
        n <= m,
        candidate_before(walls, on_walls, part_of, c, n),
    ensures
        candidate_before(walls, on_walls, part_of, c, m),
{
    let j = choose|j: int|
        0 <= j < n && j < walls.len() && j < on_walls.len() && #[trigger] on_walls[j]
            && walls[j].chamber_id == c && c != part_of;
    assert(on_walls[j]);
}

/// `c` is the only candidate among all walls.
pub open spec fn sole_candidate(
    walls: Seq<Wall>,
    on_walls: Seq<bool>,
    part_of: ChamberId,
    c: ChamberId,
) -> bool {
    &&& candidate_before(walls, on_walls, part_of, c, walls.len() as int)
    &&& forall|d: ChamberId|
        #[trigger] candidate_before(walls, on_walls, part_of, d, walls.len() as int) ==> d == c
}

/// The chamber a new door leads to: among the walls on which the door's
/// position lies (`on_walls[k]` for the `k`-th wall), those of chambers other
/// than the door's own; when they all belong to one chamber, that chamber.
pub open spec fn door_target(walls: Seq<Wall>, on_walls: Seq<bool>, part_of: ChamberId) -> Option<
    ChamberId,
> {
    if exists|c: ChamberId| sole_candidate(walls, on_walls, part_of, c) {
        Some(choose|c: ChamberId| sole_candidate(walls, on_walls, part_of, c))
    } else {
        None
    }
}

/// A new door leads to a chamber exactly when the walls its position lies on
/// that belong to other chambers all belong to that one chamber: the target
/// owns such a wall and every such wall is the target's; with no such wall,
/// or such walls of two chambers, there is no target.
pub proof fn lemma_door_target_is_the_only_other_chamber(
    walls: Seq<Wall>,
    on_walls: Seq<bool>,
    part_of: ChamberId,
)
    requires
        on_walls.len() == walls.len(),
    ensures
        door_target(walls, on_walls, part_of) matches Some(t) ==> {
            &&& t != part_of
            &&& exists|k: int| 0 <= k < walls.len() && #[trigger] on_walls[k] && walls[k].chamber_id == t
            &&& forall|k: int|
                0 <= k < walls.len() && #[trigger] on_walls[k] && walls[k].chamber_id != part_of
                    ==> walls[k].chamber_id == t
        },
        door_target(walls, on_walls, part_of) is None ==> forall|k: int|
            0 <= k < walls.len() && #[trigger] on_walls[k] && walls[k].chamber_id != part_of
                ==> exists|k2: int|
                0 <= k2 < walls.len() && #[trigger] on_walls[k2] && walls[k2].chamber_id != part_of
                    && walls[k2].chamber_id != walls[k].chamber_id,
{
    let n = walls.len() as int;
    if door_target(walls, on_walls, part_of) is Some {
        let t = choose|c: ChamberId| sole_candidate(walls, on_walls, part_of, c);
        assert forall|k: int|
            0 <= k < walls.len() && #[trigger] on_walls[k] && walls[k].chamber_id != part_of
                implies walls[k].chamber_id == t by {
            assert(candidate_before(walls, on_walls, part_of, walls[k].chamber_id, n));
        }
    } else {
        assert forall|k: int|
            0 <= k < walls.len() && #[trigger] on_walls[k] && walls[k].chamber_id != part_of
                implies exists|k2: int|
            0 <= k2 < walls.len() && #[trigger] on_walls[k2] && walls[k2].chamber_id != part_of
                && walls[k2].chamber_id != walls[k].chamber_id by {
            let c = walls[k].chamber_id;
            assert(candidate_before(walls, on_walls, part_of, c, n));
            assert(!sole_candidate(walls, on_walls, part_of, c));
            let d = choose|d: ChamberId|
                #[trigger] candidate_before(walls, on_walls, part_of, d, n) && d != c;
            let k2 = choose|k2: int|
                0 <= k2 < n && k2 < walls.len() && k2 < on_walls.len() && #[trigger] on_walls[k2]
                    && walls[k2].chamber_id == d && d != part_of;
            assert(on_walls[k2]);
        }
    }
}

/// Finds the chamber a new door of chamber `part_of` leads to, given for
/// each wall of the dungeon whether the door's position lies on it.
pub fn find_door_target(walls: &Vec<Wall>, on_walls: &Vec<bool>, part_of: ChamberId) -> (r: Option<
    ChamberId,
>)
    requires
        on_walls@.len() == walls@.len(),
    ensures
        r == door_target(walls@, on_walls@, part_of),
{
    let ghost ws = walls@;
    let ghost on = on_walls@;
    let mut found: Option<ChamberId> = None;
    let mut several = false;
    let mut k: usize = 0;
    while k < walls.len()
        invariant
            k <= ws.len(),
            ws == walls@,
            on == on_walls@,
            on.len() == ws.len(),
            found is None ==> forall|c: ChamberId| !candidate_before(ws, on, part_of, c, k as int),
            found matches Some(f) ==> candidate_before(ws, on, part_of, f, k as int),
            !several ==> forall|c: ChamberId|
                #[trigger] candidate_before(ws, on, part_of, c, k as int) ==> found == Some(c),
            several ==> found is Some && exists|c: ChamberId|
                candidate_before(ws, on, part_of, c, k as int) && Some(c) != found,
        decreases ws.len() - k,
    {
        let ghost was_several = several;
        let ghost old_found = found;
        let w = walls[k];
        if on_walls[k] && w.chamber_id != part_of {
            let c = w.chamber_id;
            assert(candidate_before(ws, on, part_of, c, k + 1));
            match found {
                None => {
                    found = Some(c);
                },
                Some(f) => {
                    if f != c {
                        several = true;
                    }
                },
            }
        }
        assert forall|c: ChamberId|
            #[trigger] candidate_before(ws, on, part_of, c, k + 1) implies candidate_before(
            ws,
            on,
            part_of,
            c,
            k as int,
        ) || (on[k as int] && ws[k as int].chamber_id == c && c != part_of) by {
            let j = choose|j: int|
                0 <= j < k + 1 && j < ws.len() && j < on.len() && #[trigger] on[j]
                    && ws[j].chamber_id == c && c != part_of;
            if j < k {
                assert(candidate_before(ws, on, part_of, c, k as int));
            }
        }
        proof {
            if was_several {
                let c = choose|c: ChamberId|
                    candidate_before(ws, on, part_of, c, k as int) && Some(c) != old_found;
                lemma_candidate_grows(ws, on, part_of, c, k as int, k + 1);
            }
            if let Some(f) = found {
                if k > 0 && candidate_before(ws, on, part_of, f, k as int) {
                    lemma_candidate_grows(ws, on, part_of, f, k as int, k + 1);
                }
            }
        }
        k += 1;
    }
    if several {
        proof {
            if exists|c: ChamberId| sole_candidate(ws, on, part_of, c) {
                let s = choose|c: ChamberId| sole_candidate(ws, on, part_of, c);
                let c = choose|c: ChamberId|
                    candidate_before(ws, on, part_of, c, k as int) && Some(c) != found;
                assert(candidate_before(ws, on, part_of, found->0, ws.len() as int));
                assert(c == s);
                assert(found->0 == s);
            }
        }
        None
    } else {
        proof {
            if let Some(f) = found {
                assert(sole_candidate(ws, on, part_of, f));
                let s = choose|c: ChamberId| sole_candidate(ws, on, part_of, c);
                assert(candidate_before(ws, on, part_of, s, ws.len() as int));
            }
        }
        found
    }
}

/// Holds for a door on wall `wall_id` of chamber `chamber_id` (wall ids are
/// unique only within a chamber).
pub open spec fn door_on_wall(chamber_id: ChamberId, wall_id: WallId) -> spec_fn(Door) -> bool {
    |d: Door| d.part_of == chamber_id && d.on_wall == wall_id
}

/// Holds for a door that is not on wall `wall_id` of chamber `chamber_id`.
pub open spec fn door_not_on_wall(chamber_id: ChamberId, wall_id: WallId) -> spec_fn(Door) -> bool {
    |d: Door| !(d.part_of == chamber_id && d.on_wall == wall_id)
}

/// Collapsing a corner deletes exactly the doors on the removed wall of that
/// chamber: no kept door is on it, every other door is kept, each announced
/// deletion is of a door on it, and kept plus deleted doors are all doors.
pub proof fn lemma_collapse_deletes_doors_on_removed_wall(ds: Seq<Door>, c: ChamberId, w: WallId)
    ensures
        forall|i: int|
            0 <= i < ds.filter(door_not_on_wall(c, w)).len() ==> !((#[trigger] ds.filter(
                door_not_on_wall(c, w),
            )[i]).part_of == c && ds.filter(door_not_on_wall(c, w))[i].on_wall == w),
        forall|i: int|
            0 <= i < ds.len() && !((#[trigger] ds[i]).part_of == c && ds[i].on_wall == w)
                ==> ds.filter(door_not_on_wall(c, w)).contains(ds[i]),
        forall|i: int|
            0 <= i < ds.filter(door_on_wall(c, w)).len() ==> (#[trigger] ds.filter(
                door_on_wall(c, w),
            )[i]).part_of == c && ds.filter(door_on_wall(c, w))[i].on_wall == w && ds.contains(
                ds.filter(door_on_wall(c, w))[i],
            ),
        ds.filter(door_not_on_wall(c, w)).len() + ds.filter(door_on_wall(c, w)).len() == ds.len(),
    decreases ds.len(),
{
    reveal_with_fuel(Seq::<_>::filter, 1);
    let f = ds.filter(door_not_on_wall(c, w));
    let g = ds.filter(door_on_wall(c, w));
    assert forall|i: int| 0 <= i < f.len() implies !((#[trigger] f[i]).part_of == c && f[i].on_wall
        == w) by {
        ds.lemma_filter_pred(door_not_on_wall(c, w), i);
    }
    assert forall|i: int|
        0 <= i < ds.len() && !((#[trigger] ds[i]).part_of == c && ds[i].on_wall == w) implies f.contains(
        ds[i],
    ) by {
        ds.lemma_filter_contains(door_not_on_wall(c, w), i);
    }
    assert forall|i: int| 0 <= i < g.len() implies (#[trigger] g[i]).part_of == c && g[i].on_wall
        == w && ds.contains(g[i]) by {
        ds.lemma_filter_pred(door_on_wall(c, w), i);
        ds.lemma_filter_contains_rev(door_on_wall(c, w), g[i]);
    }
    if ds.len() > 0 {
        lemma_collapse_deletes_doors_on_removed_wall(ds.drop_last(), c, w);
    }
}

/// The event that announces the deletion of door `id`.
pub open spec fn door_deleted(id: DoorId) -> StateEvent {
    StateEvent::DoorDeleted(id)
}

/// The view, the mode and the selection are unchanged.
pub open spec fn same_selection(pre: State, post: State) -> bool {
    &&& post.view == pre.view
    &&& post.mode == pre.mode
    &&& post.active_chamber_id == pre.active_chamber_id
    &&& post.active_door_id == pre.active_door_id
    &&& post.active_object_id == pre.active_object_id
}

/// Everything but the chambers of the dungeon is unchanged.
pub open spec fn only_chambers_change(pre: Dungeon, post: Dungeon) -> bool {
    &&& post.doors == pre.doors
    &&& post.objects == pre.objects
    &&& post.name == pre.name
    &&& post.notes == pre.notes
}

/// Everything but the doors of the dungeon is unchanged.
pub open spec fn only_doors_change(pre: Dungeon, post: Dungeon) -> bool {
    &&& post.chambers == pre.chambers
    &&& post.objects == pre.objects
    &&& post.name == pre.name
    &&& post.notes == pre.notes
}

/// Everything but the objects of the dungeon is unchanged.
pub open spec fn only_objects_change(pre: Dungeon, post: Dungeon) -> bool {
    &&& post.chambers == pre.chambers
    &&& post.doors == pre.doors
    &&& post.name == pre.name
    &&& post.notes == pre.notes
}

/// The chamber with id `id` in state `s`.
pub open spec fn chamber_of(s: State, id: ChamberId) -> Chamber {
    s.dungeon.chambers@[chamber_pos(s.dungeon.chambers@, id)]
}

/// Executing `cmd` on `s` does not fail: the chambers, doors, objects and
/// walls it names exist, fresh ids can be generated, and for a new door one
/// flag is given per wall of the dungeon.
pub open spec fn can_execute(cmd: StateCommand, s: State, on_walls: Seq<bool>) -> bool {
    let cs = s.dungeon.chambers@;
    match cmd {
        StateCommand::AddChamber => can_add_chamber(cs, 1),
        StateCommand::AddVertexToChamber(c, _) => has_chamber(cs, c) && chamber_of(
            s,
            c,
        ).can_grow(),
        StateCommand::ChangeChamberName(c, _) => has_chamber(cs, c),
        StateCommand::ChangeChamberNotes(c, _) => has_chamber(cs, c),
        StateCommand::ChangeChamberHidden(c, _) => has_chamber(cs, c),
        StateCommand::SplitWall(c, w, _) => has_chamber(cs, c) && has_wall(
            chamber_of(s, c).walls@,
            w,
        ) && chamber_of(s, c).can_grow(),
        StateCommand::CollapseWall(c, w) => has_chamber(cs, c) && has_wall(
            chamber_of(s, c).walls@,
            w,
        ),
        StateCommand::AddDoor(d) => has_chamber(cs, d.part_of) && has_wall(
            chamber_of(s, d.part_of).walls@,
            d.on_wall,
        ) && on_walls.len() == all_walls(cs).len() && can_add_door(s.dungeon.doors@, d.id),
        StateCommand::ChangeDoorName(d, _) => has_door(s.dungeon.doors@, d),
        StateCommand::ChangeDoorNotes(d, _) => has_door(s.dungeon.doors@, d),
        StateCommand::ChangeDoorLeadsTo(d, _) => has_door(s.dungeon.doors@, d),
        StateCommand::ChangeDoorHidden(d, _) => has_door(s.dungeon.doors@, d),
        StateCommand::AddObject(_, _) => can_add_object(s.dungeon.objects@),
        StateCommand::ChangeObjectName(o, _) => has_object(s.dungeon.objects@, o),
        StateCommand::ChangeObjectNotes(o, _) => has_object(s.dungeon.objects@, o),
        StateCommand::ChangeObjectHidden(o, _) => has_object(s.dungeon.objects@, o),
        StateCommand::ChangeObjectStyle(o, _) => has_object(s.dungeon.objects@, o),
        _ => true,
    }
}

/// `post` and `events` are the state and the events after executing `cmd`
/// on `pre`.
pub open spec fn executed(
    cmd: StateCommand,
    pre: State,
    post: State,
    on_walls: Seq<bool>,
    events: Seq<StateEvent>,
) -> bool {
    let cs = pre.dungeon.chambers@;
    let ds = pre.dungeon.doors@;
    let os = pre.dungeon.objects@;
    match cmd {
        StateCommand::AddChamber => {
            let id = added_chamber_id(cs, 1);
            &&& post.dungeon.chambers@.len() == cs.len() + 1
            &&& post.dungeon.chambers@.drop_last() =~= cs
            &&& post.dungeon.chambers@.last().id == id
            &&& post.dungeon.chambers@.last().name@ =~= "New Chamber"@
            &&& post.dungeon.chambers@.last().notes@ =~= Seq::<char>::empty()
            &&& !post.dungeon.chambers@.last().hidden
            &&& post.dungeon.chambers@.last().walls@ =~= Seq::<Wall>::empty()
            &&& post.dungeon.chambers@.last().first_vert is None
            &&& only_chambers_change(pre.dungeon, post.dungeon)
            &&& post.active_chamber_id == Some(id)
            &&& post.mode == EditMode::AppendChamber
            &&& post.view == pre.view
            &&& post.active_door_id == pre.active_door_id
            &&& post.active_object_id == pre.active_object_id
            &&& events =~= seq![
                StateEvent::ChamberAdded(id),
                StateEvent::ActiveChamberChanged(Some(id)),
                StateEvent::EditModeChanged(EditMode::AppendChamber),
            ]
        },
        StateCommand::ChangeMode(m) => {
            &&& post.dungeon == pre.dungeon
            &&& post.mode == m
            &&& post.view == pre.view
            &&& post.active_chamber_id == pre.active_chamber_id
            &&& post.active_door_id == pre.active_door_id
            &&& post.active_object_id == pre.active_object_id
            &&& events =~= seq![StateEvent::EditModeChanged(m)]
        },
        StateCommand::SelectChamber(c) => {
            &&& post.dungeon == pre.dungeon
            &&& post.view == pre.view
            &&& post.mode == pre.mode
            &&& post.active_chamber_id == c
            &&& post.active_door_id is None
            &&& post.active_object_id is None
            &&& events =~= seq![
                StateEvent::ActiveDoorChanged(None),
                StateEvent::ActiveObjectChanged(None),
                StateEvent::ActiveChamberChanged(c),
            ]
        },
        StateCommand::SelectDoor(d) => {
            &&& post.dungeon == pre.dungeon
            &&& post.view == pre.view
            &&& post.mode == pre.mode
            &&& post.active_chamber_id is None
            &&& post.active_door_id == d
            &&& post.active_object_id is None
            &&& events =~= seq![
                StateEvent::ActiveChamberChanged(None),
                StateEvent::ActiveObjectChanged(None),
                StateEvent::ActiveDoorChanged(d),
            ]
        },
        StateCommand::SelectObject(o) => {
            &&& post.dungeon == pre.dungeon
            &&& post.view == pre.view
            &&& post.mode == pre.mode
            &&& post.active_chamber_id is None
            &&& post.active_door_id is None
            &&& post.active_object_id == o
            &&& events =~= seq![
                StateEvent::ActiveChamberChanged(None),
                StateEvent::ActiveDoorChanged(None),
                StateEvent::ActiveObjectChanged(o),
            ]
        },
        StateCommand::AddVertexToChamber(c, pos) => {
            let i = chamber_pos(cs, c);
            &&& post.dungeon.chambers@ =~= cs.update(i, post.dungeon.chambers@[i])
            &&& append_post(cs[i], post.dungeon.chambers@[i], pos)
            &&& only_chambers_change(pre.dungeon, post.dungeon)
            &&& same_selection(pre, post)
            &&& events =~= seq![StateEvent::ChamberModified(c)]
        },
        StateCommand::ChangeChamberName(c, name) => {
            let i = chamber_pos(cs, c);
            &&& post.dungeon.chambers@ =~= cs.update(i, Chamber { name: name, ..cs[i] })
            &&& only_chambers_change(pre.dungeon, post.dungeon)
            &&& same_selection(pre, post)
            &&& events =~= seq![StateEvent::ChamberModified(c)]
        },
        StateCommand::ChangeChamberNotes(c, notes) => {
            let i = chamber_pos(cs, c);
            &&& post.dungeon.chambers@ =~= cs.update(i, Chamber { notes: notes, ..cs[i] })
            &&& only_chambers_change(pre.dungeon, post.dungeon)
            &&& same_selection(pre, post)
            &&& events =~= seq![StateEvent::ChamberModified(c)]
        },
        StateCommand::ChangeChamberHidden(c, hidden) => {
            let i = chamber_pos(cs, c);
            &&& post.dungeon.chambers@ =~= cs.update(i, Chamber { hidden: hidden, ..cs[i] })
            &&& only_chambers_change(pre.dungeon, post.dungeon)
            &&& same_selection(pre, post)
            &&& events =~= seq![StateEvent::ChamberModified(c)]
        },
        StateCommand::SplitWall(c, w, pos) => {
            let i = chamber_pos(cs, c);
            &&& post.dungeon.chambers@ =~= cs.update(i, post.dungeon.chambers@[i])
            &&& split_post(cs[i], post.dungeon.chambers@[i], w, pos)
            &&& only_chambers_change(pre.dungeon, post.dungeon)
            &&& same_selection(pre, post)
            &&& events =~= seq![StateEvent::ChamberModified(c)]
        },
        StateCommand::CollapseWall(c, w) => {
            let i = chamber_pos(cs, c);
            let removed = collapsed_wall_id(cs[i].walls@, w);
            &&& post.dungeon.chambers@ =~= cs.update(i, post.dungeon.chambers@[i])
            &&& collapse_post(cs[i], post.dungeon.chambers@[i], w)
            &&& post.dungeon.doors@ =~= ds.filter(door_not_on_wall(c, removed))
            &&& post.dungeon.objects == pre.dungeon.objects
            &&& post.dungeon.name == pre.dungeon.name
            &&& post.dungeon.notes == pre.dungeon.notes
            &&& same_selection(pre, post)
            &&& events =~= ds.filter(door_on_wall(c, removed)).map_values(
                |d: Door| door_deleted(d.id),
            ).push(StateEvent::ChamberModified(c))
        },
        StateCommand::DeleteChamber(c) => {
            let deleted = if has_chamber(cs, c) {
                door_ids_part_of(ds, c)
            } else {
                Seq::empty()
            };
            &&& has_chamber(cs, c) ==> post.dungeon.chambers@ =~= cs.remove(chamber_pos(cs, c))
                && post.dungeon.doors@ =~= ds.filter(door_not_part_of(c))
            &&& !has_chamber(cs, c) ==> post.dungeon.chambers == pre.dungeon.chambers
                && post.dungeon.doors == pre.dungeon.doors
            &&& post.dungeon.objects == pre.dungeon.objects
            &&& post.dungeon.name == pre.dungeon.name
            &&& post.dungeon.notes == pre.dungeon.notes
            &&& post.view == pre.view
            &&& post.mode == pre.mode
            &&& post.active_door_id == pre.active_door_id
            &&& post.active_object_id == pre.active_object_id
            &&& post.active_chamber_id == (if pre.active_chamber_id == Some(c) {
                None
            } else {
                pre.active_chamber_id
            })
            &&& events =~= deleted.map_values(|id: DoorId| door_deleted(id)).push(
                StateEvent::ChamberDeleted(c),
            ) + (if pre.active_chamber_id == Some(c) {
                seq![StateEvent::ActiveChamberChanged(None)]
            } else {
                Seq::empty()
            })
        },
        StateCommand::AddDoor(d) => {
            let leads_to = match door_target(all_walls(cs), on_walls, d.part_of) {
                Some(t) => Some(t),
                None => d.leads_to,
            };
            let id = added_door_id(ds, d.id);
            &&& post.dungeon.doors@ =~= ds.push(Door { id: id, leads_to: leads_to, ..d })
            &&& only_doors_change(pre.dungeon, post.dungeon)
            &&& same_selection(pre, post)
            &&& events =~= seq![StateEvent::ChamberModified(d.part_of), StateEvent::DoorAdded(id)]
        },
        StateCommand::ChangeDoorName(id, name) => {
            let i = door_pos(ds, id);
            &&& post.dungeon.doors@ =~= ds.update(i, Door { name: name, ..ds[i] })
            &&& only_doors_change(pre.dungeon, post.dungeon)
            &&& same_selection(pre, post)
            &&& events =~= seq![StateEvent::DoorModified(id)]
        },
        StateCommand::ChangeDoorNotes(id, notes) => {
            let i = door_pos(ds, id);
            &&& post.dungeon.doors@ =~= ds.update(i, Door { notes: notes, ..ds[i] })
            &&& only_doors_change(pre.dungeon, post.dungeon)
            &&& same_selection(pre, post)
            &&& events =~= seq![StateEvent::DoorModified(id)]
        },
        StateCommand::ChangeDoorLeadsTo(id, c) => {
            let i = door_pos(ds, id);
            &&& post.dungeon.doors@ =~= ds.update(i, Door { leads_to: c, ..ds[i] })
            &&& only_doors_change(pre.dungeon, post.dungeon)
            &&& same_selection(pre, post)
            &&& events =~= seq![StateEvent::DoorModified(id)]
        },
        StateCommand::ChangeDoorHidden(id, hidden) => {
            let i = door_pos(ds, id);
            &&& post.dungeon.doors@ =~= ds.update(i, Door { hidden: hidden, ..ds[i] })
            &&& only_doors_change(pre.dungeon, post.dungeon)
            &&& same_selection(pre, post)
            &&& events =~= seq![StateEvent::DoorModified(id)]
        },
        StateCommand::DeleteDoor(id) => {
            &&& has_door(ds, id) ==> post.dungeon.doors@ =~= ds.remove(door_pos(ds, id))
            &&& !has_door(ds, id) ==> post.dungeon.doors == pre.dungeon.doors
            &&& only_doors_change(pre.dungeon, post.dungeon)
            &&& post.view == pre.view
            &&& post.mode == pre.mode
            &&& post.active_chamber_id == pre.active_chamber_id
            &&& post.active_object_id == pre.active_object_id
            &&& post.active_door_id == (if pre.active_door_id == Some(id) {
                None
            } else {
                pre.active_door_id
            })
            &&& events =~= seq![StateEvent::DoorDeleted(id)] + (if pre.active_door_id == Some(
                id,
            ) {
                seq![StateEvent::ActiveDoorChanged(None)]
            } else {
                Seq::empty()
            })
        },
        StateCommand::ChangeDungeonName(name) => {
            &&& post.dungeon.name == name
            &&& post.dungeon.chambers == pre.dungeon.chambers
            &&& post.dungeon.doors == pre.dungeon.doors
            &&& post.dungeon.objects == pre.dungeon.objects
            &&& post.dungeon.notes == pre.dungeon.notes
            &&& same_selection(pre, post)
            &&& events =~= seq![StateEvent::DungeonModified]
        },
        StateCommand::ChangeDungeonNotes(notes) => {
            &&& post.dungeon.notes == notes
            &&& post.dungeon.chambers == pre.dungeon.chambers
            &&& post.dungeon.doors == pre.dungeon.doors
            &&& post.dungeon.objects == pre.dungeon.objects
            &&& post.dungeon.name == pre.dungeon.name
            &&& same_selection(pre, post)
            &&& events =~= seq![StateEvent::DungeonModified]
        },
        StateCommand::AddObject(pos, part_of) => {
            let id = next_object_id_of(os);
            &&& post.dungeon.objects@.len() == os.len() + 1
            &&& post.dungeon.objects@.drop_last() =~= os
            &&& post.dungeon.objects@.last().id == id
            &&& post.dungeon.objects@.last().name@ =~= Seq::<char>::empty()
            &&& post.dungeon.objects@.last().notes@ =~= Seq::<char>::empty()
            &&& !post.dungeon.objects@.last().hidden
            &&& post.dungeon.objects@.last().style == ObjectStyle::Blocker
            &&& post.dungeon.objects@.last().pos == pos
            &&& post.dungeon.objects@.last().part_of == part_of
            &&& only_objects_change(pre.dungeon, post.dungeon)
            &&& same_selection(pre, post)
            &&& events =~= seq![StateEvent::ObjectAdded(id as ObjectId)]
        },
        StateCommand::DeleteObject(id) => {
            &&& has_object(os, id) ==> post.dungeon.objects@ =~= os.remove(object_pos(os, id))
            &&& !has_object(os, id) ==> post.dungeon.objects == pre.dungeon.objects
            &&& only_objects_change(pre.dungeon, post.dungeon)
            &&& post.view == pre.view
            &&& post.mode == pre.mode
            &&& post.active_chamber_id == pre.active_chamber_id
            &&& post.active_door_id == pre.active_door_id
            &&& post.active_object_id == (if pre.active_object_id == Some(id) {
                None
            } else {
                pre.active_object_id
            })
            &&& events =~= seq![StateEvent::ObjectDeleted(id)] + (if pre.active_object_id == Some(
                id,
            ) {
                seq![StateEvent::ActiveObjectChanged(None)]
            } else {
                Seq::empty()
            })
        },
        StateCommand::ChangeObjectName(id, name) => {
            let i = object_pos(os, id);
            &&& post.dungeon.objects@ =~= os.update(i, Object { name: name, ..os[i] })
            &&& only_objects_change(pre.dungeon, post.dungeon)
            &&& same_selection(pre, post)
            &&& events =~= seq![StateEvent::ObjectModified(id)]
        },
        StateCommand::ChangeObjectNotes(id, notes) => {
            let i = object_pos(os, id);
            &&& post.dungeon.objects@ =~= os.update(i, Object { notes: notes, ..os[i] })
            &&& only_objects_change(pre.dungeon, post.dungeon)
            &&& same_selection(pre, post)
            &&& events =~= seq![StateEvent::ObjectModified(id)]
        },
        StateCommand::ChangeObjectHidden(id, hidden) => {
            let i = object_pos(os, id);
            &&& post.dungeon.objects@ =~= os.update(i, Object { hidden: hidden, ..os[i] })
            &&& only_objects_change(pre.dungeon, post.dungeon)
            &&& same_selection(pre, post)
            &&& events =~= seq![StateEvent::ObjectModified(id)]
        },
        StateCommand::ChangeObjectStyle(id, style) => {
            let i = object_pos(os, id);
            &&& post.dungeon.objects@ =~= os.update(i, Object { style: style, ..os[i] })
            &&& only_objects_change(pre.dungeon, post.dungeon)
            &&& same_selection(pre, post)
            &&& events =~= seq![StateEvent::ObjectModified(id)]
        },
    }
}

/// Removes the doors on wall `wall_id` of chamber `chamber_id` and returns
/// the events that announce their deletion, in order.
fn remove_doors_on_wall(doors: &mut Vec<Door>, chamber_id: ChamberId, wall_id: WallId) -> (r: Vec<
    StateEvent,
>)
    ensures
        final(doors)@ == old(doors)@.filter(door_not_on_wall(chamber_id, wall_id)),
        r@ == old(doors)@.filter(door_on_wall(chamber_id, wall_id)).map_values(|d: Door| door_deleted(d.id)),
{
    let ghost old_doors = doors@;
    let mut events: Vec<StateEvent> = Vec::new();
    let mut kept: Vec<Door> = Vec::new();
    let mut i: usize = 0;
    while i < doors.len()
        invariant
            i <= doors@.len(),
            doors@ == old_doors,
            events@ == old_doors.take(i as int).filter(door_on_wall(chamber_id, wall_id)).map_values(
                |d: Door| door_deleted(d.id),
            ),
            kept@ == old_doors.take(i as int).filter(door_not_on_wall(chamber_id, wall_id)),
        decreases doors@.len() - i,
    {
        proof {
            reveal_with_fuel(Seq::<_>::filter, 1);
            assert(old_doors.take(i as int + 1).drop_last() == old_doors.take(i as int));
        }
        let d = doors[i].clone();
        if d.part_of == chamber_id && d.on_wall == wall_id {
            let ghost before = old_doors.take(i as int).filter(door_on_wall(chamber_id, wall_id));
            events.push(StateEvent::DoorDeleted(d.id));
            assert(before.push(d).map_values(|x: Door| door_deleted(x.id)) == before.map_values(
                |x: Door| door_deleted(x.id),
            ).push(door_deleted(d.id)));
        } else {
            kept.push(d);
        }
        i += 1;
    }
    assert(old_doors.take(i as int) == old_doors);
    *doors = kept;
    events
}

/// The events that announce the deletion of the doors `ids`, in order.
fn door_deleted_events(ids: &Vec<DoorId>) -> (r: Vec<StateEvent>)
    ensures
        r@ == ids@.map_values(|id: DoorId| door_deleted(id)),
{
    let mut events: Vec<StateEvent> = Vec::new();
    let mut i: usize = 0;
    while i < ids.len()
        invariant
            i <= ids@.len(),
            events@ == ids@.take(i as int).map_values(|id: DoorId| door_deleted(id)),
        decreases ids@.len() - i,
    {
        events.push(StateEvent::DoorDeleted(ids[i]));
        assert(ids@.take(i as int + 1) == ids@.take(i as int).push(ids@[i as int]));
        i += 1;
    }
    assert(ids@.take(i as int) == ids@);
    events
}

impl StateCommand {
    /// Whether `execute` can run on `state` with `on_walls`: the chambers,
    /// doors, objects and walls the command names exist, fresh ids are left,
    /// and a new door gets one flag per wall of the dungeon.
    pub fn is_executable(&self, state: &State, on_walls: &Vec<bool>) -> (r: bool)
        ensures
            r == can_execute(*self, *state, on_walls@),
    {
        let d = &state.dungeon;
        match self {
            StateCommand::AddChamber => d.chamber(1).is_none() || d.largest_chamber_id() < u32::MAX,
            StateCommand::AddVertexToChamber(c, _) => match d.chamber(*c) {
                Some(ch) => ch.largest_wall_id() < u32::MAX,
                None => false,
            },
            StateCommand::ChangeChamberName(c, _) => d.chamber(*c).is_some(),
            StateCommand::ChangeChamberNotes(c, _) => d.chamber(*c).is_some(),
            StateCommand::ChangeChamberHidden(c, _) => d.chamber(*c).is_some(),
            StateCommand::SplitWall(c, w, _) => match d.chamber(*c) {
                Some(ch) => ch.wall(*w).is_some() && ch.largest_wall_id() < u32::MAX,
                None => false,
            },
            StateCommand::CollapseWall(c, w) => match d.chamber(*c) {
                Some(ch) => ch.wall(*w).is_some(),
                None => false,
            },
            StateCommand::AddDoor(door) => match d.chamber(door.part_of) {
                Some(ch) => ch.wall(door.on_wall).is_some() && on_walls.len() == d.walls().len()
                    && (d.door(door.id).is_none() || d.largest_door_id() < u32::MAX),
                None => false,
            },
            StateCommand::ChangeDoorName(i, _) => d.door(*i).is_some(),
            StateCommand::ChangeDoorNotes(i, _) => d.door(*i).is_some(),
            StateCommand::ChangeDoorLeadsTo(i, _) => d.door(*i).is_some(),
            StateCommand::ChangeDoorHidden(i, _) => d.door(*i).is_some(),
            StateCommand::AddObject(_, _) => d.largest_object_id() < u32::MAX,
            StateCommand::ChangeObjectName(o, _) => d.object(*o).is_some(),
            StateCommand::ChangeObjectNotes(o, _) => d.object(*o).is_some(),
            StateCommand::ChangeObjectHidden(o, _) => d.object(*o).is_some(),
            StateCommand::ChangeObjectStyle(o, _) => d.object(*o).is_some(),
            _ => true,
        }
    }

    /// Applies the command to `state` and returns the events that announce
    /// what changed.
    ///
    /// For `AddDoor`, `on_walls` tells for each wall of the dungeon, in the
    /// order of `Dungeon::walls`, whether the new door's position lies on it;
    /// when those walls that belong to other chambers all belong to one
    /// chamber, the door leads there. Other commands do not read it.
    pub fn execute(&self, state: &mut State, on_walls: &Vec<bool>) -> (events: Vec<StateEvent>)
        requires
            can_execute(*self, *old(state), on_walls@),
        ensures
            executed(*self, *old(state), *final(state), on_walls@, events@),
    {
        match self {
            StateCommand::AddChamber => {
                let chamber_id = state.dungeon.add_chamber(Chamber::new());
                state.active_chamber_id = Some(chamber_id);
                state.mode = EditMode::AppendChamber;
                vec![
                    StateEvent::ChamberAdded(chamber_id),
                    StateEvent::ActiveChamberChanged(Some(chamber_id)),
                    StateEvent::EditModeChanged(EditMode::AppendChamber),
                ]
            },
            StateCommand::ChangeMode(mode) => {
                state.mode = *mode;
                vec![StateEvent::EditModeChanged(*mode)]
            },
            StateCommand::SelectChamber(chamber_id) => {
                state.active_chamber_id = *chamber_id;
                state.active_door_id = None;
                state.active_object_id = None;
                vec![
                    StateEvent::ActiveDoorChanged(None),
                    StateEvent::ActiveObjectChanged(None),
                    StateEvent::ActiveChamberChanged(*chamber_id),
                ]
            },
            StateCommand::SelectDoor(door_id) => {
                state.active_chamber_id = None;
                state.active_door_id = *door_id;
                state.active_object_id = None;
                vec![
                    StateEvent::ActiveChamberChanged(None),
                    StateEvent::ActiveObjectChanged(None),
                    StateEvent::ActiveDoorChanged(*door_id),
                ]
            },
            StateCommand::SelectObject(obj_id) => {
                state.active_chamber_id = None;
                state.active_door_id = None;
                state.active_object_id = *obj_id;
                vec![
                    StateEvent::ActiveChamberChanged(None),
                    StateEvent::ActiveDoorChanged(None),
                    StateEvent::ActiveObjectChanged(*obj_id),
                ]
            },
            StateCommand::AddVertexToChamber(chamber_id, pos) => {
                match state.dungeon.chamber_mut(*chamber_id) {
                    Some(c) => c.append(*pos),
                    None => {},
                }
                vec![StateEvent::ChamberModified(*chamber_id)]
            },
            StateCommand::ChangeChamberName(chamber_id, name) => {
                match state.dungeon.chamber_mut(*chamber_id) {
                    Some(c) => {
                        c.name = name.clone();
                    },
                    None => {},
                }
                vec![StateEvent::ChamberModified(*chamber_id)]
            },
            StateCommand::ChangeChamberNotes(chamber_id, notes) => {
                match state.dungeon.chamber_mut(*chamber_id) {
                    Some(c) => {
                        c.notes = notes.clone();
                    },
                    None => {},
                }
                vec![StateEvent::ChamberModified(*chamber_id)]
            },
            StateCommand::ChangeChamberHidden(chamber_id, hidden) => {
                match state.dungeon.chamber_mut(*chamber_id) {
                    Some(c) => {
                        c.hidden = *hidden;
                    },
                    None => {},
                }
                vec![StateEvent::ChamberModified(*chamber_id)]
            },
            StateCommand::SplitWall(chamber_id, wall_id, pos) => {
                match state.dungeon.chamber_mut(*chamber_id) {
                    Some(c) => c.split(*wall_id, *pos),
                    None => {},
                }
                vec![StateEvent::ChamberModified(*chamber_id)]
            },
            StateCommand::CollapseWall(chamber_id, wall_id) => {
                let removed_wall_id = match state.dungeon.chamber_mut(*chamber_id) {
                    Some(c) => c.collapse(*wall_id),
                    None => 0,
                };
                let mut events = remove_doors_on_wall(
                    &mut state.dungeon.doors,
                    *chamber_id,
                    removed_wall_id,
                );
                events.push(StateEvent::ChamberModified(*chamber_id));
                events
            },
            StateCommand::DeleteChamber(chamber_id) => {
                let deleted_door_ids = state.dungeon.remove_chamber(*chamber_id);
                let mut events = door_deleted_events(&deleted_door_ids);
                events.push(StateEvent::ChamberDeleted(*chamber_id));
                if state.active_chamber_id == Some(*chamber_id) {
                    state.active_chamber_id = None;
                    events.push(StateEvent::ActiveChamberChanged(None));
                }
                events
            },
            StateCommand::AddDoor(door) => {
                let mut door = door.clone();
                let walls = state.dungeon.walls();
                match find_door_target(&walls, on_walls, door.part_of) {
                    Some(target) => {
                        door.leads_to = Some(target);
                    },
                    None => {},
                }
                let part_of = door.part_of;
                let door_id = state.dungeon.add_door(door);
                vec![StateEvent::ChamberModified(part_of), StateEvent::DoorAdded(door_id)]
            },
            StateCommand::ChangeDoorName(door_id, name) => {
                match state.dungeon.door_mut(*door_id) {
                    Some(d) => {
                        d.name = name.clone();
                    },
                    None => {},
                }
                vec![StateEvent::DoorModified(*door_id)]
            },
            StateCommand::ChangeDoorNotes(door_id, notes) => {
                match state.dungeon.door_mut(*door_id) {
                    Some(d) => {
                        d.notes = notes.clone();
                    },
                    None => {},
                }
                vec![StateEvent::DoorModified(*door_id)]
            },
            StateCommand::ChangeDoorLeadsTo(door_id, chamber_id) => {
                match state.dungeon.door_mut(*door_id) {
                    Some(d) => {
                        d.leads_to = *chamber_id;
                    },
                    None => {},
                }
                vec![StateEvent::DoorModified(*door_id)]
            },
            StateCommand::ChangeDoorHidden(door_id, hidden) => {
                match state.dungeon.door_mut(*door_id) {
                    Some(d) => {
                        d.hidden = *hidden;
                    },
                    None => {},
                }
                vec![StateEvent::DoorModified(*door_id)]
            },
            StateCommand::DeleteDoor(door_id) => {
                state.dungeon.remove_door(*door_id);
                let mut events = vec![StateEvent::DoorDeleted(*door_id)];
                if state.active_door_id == Some(*door_id) {
                    state.active_door_id = None;
                    events.push(StateEvent::ActiveDoorChanged(None));
                }
                events
            },
            StateCommand::ChangeDungeonName(name) => {
                state.dungeon.name = name.clone();
                vec![StateEvent::DungeonModified]
            },
            StateCommand::ChangeDungeonNotes(notes) => {
                state.dungeon.notes = notes.clone();
                vec![StateEvent::DungeonModified]
            },
            StateCommand::AddObject(pos, part_of) => {
                let obj_id = state.dungeon.add_object(Object::new(*pos, *part_of));
                vec![StateEvent::ObjectAdded(obj_id)]
            },
            StateCommand::DeleteObject(object_id) => {
                state.dungeon.remove_object(*object_id);
                let mut events = vec![StateEvent::ObjectDeleted(*object_id)];
                if state.active_object_id == Some(*object_id) {
                    state.active_object_id = None;
                    events.push(StateEvent::ActiveObjectChanged(None));
                }
                events
            },
            StateCommand::ChangeObjectName(object_id, name) => {
                match state.dungeon.object_mut(*object_id) {
                    Some(o) => {
                        o.name = name.clone();
                    },
                    None => {},
                }
                vec![StateEvent::ObjectModified(*object_id)]
            },
            StateCommand::ChangeObjectNotes(object_id, notes) => {
                match state.dungeon.object_mut(*object_id) {
                    Some(o) => {
                        o.notes = notes.clone();
                    },
                    None => {},
                }
                vec![StateEvent::ObjectModified(*object_id)]
            },
            StateCommand::ChangeObjectHidden(object_id, hidden) => {
                match state.dungeon.object_mut(*object_id) {
                    Some(o) => {
                        o.hidden = *hidden;
                    },
                    None => {},
                }
                vec![StateEvent::ObjectModified(*object_id)]
            },
            StateCommand::ChangeObjectStyle(object_id, style) => {
                match state.dungeon.object_mut(*object_id) {
                    Some(o) => {
                        o.style = *style;
                    },
                    None => {},
                }
                vec![StateEvent::ObjectModified(*object_id)]
            },
        }
    }
}

/// The position of chamber `c` is in range and holds a chamber with that id.
pub proof fn lemma_chamber_found(cs: Seq<Chamber>, c: ChamberId)
    requires
        has_chamber(cs, c),
    ensures
        0 <= chamber_pos(cs, c) < cs.len(),
        cs[chamber_pos(cs, c)].id == c,
{
    lemma_first_index(cs, chamber_has_id(c));
}

/// The position of door `d` is in range and holds a door with that id.
pub proof fn lemma_door_found(ds: Seq<Door>, d: DoorId)
    requires
        has_door(ds, d),
    ensures
        0 <= door_pos(ds, d) < ds.len(),
        ds[door_pos(ds, d)].id == d,
{
    lemma_first_index(ds, door_has_id(d));
}

/// The position of object `o` is in range and holds an object with that id.
pub proof fn lemma_object_found(os: Seq<Object>, o: ObjectId)
    requires
        has_object(os, o),
    ensures
        0 <= object_pos(os, o) < os.len(),
        os[object_pos(os, o)].id == o,
{
    lemma_first_index(os, object_has_id(o));
}

/// Every command keeps the state well formed: chambers stay closed polygons
/// with unique wall ids, and chambers, doors and objects keep unique ids.
#[verifier::spinoff_prover]
#[verifier::rlimit(50)]
pub proof fn lemma_execute_keeps_wf(
    cmd: StateCommand,
    pre: State,
    post: State,
    on_walls: Seq<bool>,
    events: Seq<StateEvent>,
)
    requires
        pre.wf(),
        can_execute(cmd, pre, on_walls),
        executed(cmd, pre, post, on_walls, events),
    ensures
        post.wf(),
{
    let cs = pre.dungeon.chambers@;
    let ds = pre.dungeon.doors@;
    let os = pre.dungeon.objects@;
    let pcs = post.dungeon.chambers@;
    match cmd {
        StateCommand::AddChamber => {
            let id = added_chamber_id(cs, 1);
            if has_chamber(cs, 1) {
                lemma_fresh_above_max(cs, chamber_key(), id);
            }
            assert(pcs =~= cs.push(pcs.last()));
            lemma_unique_push(cs, chamber_key(), pcs.last());
            assert forall|i: int| 0 <= i < pcs.len() implies (#[trigger] pcs[i]).wf() by {
                if i < cs.len() {
                    assert(pcs[i] == cs[i]);
                }
            }
        },
        StateCommand::AddVertexToChamber(c, pos) => {
            lemma_chamber_found(cs, c);
            let i = chamber_pos(cs, c);
            lemma_append_post_wf(cs[i], pcs[i], pos);
            lemma_unique_update(cs, chamber_key(), i, pcs[i]);
        },
        StateCommand::ChangeChamberName(c, _) => {
            lemma_chamber_found(cs, c);
            let i = chamber_pos(cs, c);
            lemma_unique_update(cs, chamber_key(), i, pcs[i]);
        },
        StateCommand::ChangeChamberNotes(c, _) => {
            lemma_chamber_found(cs, c);
            let i = chamber_pos(cs, c);
            lemma_unique_update(cs, chamber_key(), i, pcs[i]);
        },
        StateCommand::ChangeChamberHidden(c, _) => {
            lemma_chamber_found(cs, c);
            let i = chamber_pos(cs, c);
            lemma_unique_update(cs, chamber_key(), i, pcs[i]);
        },
        StateCommand::SplitWall(c, w, pos) => {
            lemma_chamber_found(cs, c);
            let i = chamber_pos(cs, c);
            lemma_split_post_wf(cs[i], pcs[i], w, pos);
            lemma_unique_update(cs, chamber_key(), i, pcs[i]);
        },
        StateCommand::CollapseWall(c, w) => {
            lemma_chamber_found(cs, c);
            let i = chamber_pos(cs, c);
            lemma_collapse_post_wf(cs[i], pcs[i], w);
            lemma_unique_update(cs, chamber_key(), i, pcs[i]);
            lemma_unique_filter(ds, door_key(), door_not_on_wall(c, collapsed_wall_id(cs[i].walls@, w)));
        },
        StateCommand::DeleteChamber(c) => {
            if has_chamber(cs, c) {
                lemma_chamber_found(cs, c);
                let i = chamber_pos(cs, c);
                lemma_unique_remove(cs, chamber_key(), i);
                lemma_unique_filter(ds, door_key(), door_not_part_of(c));
                assert forall|k: int| 0 <= k < pcs.len() implies (#[trigger] pcs[k]).wf() by {
                    if k < i {
                        assert(pcs[k] == cs[k]);
                    } else {
                        assert(pcs[k] == cs[k + 1]);
                    }
                }
            }
        },
        StateCommand::AddDoor(d) => {
            let id = added_door_id(ds, d.id);
            if has_door(ds, d.id) {
                lemma_fresh_above_max(ds, door_key(), id);
            }
            let leads_to = match door_target(all_walls(cs), on_walls, d.part_of) {
                Some(t) => Some(t),
                None => d.leads_to,
            };
            lemma_unique_push(ds, door_key(), Door { id: id, leads_to: leads_to, ..d });
        },
        StateCommand::ChangeDoorName(d, _) => {
            lemma_door_found(ds, d);
            let i = door_pos(ds, d);
            lemma_unique_update(ds, door_key(), i, post.dungeon.doors@[i]);
        },
        StateCommand::ChangeDoorNotes(d, _) => {
            lemma_door_found(ds, d);
            let i = door_pos(ds, d);
            lemma_unique_update(ds, door_key(), i, post.dungeon.doors@[i]);
        },
        StateCommand::ChangeDoorLeadsTo(d, _) => {
            lemma_door_found(ds, d);
            let i = door_pos(ds, d);
            lemma_unique_update(ds, door_key(), i, post.dungeon.doors@[i]);
        },
        StateCommand::ChangeDoorHidden(d, _) => {
            lemma_door_found(ds, d);
            let i = door_pos(ds, d);
            lemma_unique_update(ds, door_key(), i, post.dungeon.doors@[i]);
        },
        StateCommand::DeleteDoor(d) => {
            if has_door(ds, d) {
                lemma_door_found(ds, d);
                lemma_unique_remove(ds, door_key(), door_pos(ds, d));
            }
        },
        StateCommand::AddObject(_, _) => {
            lemma_fresh_above_max(os, object_key(), next_object_id_of(os) as u32);
            lemma_unique_push(os, object_key(), post.dungeon.objects@.last());
            assert(post.dungeon.objects@ =~= os.push(post.dungeon.objects@.last()));
        },
        StateCommand::DeleteObject(o) => {
            if has_object(os, o) {
                lemma_object_found(os, o);
                lemma_unique_remove(os, object_key(), object_pos(os, o));
            }
        },
        StateCommand::ChangeObjectName(o, _) => {
            lemma_object_found(os, o);
            let i = object_pos(os, o);
            lemma_unique_update(os, object_key(), i, post.dungeon.objects@[i]);
        },
        StateCommand::ChangeObjectNotes(o, _) => {
            lemma_object_found(os, o);
            let i = object_pos(os, o);
            lemma_unique_update(os, object_key(), i, post.dungeon.objects@[i]);
        },
        StateCommand::ChangeObjectHidden(o, _) => {
            lemma_object_found(os, o);
            let i = object_pos(os, o);
            lemma_unique_update(os, object_key(), i, post.dungeon.objects@[i]);
        },
        StateCommand::ChangeObjectStyle(o, _) => {
            lemma_object_found(os, o);
            let i = object_pos(os, o);
            lemma_unique_update(os, object_key(), i, post.dungeon.objects@[i]);
        },
        _ => {},
    }
}

/// Doors stay on walls: if every door stands on an existing wall of its own
/// chamber before a command, so it does after it. Walls keep their ids when
/// corners are added or split off; a collapsed corner takes the doors of the
/// removed wall with it, a deleted chamber its doors, and a new door is only
/// placed on a wall of its chamber.
#[verifier::spinoff_prover]
#[verifier::rlimit(50)]
pub proof fn lemma_execute_keeps_doors_on_walls(
    cmd: StateCommand,
    pre: State,
    post: State,
    on_walls: Seq<bool>,
    events: Seq<StateEvent>,
)
    requires
        pre.wf(),
        pre.doors_on_walls(),
        can_execute(cmd, pre, on_walls),
        executed(cmd, pre, post, on_walls, events),
    ensures
        post.doors_on_walls(),
{
    let cs = pre.dungeon.chambers@;
    let ds = pre.dungeon.doors@;
    let pcs = post.dungeon.chambers@;
    let pds = post.dungeon.doors@;
    match cmd {
        StateCommand::AddChamber => {
            assert forall|j: int| #![trigger pds[j]] 0 <= j < pds.len() implies exists|k: int|
                0 <= k < pcs.len() && #[trigger] pcs[k].id == pds[j].part_of && has_wall(
                    pcs[k].walls@,
                    pds[j].on_wall,
                ) by {
                assert(pds[j] == ds[j]);
                let k = choose|k: int|
                    0 <= k < cs.len() && #[trigger] cs[k].id == ds[j].part_of && has_wall(
                        cs[k].walls@,
                        ds[j].on_wall,
                    );
                assert(pcs.drop_last()[k] == cs[k]);
                assert(pcs[k] == cs[k]);
                assert(pcs[k].id == cs[k].id);
            }
        },
        StateCommand::ChangeChamberName(c, _) => {
            lemma_chamber_found(cs, c);
            let i = chamber_pos(cs, c);
            assert forall|j: int| #![trigger pds[j]] 0 <= j < pds.len() implies exists|k: int|
                0 <= k < pcs.len() && #[trigger] pcs[k].id == pds[j].part_of && has_wall(
                    pcs[k].walls@,
                    pds[j].on_wall,
                ) by {
                assert(pds[j] == ds[j]);
                let k = choose|k: int|
                    0 <= k < cs.len() && #[trigger] cs[k].id == ds[j].part_of && has_wall(
                        cs[k].walls@,
                        ds[j].on_wall,
                    );
                assert(pcs[k].id == cs[k].id && pcs[k].walls == cs[k].walls);
            }
        },
        StateCommand::ChangeChamberNotes(c, _) => {
            lemma_chamber_found(cs, c);
            let i = chamber_pos(cs, c);
            assert forall|j: int| #![trigger pds[j]] 0 <= j < pds.len() implies exists|k: int|
                0 <= k < pcs.len() && #[trigger] pcs[k].id == pds[j].part_of && has_wall(
                    pcs[k].walls@,
                    pds[j].on_wall,
                ) by {
                assert(pds[j] == ds[j]);
                let k = choose|k: int|
                    0 <= k < cs.len() && #[trigger] cs[k].id == ds[j].part_of && has_wall(
                        cs[k].walls@,
                        ds[j].on_wall,
                    );
                assert(pcs[k].id == cs[k].id && pcs[k].walls == cs[k].walls);
            }
        },
        StateCommand::ChangeChamberHidden(c, _) => {
            lemma_chamber_found(cs, c);
            let i = chamber_pos(cs, c);
            assert forall|j: int| #![trigger pds[j]] 0 <= j < pds.len() implies exists|k: int|
                0 <= k < pcs.len() && #[trigger] pcs[k].id == pds[j].part_of && has_wall(
                    pcs[k].walls@,
                    pds[j].on_wall,
                ) by {
                assert(pds[j] == ds[j]);
                let k = choose|k: int|
                    0 <= k < cs.len() && #[trigger] cs[k].id == ds[j].part_of && has_wall(
                        cs[k].walls@,
                        ds[j].on_wall,
                    );
                assert(pcs[k].id == cs[k].id && pcs[k].walls == cs[k].walls);
            }
        },
        StateCommand::AddVertexToChamber(c, pos) => {
            lemma_chamber_found(cs, c);
            let i = chamber_pos(cs, c);
            assert forall|j: int| #![trigger pds[j]] 0 <= j < pds.len() implies exists|k: int|
                0 <= k < pcs.len() && #[trigger] pcs[k].id == pds[j].part_of && has_wall(
                    pcs[k].walls@,
                    pds[j].on_wall,
                ) by {
                assert(pds[j] == ds[j]);
                let k = choose|k: int|
                    0 <= k < cs.len() && #[trigger] cs[k].id == ds[j].part_of && has_wall(
                        cs[k].walls@,
                        ds[j].on_wall,
                    );
                if k == i {
                    lemma_append_keeps_ids(cs[i].walls@, cs[i].first_vert, cs[i].id, pos, ds[j].on_wall);
                }
                assert(pcs[k].id == cs[k].id);
            }
        },
        StateCommand::SplitWall(c, w, pos) => {
            lemma_chamber_found(cs, c);
            let i = chamber_pos(cs, c);
            assert forall|j: int| #![trigger pds[j]] 0 <= j < pds.len() implies exists|k: int|
                0 <= k < pcs.len() && #[trigger] pcs[k].id == pds[j].part_of && has_wall(
                    pcs[k].walls@,
                    pds[j].on_wall,
                ) by {
                assert(pds[j] == ds[j]);
                let k = choose|k: int|
                    0 <= k < cs.len() && #[trigger] cs[k].id == ds[j].part_of && has_wall(
                        cs[k].walls@,
                        ds[j].on_wall,
                    );
                if k == i {
                    lemma_split_keeps_ids(cs[i].walls@, w, pos, ds[j].on_wall);
                }
                assert(pcs[k].id == cs[k].id);
            }
        },
        StateCommand::CollapseWall(c, w) => {
            lemma_chamber_found(cs, c);
            let i = chamber_pos(cs, c);
            let removed = collapsed_wall_id(cs[i].walls@, w);
            let p = door_not_on_wall(c, removed);
            assert forall|j: int| #![trigger pds[j]] 0 <= j < pds.len() implies exists|k: int|
                0 <= k < pcs.len() && #[trigger] pcs[k].id == pds[j].part_of && has_wall(
                    pcs[k].walls@,
                    pds[j].on_wall,
                ) by {
                assert(ds.filter(p)[j] == pds[j]);
                ds.lemma_filter_pred(p, j);
                ds.lemma_filter_contains_rev(p, pds[j]);
                let m = choose|m: int| 0 <= m < ds.len() && ds[m] == pds[j];
                let k = choose|k: int|
                    0 <= k < cs.len() && #[trigger] cs[k].id == ds[m].part_of && has_wall(
                        cs[k].walls@,
                        ds[m].on_wall,
                    );
                if k == i {
                    lemma_collapse_keeps_ids(cs[i].walls@, w, ds[m].on_wall);
                }
                assert(pcs[k].id == cs[k].id);
            }
        },
        StateCommand::DeleteChamber(c) => {
            if has_chamber(cs, c) {
                lemma_chamber_found(cs, c);
                let i = chamber_pos(cs, c);
                let p = door_not_part_of(c);
                assert forall|j: int| #![trigger pds[j]] 0 <= j < pds.len() implies exists|k: int|
                    0 <= k < pcs.len() && #[trigger] pcs[k].id == pds[j].part_of && has_wall(
                        pcs[k].walls@,
                        pds[j].on_wall,
                    ) by {
                    assert(ds.filter(p)[j] == pds[j]);
                    ds.lemma_filter_pred(p, j);
                    ds.lemma_filter_contains_rev(p, pds[j]);
                    let m = choose|m: int| 0 <= m < ds.len() && ds[m] == pds[j];
                    let k = choose|k: int|
                        0 <= k < cs.len() && #[trigger] cs[k].id == ds[m].part_of && has_wall(
                            cs[k].walls@,
                            ds[m].on_wall,
                        );
                    assert(k != i);
                    if k < i {
                        assert(pcs[k] == cs[k]);
                    } else {
                        assert(pcs[k - 1] == cs[k]);
                    }
                }
            }
        },
        StateCommand::AddDoor(d) => {
            lemma_chamber_found(cs, d.part_of);
            let i = chamber_pos(cs, d.part_of);
            assert forall|j: int| #![trigger pds[j]] 0 <= j < pds.len() implies exists|k: int|
                0 <= k < pcs.len() && #[trigger] pcs[k].id == pds[j].part_of && has_wall(
                    pcs[k].walls@,
                    pds[j].on_wall,
                ) by {
                if j < ds.len() {
                    assert(pds[j] == ds[j]);
                } else {
                    assert(pcs[i].id == pds[j].part_of);
                }
            }
        },
        StateCommand::ChangeDoorName(id, _) => {
            lemma_door_found(ds, id);
            assert forall|j: int| #![trigger pds[j]] 0 <= j < pds.len() implies exists|k: int|
                0 <= k < pcs.len() && #[trigger] pcs[k].id == pds[j].part_of && has_wall(
                    pcs[k].walls@,
                    pds[j].on_wall,
                ) by {
                assert(pds[j].part_of == ds[j].part_of && pds[j].on_wall == ds[j].on_wall);
            }
        },
        StateCommand::ChangeDoorNotes(id, _) => {
            lemma_door_found(ds, id);
            assert forall|j: int| #![trigger pds[j]] 0 <= j < pds.len() implies exists|k: int|
                0 <= k < pcs.len() && #[trigger] pcs[k].id == pds[j].part_of && has_wall(
                    pcs[k].walls@,
                    pds[j].on_wall,
                ) by {
                assert(pds[j].part_of == ds[j].part_of && pds[j].on_wall == ds[j].on_wall);
            }
        },
        StateCommand::ChangeDoorLeadsTo(id, _) => {
            lemma_door_found(ds, id);
            assert forall|j: int| #![trigger pds[j]] 0 <= j < pds.len() implies exists|k: int|
                0 <= k < pcs.len() && #[trigger] pcs[k].id == pds[j].part_of && has_wall(
                    pcs[k].walls@,
                    pds[j].on_wall,
                ) by {
                assert(pds[j].part_of == ds[j].part_of && pds[j].on_wall == ds[j].on_wall);
            }
        },
        StateCommand::ChangeDoorHidden(id, _) => {
            lemma_door_found(ds, id);
            assert forall|j: int| #![trigger pds[j]] 0 <= j < pds.len() implies exists|k: int|
                0 <= k < pcs.len() && #[trigger] pcs[k].id == pds[j].part_of && has_wall(
                    pcs[k].walls@,
                    pds[j].on_wall,
                ) by {
                assert(pds[j].part_of == ds[j].part_of && pds[j].on_wall == ds[j].on_wall);
            }
        },
        StateCommand::DeleteDoor(id) => {
            if has_door(ds, id) {
                lemma_door_found(ds, id);
                let i = door_pos(ds, id);
                assert forall|j: int| #![trigger pds[j]] 0 <= j < pds.len() implies exists|k: int|
                    0 <= k < pcs.len() && #[trigger] pcs[k].id == pds[j].part_of && has_wall(
                        pcs[k].walls@,
                        pds[j].on_wall,
                    ) by {
                    if j < i {
                        assert(pds[j] == ds[j]);
                    } else {
                        assert(pds[j] == ds[j + 1]);
                    }
                }
            }
        },
        _ => {},
    }
}

/// The dungeons and selections of two states agree.
pub open spec fn same_editor_state(a: State, b: State) -> bool {
    &&& a.dungeon.chambers@ == b.dungeon.chambers@
    &&& a.dungeon.doors@ == b.dungeon.doors@
    &&& a.dungeon.objects@ == b.dungeon.objects@
    &&& a.dungeon.name == b.dungeon.name
    &&& a.dungeon.notes == b.dungeon.notes
    &&& a.view == b.view
    &&& a.mode == b.mode
    &&& a.active_chamber_id == b.active_chamber_id
    &&& a.active_door_id == b.active_door_id
    &&& a.active_object_id == b.active_object_id
}

/// A later edit of a text overrides an earlier one: editing the same text
/// twice leaves the same state, with the same events, as the second edit
/// alone. This is why the history may merge runs of text edits.
#[verifier::spinoff_prover]
pub proof fn lemma_text_edit_overrides(
    first: StateCommand,
    second: StateCommand,
    s0: State,
    s1: State,
    s2: State,
    s3: State,
    on_walls: Seq<bool>,
    e1: Seq<StateEvent>,
    e2: Seq<StateEvent>,
    e3: Seq<StateEvent>,
)
    requires
        text_edit(first) matches Some((k1, id1, _)) && text_edit(second) matches Some((k2, id2, _))
            && k1 == k2 && id1 == id2,
        can_execute(first, s0, on_walls),
        executed(first, s0, s1, on_walls, e1),
        executed(second, s1, s2, on_walls, e2),
        executed(second, s0, s3, on_walls, e3),
    ensures
        same_editor_state(s2, s3),
        e2 == e3,
{
    let cs = s0.dungeon.chambers@;
    let ds = s0.dungeon.doors@;
    match (first, second) {
        (StateCommand::ChangeChamberName(c, _), StateCommand::ChangeChamberName(_, b)) => {
            lemma_chamber_found(cs, c);
            let i = chamber_pos(cs, c);
            lemma_first_index_update(cs, chamber_has_id(c), i, s1.dungeon.chambers@[i]);
            assert(s2.dungeon.chambers@ =~= s3.dungeon.chambers@);
        },
        (StateCommand::ChangeChamberNotes(c, _), StateCommand::ChangeChamberNotes(_, b)) => {
            lemma_chamber_found(cs, c);
            let i = chamber_pos(cs, c);
            lemma_first_index_update(cs, chamber_has_id(c), i, s1.dungeon.chambers@[i]);
            assert(s2.dungeon.chambers@ =~= s3.dungeon.chambers@);
        },
        (StateCommand::ChangeDoorName(d, _), StateCommand::ChangeDoorName(_, b)) => {
            lemma_door_found(ds, d);
            let i = door_pos(ds, d);
            lemma_first_index_update(ds, door_has_id(d), i, s1.dungeon.doors@[i]);
            assert(s2.dungeon.doors@ =~= s3.dungeon.doors@);
        },
        (StateCommand::ChangeDoorNotes(d, _), StateCommand::ChangeDoorNotes(_, b)) => {
            lemma_door_found(ds, d);
            let i = door_pos(ds, d);
            lemma_first_index_update(ds, door_has_id(d), i, s1.dungeon.doors@[i]);
            assert(s2.dungeon.doors@ =~= s3.dungeon.doors@);
        },
        _ => {},
    }
}

} // verus!
