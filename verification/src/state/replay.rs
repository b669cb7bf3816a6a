//! Replaying commands on the content of a state. `step` gives what a
//! command does to a state's content, and `executed` agrees with it
//! (`lemma_executed_view`); replaying the recorded history gives the content
//! that replaying every command gives (`lemma_replay_recorded`), and can be
//! carried out whenever every command could (`lemma_recorded_replays_fully`).
//! `replay` executes a list of commands, as undoing does with the history.

use vstd::prelude::*;

use crate::chamber::{
    appended_walls, collapsed_wall_id, collapsed_walls, has_wall, max_wall_id, split_walls, Chamber,
    ChamberId, ChamberView, Wall, WallId,
};
use crate::door::{Door, DoorId, DoorView};
use crate::dungeon::{
    added_chamber_id, added_door_id, all_walls, chamber_has_id, chamber_key, chamber_pos,
    door_has_id, door_key, door_not_part_of, door_pos, has_chamber, has_door, has_object,
    object_has_id, object_key, object_pos, Dungeon,
};
use crate::ids::{first_index, lemma_first_index, lemma_first_index_update, max_key};
use crate::object::{Object, ObjectId, ObjectStyle, ObjectView};
use crate::observers::{merges, recorded_all, same_text_edit, text_edit};
use crate::state::commands::{
    can_execute, door_not_on_wall, door_target, executed, lemma_chamber_found, lemma_door_found,
    lemma_object_found,
};
use crate::state::edit_mode::EditMode;
use crate::state::events::StateEvent;
use crate::state::{State, StateCommand};

verus! {

/// The first index that `q` picks in the images of `s` under `f` is the
/// first index that `p` picks in `s`, when `p` holds exactly where `q` holds
/// of the image.
pub proof fn lemma_first_index_map<A, B>(
    s: Seq<A>,
    f: spec_fn(A) -> B,
    p: spec_fn(A) -> bool,
    q: spec_fn(B) -> bool,
)
    requires
        forall|i: int| 0 <= i < s.len() ==> p(#[trigger] s[i]) == q(f(s[i])),
    ensures
        first_index(s, p) == first_index(s.map_values(f), q),
    decreases s.len(),
{
    let m = s.map_values(f);
    if s.len() > 0 {
        assert(p(s[0]) == q(f(s[0])));
        assert(m[0] == f(s[0]));
        if !p(s[0]) {
            assert(m.drop_first() =~= s.drop_first().map_values(f));
            assert forall|i: int| 0 <= i < s.drop_first().len() implies p(
                #[trigger] s.drop_first()[i],
            ) == q(f(s.drop_first()[i])) by {
                assert(p(s[i + 1]) == q(f(s[i + 1])));
            }
            lemma_first_index_map(s.drop_first(), f, p, q);
        }
    }
}

/// The largest key of the images of `s` under `f` is the largest key of
/// `s`, when keys agree.
pub proof fn lemma_max_key_map<A, B>(
    s: Seq<A>,
    f: spec_fn(A) -> B,
    ka: spec_fn(A) -> u32,
    kb: spec_fn(B) -> u32,
)
    requires
        forall|i: int| 0 <= i < s.len() ==> ka(#[trigger] s[i]) == kb(f(s[i])),
    ensures
        max_key(s, ka) == max_key(s.map_values(f), kb),
    decreases s.len(),
{
    if s.len() > 0 {
        assert(s.map_values(f).drop_last() =~= s.drop_last().map_values(f));
        assert forall|i: int| 0 <= i < s.drop_last().len() implies ka(#[trigger] s.drop_last()[i])
            == kb(f(s.drop_last()[i])) by {
            assert(ka(s[i]) == kb(f(s[i])));
        }
        lemma_max_key_map(s.drop_last(), f, ka, kb);
        assert(ka(s[s.len() - 1]) == kb(f(s[s.len() - 1])));
    }
}

/// Filtering and then taking images is taking images and then filtering,
/// when the predicates agree.
pub proof fn lemma_filter_map<A, B>(
    s: Seq<A>,
    f: spec_fn(A) -> B,
    p: spec_fn(A) -> bool,
    q: spec_fn(B) -> bool,
)
    requires
        forall|i: int| 0 <= i < s.len() ==> p(#[trigger] s[i]) == q(f(s[i])),
    ensures
        s.filter(p).map_values(f) == s.map_values(f).filter(q),
    decreases s.len(),
{
    reveal_with_fuel(Seq::<_>::filter, 1);
    if s.len() > 0 {
        let d = s.drop_last();
        assert(s.map_values(f).drop_last() =~= d.map_values(f));
        assert forall|i: int| 0 <= i < d.len() implies p(#[trigger] d[i]) == q(f(d[i])) by {
            assert(p(s[i]) == q(f(s[i])));
        }
        lemma_filter_map(d, f, p, q);
        assert(p(s[s.len() - 1]) == q(f(s[s.len() - 1])));
        assert(s.map_values(f).last() == f(s.last()));
        if p(s.last()) {
            assert(d.filter(p).push(s.last()).map_values(f) =~= d.filter(p).map_values(f).push(
                f(s.last()),
            ));
        }
    }
}

/// The content of a dungeon, camera, tool and selection.
pub struct StateView {
    pub chambers: Seq<ChamberView>,
    pub doors: Seq<DoorView>,
    pub objects: Seq<ObjectView>,
    pub name: Seq<char>,
    pub notes: Seq<char>,
    pub camera: crate::view::View,
    pub mode: EditMode,
    pub active_chamber: Option<ChamberId>,
    pub active_door: Option<DoorId>,
    pub active_object: Option<ObjectId>,
}

/// The content of a chamber.
pub open spec fn chamber_v() -> spec_fn(Chamber) -> ChamberView {
    |c: Chamber| c@
}

/// The content of a door.
pub open spec fn door_v() -> spec_fn(Door) -> DoorView {
    |d: Door| d@
}

/// The content of an object.
pub open spec fn object_v() -> spec_fn(Object) -> ObjectView {
    |o: Object| o@
}

/// The content of a state.
pub open spec fn state_view(s: State) -> StateView {
    StateView {
        chambers: s.dungeon.chambers@.map_values(chamber_v()),
        doors: s.dungeon.doors@.map_values(door_v()),
        objects: s.dungeon.objects@.map_values(object_v()),
        name: s.dungeon.name@,
        notes: s.dungeon.notes@,
        camera: s.view,
        mode: s.mode,
        active_chamber: s.active_chamber_id,
        active_door: s.active_door_id,
        active_object: s.active_object_id,
    }
}

/// Holds for the content of a chamber with id `id`.
pub open spec fn cv_has_id(id: ChamberId) -> spec_fn(ChamberView) -> bool {
    |c: ChamberView| c.id == id
}

/// Holds for the content of a door with id `id`.
pub open spec fn dv_has_id(id: DoorId) -> spec_fn(DoorView) -> bool {
    |d: DoorView| d.id == id
}

/// Holds for the content of an object with id `id`.
pub open spec fn ov_has_id(id: ObjectId) -> spec_fn(ObjectView) -> bool {
    |o: ObjectView| o.id == id
}

/// The id of a chamber's content.
pub open spec fn cv_key() -> spec_fn(ChamberView) -> u32 {
    |c: ChamberView| c.id
}

/// The id of a door's content.
pub open spec fn dv_key() -> spec_fn(DoorView) -> u32 {
    |d: DoorView| d.id
}

/// The id of an object's content.
pub open spec fn ov_key() -> spec_fn(ObjectView) -> u32 {
    |o: ObjectView| o.id
}

/// `true` when some chamber has id `id`.
pub open spec fn has_cv(cs: Seq<ChamberView>, id: ChamberId) -> bool {
    exists|i: int| 0 <= i < cs.len() && cs[i].id == id
}

/// `true` when some door has id `id`.
pub open spec fn has_dv(ds: Seq<DoorView>, id: DoorId) -> bool {
    exists|i: int| 0 <= i < ds.len() && ds[i].id == id
}

/// `true` when some object has id `id`.
pub open spec fn has_ov(os: Seq<ObjectView>, id: ObjectId) -> bool {
    exists|i: int| 0 <= i < os.len() && os[i].id == id
}

/// The walls of all chambers, chamber after chamber.
pub open spec fn view_walls(cs: Seq<ChamberView>) -> Seq<Wall>
    decreases cs.len(),
{
    if cs.len() == 0 {
        Seq::empty()
    } else {
        view_walls(cs.drop_last()) + cs.last().walls
    }
}

/// Holds for a door that is not on wall `w` of chamber `c`.
pub open spec fn dv_not_on_wall(c: ChamberId, w: WallId) -> spec_fn(DoorView) -> bool {
    |d: DoorView| !(d.part_of == c && d.on_wall == w)
}

/// Holds for a door that is not part of chamber `c`.
pub open spec fn dv_not_part_of(c: ChamberId) -> spec_fn(DoorView) -> bool {
    |d: DoorView| d.part_of != c
}

/// The content after replacing the chamber with id `c` by `f` of it, when
/// there is one.
pub open spec fn with_chamber(v: StateView, c: ChamberId, f: spec_fn(ChamberView) -> ChamberView) -> StateView {
    if has_cv(v.chambers, c) {
        let i = first_index(v.chambers, cv_has_id(c));
        StateView { chambers: v.chambers.update(i, f(v.chambers[i])), ..v }
    } else {
        v
    }
}

/// The content after replacing the door with id `d` by `f` of it, when there
/// is one.
pub open spec fn with_door(v: StateView, d: DoorId, f: spec_fn(DoorView) -> DoorView) -> StateView {
    if has_dv(v.doors, d) {
        let i = first_index(v.doors, dv_has_id(d));
        StateView { doors: v.doors.update(i, f(v.doors[i])), ..v }
    } else {
        v
    }
}

/// The content after replacing the object with id `o` by `f` of it, when
/// there is one.
pub open spec fn with_object(v: StateView, o: ObjectId, f: spec_fn(ObjectView) -> ObjectView) -> StateView {
    if has_ov(v.objects, o) {
        let i = first_index(v.objects, ov_has_id(o));
        StateView { objects: v.objects.update(i, f(v.objects[i])), ..v }
    } else {
        v
    }
}

/// What the command `cmd` does to the content `v`, a new door given the
/// wall flags `on`.
pub open spec fn next_view(cmd: StateCommand, v: StateView, on: Seq<bool>) -> StateView {
    let cs = v.chambers;
    let ds = v.doors;
    let os = v.objects;
    match cmd {
        StateCommand::AddChamber => {
            let id: ChamberId = if has_cv(cs, 1) {
                (max_key(cs, cv_key()) + 1) as ChamberId
            } else {
                1
            };
            StateView {
                chambers: cs.push(
                    ChamberView {
                        id,
                        name: "New Chamber"@,
                        notes: Seq::empty(),
                        hidden: false,
                        walls: Seq::empty(),
                        first_vert: None,
                    },
                ),
                active_chamber: Some(id),
                mode: EditMode::AppendChamber,
                ..v
            }
        },
        StateCommand::ChangeMode(m) => StateView { mode: m, ..v },
        StateCommand::SelectChamber(c) => StateView {
            active_chamber: c,
            active_door: None,
            active_object: None,
            ..v
        },
        StateCommand::SelectDoor(d) => StateView {
            active_chamber: None,
            active_door: d,
            active_object: None,
            ..v
        },
        StateCommand::SelectObject(o) => StateView {
            active_chamber: None,
            active_door: None,
            active_object: o,
            ..v
        },
        StateCommand::AddVertexToChamber(c, pos) => with_chamber(
            v,
            c,
            |ch: ChamberView|
                ChamberView {
                    walls: appended_walls(ch.walls, ch.first_vert, ch.id, pos),
                    first_vert: if ch.walls.len() == 0 && ch.first_vert is None {
                        Some(pos)
                    } else {
                        ch.first_vert
                    },
                    ..ch
                },
        ),
        StateCommand::ChangeChamberName(c, n) => with_chamber(
            v,
            c,
            |ch: ChamberView| ChamberView { name: n@, ..ch },
        ),
        StateCommand::ChangeChamberNotes(c, n) => with_chamber(
            v,
            c,
            |ch: ChamberView| ChamberView { notes: n@, ..ch },
        ),
        StateCommand::ChangeChamberHidden(c, h) => with_chamber(
            v,
            c,
            |ch: ChamberView| ChamberView { hidden: h, ..ch },
        ),
        StateCommand::SplitWall(c, w, pos) => with_chamber(
            v,
            c,
            |ch: ChamberView| ChamberView { walls: split_walls(ch.walls, w, pos), ..ch },
        ),
        StateCommand::CollapseWall(c, w) => {
            if has_cv(cs, c) {
                let i = first_index(cs, cv_has_id(c));
                let removed = collapsed_wall_id(cs[i].walls, w);
                StateView {
                    chambers: cs.update(
                        i,
                        ChamberView { walls: collapsed_walls(cs[i].walls, w), ..cs[i] },
                    ),
                    doors: ds.filter(dv_not_on_wall(c, removed)),
                    ..v
                }
            } else {
                v
            }
        },
        StateCommand::DeleteChamber(c) => {
            let active = if v.active_chamber == Some(c) {
                None
            } else {
                v.active_chamber
            };
            if has_cv(cs, c) {
                StateView {
                    chambers: cs.remove(first_index(cs, cv_has_id(c))),
                    doors: ds.filter(dv_not_part_of(c)),
                    active_chamber: active,
                    ..v
                }
            } else {
                StateView { active_chamber: active, ..v }
            }
        },
        StateCommand::AddDoor(d) => {
            let leads_to = match door_target(view_walls(cs), on, d.part_of) {
                Some(t) => Some(t),
                None => d.leads_to,
            };
            let id: DoorId = if has_dv(ds, d.id) {
                (max_key(ds, dv_key()) + 1) as DoorId
            } else {
                d.id
            };
            StateView { doors: ds.push(DoorView { id, leads_to, ..d@ }), ..v }
        },
        StateCommand::ChangeDoorName(i, n) => with_door(
            v,
            i,
            |dv: DoorView| DoorView { name: n@, ..dv },
        ),
        StateCommand::ChangeDoorNotes(i, n) => with_door(
            v,
            i,
            |dv: DoorView| DoorView { notes: n@, ..dv },
        ),
        StateCommand::ChangeDoorLeadsTo(i, c) => with_door(
            v,
            i,
            |dv: DoorView| DoorView { leads_to: c, ..dv },
        ),
        StateCommand::ChangeDoorHidden(i, h) => with_door(
            v,
            i,
            |dv: DoorView| DoorView { hidden: h, ..dv },
        ),
        StateCommand::DeleteDoor(i) => {
            let active = if v.active_door == Some(i) {
                None
            } else {
                v.active_door
            };
            if has_dv(ds, i) {
                StateView {
                    doors: ds.remove(first_index(ds, dv_has_id(i))),
                    active_door: active,
                    ..v
                }
            } else {
                StateView { active_door: active, ..v }
            }
        },
        StateCommand::ChangeDungeonName(n) => StateView { name: n@, ..v },
        StateCommand::ChangeDungeonNotes(n) => StateView { notes: n@, ..v },
        StateCommand::AddObject(pos, part_of) => StateView {
            objects: os.push(
                ObjectView {
                    id: (max_key(os, ov_key()) + 1) as ObjectId,
                    name: Seq::empty(),
                    notes: Seq::empty(),
                    hidden: false,
                    style: ObjectStyle::Blocker,
                    pos,
                    part_of,
                },
            ),
            ..v
        },
        StateCommand::DeleteObject(o) => {
            let active = if v.active_object == Some(o) {
                None
            } else {
                v.active_object
            };
            if has_ov(os, o) {
                StateView {
                    objects: os.remove(first_index(os, ov_has_id(o))),
                    active_object: active,
                    ..v
                }
            } else {
                StateView { active_object: active, ..v }
            }
        },
        StateCommand::ChangeObjectName(o, n) => with_object(
            v,
            o,
            |ov: ObjectView| ObjectView { name: n@, ..ov },
        ),
        StateCommand::ChangeObjectNotes(o, n) => with_object(
            v,
            o,
            |ov: ObjectView| ObjectView { notes: n@, ..ov },
        ),
        StateCommand::ChangeObjectHidden(o, h) => with_object(
            v,
            o,
            |ov: ObjectView| ObjectView { hidden: h, ..ov },
        ),
        StateCommand::ChangeObjectStyle(o, st) => with_object(
            v,
            o,
            |ov: ObjectView| ObjectView { style: st, ..ov },
        ),
    }
}

/// The wall flags of a command on the content `v`: for a new door, those
/// that `door_flags` gives for the walls and the door; none otherwise.
pub open spec fn flags_for(
    cmd: StateCommand,
    v: StateView,
    door_flags: spec_fn(Seq<Wall>, Door) -> Seq<bool>,
) -> Seq<bool> {
    match cmd {
        StateCommand::AddDoor(d) => door_flags(view_walls(v.chambers), d),
        _ => Seq::empty(),
    }
}

/// What the command `cmd` does to the content `v`, a new door's wall flags
/// given by `door_flags`.
pub open spec fn step(
    cmd: StateCommand,
    v: StateView,
    door_flags: spec_fn(Seq<Wall>, Door) -> Seq<bool>,
) -> StateView {
    next_view(cmd, v, flags_for(cmd, v, door_flags))
}

/// The content after running the commands `cmds` in order from `v`.
pub open spec fn replay_view(
    cmds: Seq<StateCommand>,
    v: StateView,
    door_flags: spec_fn(Seq<Wall>, Door) -> Seq<bool>,
) -> StateView
    decreases cmds.len(),
{
    if cmds.len() == 0 {
        v
    } else {
        step(cmds.last(), replay_view(cmds.drop_last(), v, door_flags), door_flags)
    }
}


/// The walls of the chambers' contents are the walls of the chambers.
pub proof fn lemma_view_walls(cs: Seq<Chamber>)
    ensures
        view_walls(cs.map_values(chamber_v())) == all_walls(cs),
    decreases cs.len(),
{
    if cs.len() > 0 {
        assert(cs.map_values(chamber_v()).drop_last() =~= cs.drop_last().map_values(chamber_v()));
        lemma_view_walls(cs.drop_last());
    }
}

/// Looking a chamber up by id finds the same position in the contents.
pub proof fn lemma_chamber_lookup(cs: Seq<Chamber>, c: ChamberId)
    ensures
        has_cv(cs.map_values(chamber_v()), c) == has_chamber(cs, c),
        first_index(cs.map_values(chamber_v()), cv_has_id(c)) == chamber_pos(cs, c),
        max_key(cs.map_values(chamber_v()), cv_key()) == max_key(cs, chamber_key()),
{
    let m = cs.map_values(chamber_v());
    lemma_first_index_map(cs, chamber_v(), chamber_has_id(c), cv_has_id(c));
    lemma_max_key_map(cs, chamber_v(), chamber_key(), cv_key());
    if has_chamber(cs, c) {
        let i = choose|i: int| 0 <= i < cs.len() && cs[i].id == c;
        assert(m[i].id == c);
    }
    if has_cv(m, c) {
        let i = choose|i: int| 0 <= i < m.len() && m[i].id == c;
        assert(cs[i].id == c);
    }
}

/// Looking a door up by id finds the same position in the contents.
pub proof fn lemma_door_lookup(ds: Seq<Door>, d: DoorId)
    ensures
        has_dv(ds.map_values(door_v()), d) == has_door(ds, d),
        first_index(ds.map_values(door_v()), dv_has_id(d)) == door_pos(ds, d),
        max_key(ds.map_values(door_v()), dv_key()) == max_key(ds, door_key()),
{
    let m = ds.map_values(door_v());
    lemma_first_index_map(ds, door_v(), door_has_id(d), dv_has_id(d));
    lemma_max_key_map(ds, door_v(), door_key(), dv_key());
    if has_door(ds, d) {
        let i = choose|i: int| 0 <= i < ds.len() && ds[i].id == d;
        assert(m[i].id == d);
    }
    if has_dv(m, d) {
        let i = choose|i: int| 0 <= i < m.len() && m[i].id == d;
        assert(ds[i].id == d);
    }
}

/// Looking an object up by id finds the same position in the contents.
pub proof fn lemma_object_lookup(os: Seq<Object>, o: ObjectId)
    ensures
        has_ov(os.map_values(object_v()), o) == has_object(os, o),
        first_index(os.map_values(object_v()), ov_has_id(o)) == object_pos(os, o),
        max_key(os.map_values(object_v()), ov_key()) == max_key(os, object_key()),
{
    let m = os.map_values(object_v());
    lemma_first_index_map(os, object_v(), object_has_id(o), ov_has_id(o));
    lemma_max_key_map(os, object_v(), object_key(), ov_key());
    if has_object(os, o) {
        let i = choose|i: int| 0 <= i < os.len() && os[i].id == o;
        assert(m[i].id == o);
    }
    if has_ov(m, o) {
        let i = choose|i: int| 0 <= i < m.len() && m[i].id == o;
        assert(os[i].id == o);
    }
}


/// Replacing an element and then taking images is taking images and then
/// replacing the image.
pub proof fn lemma_update_map<A, B>(s: Seq<A>, f: spec_fn(A) -> B, i: int, x: A)
    requires
        0 <= i < s.len(),
    ensures
        s.update(i, x).map_values(f) == s.map_values(f).update(i, f(x)),
{
    assert(s.update(i, x).map_values(f) =~= s.map_values(f).update(i, f(x)));
}

/// Removing an element and then taking images is taking images and then
/// removing the image.
pub proof fn lemma_remove_map<A, B>(s: Seq<A>, f: spec_fn(A) -> B, i: int)
    requires
        0 <= i < s.len(),
    ensures
        s.remove(i).map_values(f) == s.map_values(f).remove(i),
{
    assert(s.remove(i).map_values(f) =~= s.map_values(f).remove(i));
}

/// Executing a command on the chambers changes the content as `next_view`
/// says.
#[verifier::spinoff_prover]
#[verifier::rlimit(50)]
pub proof fn lemma_executed_view_chambers(
    cmd: StateCommand,
    p: State,
    q: State,
    on: Seq<bool>,
    e: Seq<StateEvent>,
)
    requires
        can_execute(cmd, p, on),
        executed(cmd, p, q, on, e),
        cmd is AddChamber || cmd is AddVertexToChamber || cmd is ChangeChamberName
            || cmd is ChangeChamberNotes || cmd is ChangeChamberHidden || cmd is SplitWall
            || cmd is CollapseWall || cmd is DeleteChamber,
    ensures
        state_view(q) == next_view(cmd, state_view(p), on),
{
    let v = state_view(p);
    let cs = p.dungeon.chambers@;
    let ds = p.dungeon.doors@;
    let qcs = q.dungeon.chambers@;
    let qds = q.dungeon.doors@;
    let f = chamber_v();
    match cmd {
        StateCommand::AddChamber => {
            lemma_chamber_lookup(cs, 1);
            let id = added_chamber_id(cs, 1);
            let nc = ChamberView {
                id,
                name: "New Chamber"@,
                notes: Seq::empty(),
                hidden: false,
                walls: Seq::empty(),
                first_vert: None,
            };
            assert(qcs =~= cs.push(qcs.last()));
            assert(qcs.last()@ == nc);
            assert(qcs.map_values(f) =~= v.chambers.push(nc));
        },
        StateCommand::AddVertexToChamber(c, pos) => {
            lemma_chamber_lookup(cs, c);
            lemma_chamber_found(cs, c);
            let i = chamber_pos(cs, c);
            lemma_update_map(cs, f, i, qcs[i]);
        },
        StateCommand::ChangeChamberName(c, n) => {
            lemma_chamber_lookup(cs, c);
            lemma_chamber_found(cs, c);
            let i = chamber_pos(cs, c);
            lemma_update_map(cs, f, i, qcs[i]);
        },
        StateCommand::ChangeChamberNotes(c, n) => {
            lemma_chamber_lookup(cs, c);
            lemma_chamber_found(cs, c);
            let i = chamber_pos(cs, c);
            lemma_update_map(cs, f, i, qcs[i]);
        },
        StateCommand::ChangeChamberHidden(c, h) => {
            lemma_chamber_lookup(cs, c);
            lemma_chamber_found(cs, c);
            let i = chamber_pos(cs, c);
            lemma_update_map(cs, f, i, qcs[i]);
        },
        StateCommand::SplitWall(c, w, pos) => {
            lemma_chamber_lookup(cs, c);
            lemma_chamber_found(cs, c);
            let i = chamber_pos(cs, c);
            lemma_update_map(cs, f, i, qcs[i]);
        },
        StateCommand::CollapseWall(c, w) => {
            lemma_chamber_lookup(cs, c);
            lemma_chamber_found(cs, c);
            let i = chamber_pos(cs, c);
            lemma_update_map(cs, f, i, qcs[i]);
            let removed = collapsed_wall_id(cs[i].walls@, w);
            lemma_filter_map(ds, door_v(), door_not_on_wall(c, removed), dv_not_on_wall(c, removed));
        },
        StateCommand::DeleteChamber(c) => {
            lemma_chamber_lookup(cs, c);
            if has_chamber(cs, c) {
                lemma_chamber_found(cs, c);
                lemma_remove_map(cs, f, chamber_pos(cs, c));
                lemma_filter_map(ds, door_v(), door_not_part_of(c), dv_not_part_of(c));
            }
        },
        _ => {},
    }
}


/// Executing a command on the doors changes the content as `next_view`
/// says.
#[verifier::spinoff_prover]
#[verifier::rlimit(50)]
pub proof fn lemma_executed_view_doors(
    cmd: StateCommand,
    p: State,
    q: State,
    on: Seq<bool>,
    e: Seq<StateEvent>,
)
    requires
        can_execute(cmd, p, on),
        executed(cmd, p, q, on, e),
        cmd is AddDoor || cmd is ChangeDoorName || cmd is ChangeDoorNotes
            || cmd is ChangeDoorLeadsTo || cmd is ChangeDoorHidden || cmd is DeleteDoor,
    ensures
        state_view(q) == next_view(cmd, state_view(p), on),
{
    let v = state_view(p);
    let cs = p.dungeon.chambers@;
    let ds = p.dungeon.doors@;
    let qds = q.dungeon.doors@;
    let f = door_v();
    match cmd {
        StateCommand::AddDoor(d) => {
            lemma_door_lookup(ds, d.id);
            lemma_view_walls(cs);
            let leads_to = match door_target(all_walls(cs), on, d.part_of) {
                Some(t) => Some(t),
                None => d.leads_to,
            };
            let id = added_door_id(ds, d.id);
            assert(qds.map_values(f) =~= v.doors.push(DoorView { id, leads_to, ..d@ }));
        },
        StateCommand::ChangeDoorName(d, n) => {
            lemma_door_lookup(ds, d);
            lemma_door_found(ds, d);
            lemma_update_map(ds, f, door_pos(ds, d), qds[door_pos(ds, d)]);
        },
        StateCommand::ChangeDoorNotes(d, n) => {
            lemma_door_lookup(ds, d);
            lemma_door_found(ds, d);
            lemma_update_map(ds, f, door_pos(ds, d), qds[door_pos(ds, d)]);
        },
        StateCommand::ChangeDoorLeadsTo(d, c) => {
            lemma_door_lookup(ds, d);
            lemma_door_found(ds, d);
            lemma_update_map(ds, f, door_pos(ds, d), qds[door_pos(ds, d)]);
        },
        StateCommand::ChangeDoorHidden(d, h) => {
            lemma_door_lookup(ds, d);
            lemma_door_found(ds, d);
            lemma_update_map(ds, f, door_pos(ds, d), qds[door_pos(ds, d)]);
        },
        StateCommand::DeleteDoor(d) => {
            lemma_door_lookup(ds, d);
            if has_door(ds, d) {
                lemma_door_found(ds, d);
                lemma_remove_map(ds, f, door_pos(ds, d));
            }
        },
        _ => {},
    }
}

/// Executing a command on the objects changes the content as `next_view`
/// says.
#[verifier::spinoff_prover]
#[verifier::rlimit(50)]
pub proof fn lemma_executed_view_objects(
    cmd: StateCommand,
    p: State,
    q: State,
    on: Seq<bool>,
    e: Seq<StateEvent>,
)
    requires
        can_execute(cmd, p, on),
        executed(cmd, p, q, on, e),
        cmd is AddObject || cmd is DeleteObject || cmd is ChangeObjectName
            || cmd is ChangeObjectNotes || cmd is ChangeObjectHidden || cmd is ChangeObjectStyle,
    ensures
        state_view(q) == next_view(cmd, state_view(p), on),
{
    let v = state_view(p);
    let os = p.dungeon.objects@;
    let qos = q.dungeon.objects@;
    let f = object_v();
    match cmd {
        StateCommand::AddObject(pos, part_of) => {
            lemma_object_lookup(os, 0);
            let no = ObjectView {
                id: (max_key(v.objects, ov_key()) + 1) as ObjectId,
                name: Seq::empty(),
                notes: Seq::empty(),
                hidden: false,
                style: ObjectStyle::Blocker,
                pos,
                part_of,
            };
            assert(qos =~= os.push(qos.last()));
            assert(qos.last()@ == no);
            assert(qos.map_values(f) =~= v.objects.push(no));
        },
        StateCommand::DeleteObject(o) => {
            lemma_object_lookup(os, o);
            if has_object(os, o) {
                lemma_object_found(os, o);
                lemma_remove_map(os, f, object_pos(os, o));
            }
        },
        StateCommand::ChangeObjectName(o, n) => {
            lemma_object_lookup(os, o);
            lemma_object_found(os, o);
            lemma_update_map(os, f, object_pos(os, o), qos[object_pos(os, o)]);
        },
        StateCommand::ChangeObjectNotes(o, n) => {
            lemma_object_lookup(os, o);
            lemma_object_found(os, o);
            lemma_update_map(os, f, object_pos(os, o), qos[object_pos(os, o)]);
        },
        StateCommand::ChangeObjectHidden(o, h) => {
            lemma_object_lookup(os, o);
            lemma_object_found(os, o);
            lemma_update_map(os, f, object_pos(os, o), qos[object_pos(os, o)]);
        },
        StateCommand::ChangeObjectStyle(o, st) => {
            lemma_object_lookup(os, o);
            lemma_object_found(os, o);
            lemma_update_map(os, f, object_pos(os, o), qos[object_pos(os, o)]);
        },
        _ => {},
    }
}

/// Executing any command changes the content as `next_view` says.
pub proof fn lemma_executed_view(
    cmd: StateCommand,
    p: State,
    q: State,
    on: Seq<bool>,
    e: Seq<StateEvent>,
)
    requires
        can_execute(cmd, p, on),
        executed(cmd, p, q, on, e),
    ensures
        state_view(q) == next_view(cmd, state_view(p), on),
{
    match cmd {
        StateCommand::AddChamber | StateCommand::AddVertexToChamber(..)
        | StateCommand::ChangeChamberName(..) | StateCommand::ChangeChamberNotes(..)
        | StateCommand::ChangeChamberHidden(..) | StateCommand::SplitWall(..)
        | StateCommand::CollapseWall(..) | StateCommand::DeleteChamber(..) => {
            lemma_executed_view_chambers(cmd, p, q, on, e);
        },
        StateCommand::AddDoor(..) | StateCommand::ChangeDoorName(..)
        | StateCommand::ChangeDoorNotes(..) | StateCommand::ChangeDoorLeadsTo(..)
        | StateCommand::ChangeDoorHidden(..) | StateCommand::DeleteDoor(..) => {
            lemma_executed_view_doors(cmd, p, q, on, e);
        },
        StateCommand::AddObject(..) | StateCommand::DeleteObject(..)
        | StateCommand::ChangeObjectName(..) | StateCommand::ChangeObjectNotes(..)
        | StateCommand::ChangeObjectHidden(..) | StateCommand::ChangeObjectStyle(..) => {
            lemma_executed_view_objects(cmd, p, q, on, e);
        },
        _ => {
            let v = state_view(p);
            assert(q.dungeon.chambers@.map_values(chamber_v()) =~= v.chambers);
            assert(q.dungeon.doors@.map_values(door_v()) =~= v.doors);
            assert(q.dungeon.objects@.map_values(object_v()) =~= v.objects);
        },
    }
}


/// Editing a chamber's text twice gives the content of the second edit.
proof fn lemma_chamber_edit_twice(
    a: StateCommand,
    b: StateCommand,
    c: ChamberId,
    v: StateView,
    door_flags: spec_fn(Seq<Wall>, Door) -> Seq<bool>,
)
    requires
        (a matches StateCommand::ChangeChamberName(x, _) && x == c) && (b matches StateCommand::ChangeChamberName(y, _) && y == c)
            || (a matches StateCommand::ChangeChamberNotes(x, _) && x == c) && (b matches StateCommand::ChangeChamberNotes(y, _) && y == c),
    ensures
        step(b, step(a, v, door_flags), door_flags) == step(b, v, door_flags),
{
    let v1 = step(a, v, door_flags);
    if has_cv(v.chambers, c) {
        let i = first_index(v.chambers, cv_has_id(c));
        lemma_first_index(v.chambers, cv_has_id(c));
        assert(v1.chambers[i].id == c);
        lemma_first_index_update(v.chambers, cv_has_id(c), i, v1.chambers[i]);
        assert(step(b, v1, door_flags).chambers =~= step(b, v, door_flags).chambers);
    }
}

/// Editing a door's text twice gives the content of the second edit.
proof fn lemma_door_edit_twice(
    a: StateCommand,
    b: StateCommand,
    d: DoorId,
    v: StateView,
    door_flags: spec_fn(Seq<Wall>, Door) -> Seq<bool>,
)
    requires
        (a matches StateCommand::ChangeDoorName(x, _) && x == d) && (b matches StateCommand::ChangeDoorName(y, _) && y == d)
            || (a matches StateCommand::ChangeDoorNotes(x, _) && x == d) && (b matches StateCommand::ChangeDoorNotes(y, _) && y == d),
    ensures
        step(b, step(a, v, door_flags), door_flags) == step(b, v, door_flags),
{
    let v1 = step(a, v, door_flags);
    if has_dv(v.doors, d) {
        let i = first_index(v.doors, dv_has_id(d));
        lemma_first_index(v.doors, dv_has_id(d));
        assert(v1.doors[i].id == d);
        lemma_first_index_update(v.doors, dv_has_id(d), i, v1.doors[i]);
        assert(step(b, v1, door_flags).doors =~= step(b, v, door_flags).doors);
    }
}

/// A second edit of a text overrides the first: on any content, editing a
/// text twice gives the content that the second edit alone gives.
pub proof fn lemma_step_overrides(
    a: StateCommand,
    b: StateCommand,
    v: StateView,
    door_flags: spec_fn(Seq<Wall>, Door) -> Seq<bool>,
)
    requires
        same_text_edit(a, b),
    ensures
        step(b, step(a, v, door_flags), door_flags) == step(b, v, door_flags),
{
    match a {
        StateCommand::ChangeChamberName(c, _) => lemma_chamber_edit_twice(a, b, c, v, door_flags),
        StateCommand::ChangeChamberNotes(c, _) => lemma_chamber_edit_twice(a, b, c, v, door_flags),
        StateCommand::ChangeDoorName(d, _) => lemma_door_edit_twice(a, b, d, v, door_flags),
        StateCommand::ChangeDoorNotes(d, _) => lemma_door_edit_twice(a, b, d, v, door_flags),
        StateCommand::ChangeDungeonName(_) => {
            assert(b is ChangeDungeonName);
        },
        StateCommand::ChangeDungeonNotes(_) => {
            assert(b is ChangeDungeonNotes);
        },
        _ => {
            assert(text_edit(a) is None);
        },
    }
}

/// Replaying the recorded history gives the content that replaying the
/// earlier history and then every command gives.
pub proof fn lemma_replay_recorded(
    history: Seq<StateCommand>,
    cmds: Seq<StateCommand>,
    v: StateView,
    door_flags: spec_fn(Seq<Wall>, Door) -> Seq<bool>,
)
    ensures
        replay_view(recorded_all(history, cmds), v, door_flags) == replay_view(
            history + cmds,
            v,
            door_flags,
        ),
    decreases cmds.len(),
{
    if cmds.len() == 0 {
        assert(history + cmds =~= history);
    } else {
        let prev = cmds.drop_last();
        let c = cmds.last();
        let h = recorded_all(history, prev);
        lemma_replay_recorded(history, prev, v, door_flags);
        assert((history + cmds).drop_last() =~= history + prev);
        if merges(h, c) {
            let u = h.update(h.len() - 1, c);
            assert(u.drop_last() =~= h.drop_last());
            lemma_step_overrides(h.last(), c, replay_view(h.drop_last(), v, door_flags), door_flags);
        } else {
            assert(h.push(c).drop_last() =~= h);
        }
    }
}


/// Commands other than a new door do not read the wall flags.
pub proof fn lemma_next_view_ignores_flags(cmd: StateCommand, v: StateView, on1: Seq<bool>, on2: Seq<bool>)
    requires
        !(cmd is AddDoor),
    ensures
        next_view(cmd, v, on1) == next_view(cmd, v, on2),
{
}

/// Step `i` of a run: command `i` can be executed on state `i`, and with the
/// flags `flags[i]` it gives state `i + 1` and the events `events[i]`; the
/// flags of a new door are those that `door_flags` gives for the walls of
/// the dungeon and the door.
pub open spec fn run_step(
    cmds: Seq<StateCommand>,
    states: Seq<State>,
    flags: Seq<Seq<bool>>,
    events: Seq<Seq<StateEvent>>,
    door_flags: spec_fn(Seq<Wall>, Door) -> Seq<bool>,
    i: int,
) -> bool {
    &&& can_execute(cmds[i], states[i], flags[i])
    &&& executed(cmds[i], states[i], states[i + 1], flags[i], events[i])
    &&& (cmds[i] matches StateCommand::AddDoor(d) ==> flags[i] == door_flags(
        all_walls(states[i].dungeon.chambers@),
        d,
    ))
}

/// `states` are the states that executing the commands `cmds` one after
/// the other passes through, from `states[0]` on, with the wall flags
/// `flags` and the events `events` of each command.
pub open spec fn is_run(
    cmds: Seq<StateCommand>,
    states: Seq<State>,
    flags: Seq<Seq<bool>>,
    events: Seq<Seq<StateEvent>>,
    door_flags: spec_fn(Seq<Wall>, Door) -> Seq<bool>,
) -> bool {
    &&& states.len() == cmds.len() + 1
    &&& flags.len() == cmds.len()
    &&& events.len() == cmds.len()
    &&& forall|i: int|
        0 <= i < cmds.len() ==> #[trigger] run_step(cmds, states, flags, events, door_flags, i)
}

/// A run ends with the content that replaying its commands on the content
/// of its first state gives.
pub proof fn lemma_run_replays(
    cmds: Seq<StateCommand>,
    states: Seq<State>,
    flags: Seq<Seq<bool>>,
    events: Seq<Seq<StateEvent>>,
    door_flags: spec_fn(Seq<Wall>, Door) -> Seq<bool>,
)
    requires
        is_run(cmds, states, flags, events, door_flags),
    ensures
        state_view(states.last()) == replay_view(cmds, state_view(states[0]), door_flags),
    decreases cmds.len(),
{
    if cmds.len() > 0 {
        let n = cmds.len() - 1;
        let c = cmds[n];
        let pc = cmds.drop_last();
        let ps = states.drop_last();
        let pf = flags.drop_last();
        let pe = events.drop_last();
        assert forall|i: int| 0 <= i < pc.len() implies #[trigger] run_step(
            pc,
            ps,
            pf,
            pe,
            door_flags,
            i,
        ) by {
            assert(run_step(cmds, states, flags, events, door_flags, i));
        }
        lemma_run_replays(pc, ps, pf, pe, door_flags);
        assert(run_step(cmds, states, flags, events, door_flags, n));
        let v = state_view(states[n]);
        lemma_executed_view(c, states[n], states[n + 1], flags[n], events[n]);
        match c {
            StateCommand::AddDoor(d) => {
                lemma_view_walls(states[n].dungeon.chambers@);
            },
            _ => {
                lemma_next_view_ignores_flags(c, v, flags[n], flags_for(c, v, door_flags));
            },
        }
    }
}


/// Step `j` of a run whose new doors get their wall flags from
/// `door_on_walls`: command `j` can be executed on state `j`, and with the
/// flags `flags[j]` it gives state `j + 1` and the events `events[j]`; for a
/// new door those flags are what `door_on_walls` returned for the dungeon of
/// state `j` and the door.
pub open spec fn driven_step<F: Fn(&Dungeon, &Door) -> Vec<bool>>(
    cmds: Seq<StateCommand>,
    states: Seq<State>,
    flags: Seq<Vec<bool>>,
    events: Seq<Seq<StateEvent>>,
    door_on_walls: F,
    j: int,
) -> bool {
    &&& can_execute(cmds[j], states[j], flags[j]@)
    &&& executed(cmds[j], states[j], states[j + 1], flags[j]@, events[j])
    &&& (cmds[j] matches StateCommand::AddDoor(d) ==> call_ensures(
        door_on_walls,
        (&states[j].dungeon, &d),
        flags[j],
    ))
}

/// `states` are the states that executing `cmds` one after the other passes
/// through, new doors getting their wall flags from `door_on_walls`.
pub open spec fn is_driven_run<F: Fn(&Dungeon, &Door) -> Vec<bool>>(
    cmds: Seq<StateCommand>,
    states: Seq<State>,
    flags: Seq<Vec<bool>>,
    events: Seq<Seq<StateEvent>>,
    door_on_walls: F,
) -> bool {
    &&& states.len() == cmds.len() + 1
    &&& flags.len() == cmds.len()
    &&& events.len() == cmds.len()
    &&& forall|j: int|
        0 <= j < cmds.len() ==> #[trigger] driven_step(cmds, states, flags, events, door_on_walls, j)
}

/// Executes `cmds` one after the other on `state`, as undoing does with the
/// history, and returns how many were executed: it stops before the first
/// command that cannot be executed. A new door's wall flags, which tell for
/// each wall of the dungeon whether the door lies on it, come from
/// `door_on_walls`; other commands get none.
pub fn replay<F: Fn(&Dungeon, &Door) -> Vec<bool>>(
    state: &mut State,
    cmds: &Vec<StateCommand>,
    door_on_walls: F,
) -> (done: usize)
    requires
        forall|dg: &Dungeon, d: &Door| call_requires(door_on_walls, (dg, d)),
    ensures
        done <= cmds@.len(),
        exists|states: Seq<State>, flags: Seq<Vec<bool>>, events: Seq<Seq<StateEvent>>|
            is_driven_run(cmds@.take(done as int), states, flags, events, door_on_walls)
                && states[0] == *old(state) && states.last() == *final(state),
        done < cmds@.len() ==> exists|fv: Vec<bool>|
            !can_execute(cmds@[done as int], *final(state), fv@) && (
            cmds@[done as int] matches StateCommand::AddDoor(d) ==> call_ensures(
                door_on_walls,
                (&final(state).dungeon, &d),
                fv,
            )),
{
    let ghost s0 = *state;
    let ghost mut states: Seq<State> = seq![*state];
    let ghost mut flags: Seq<Vec<bool>> = Seq::empty();
    let ghost mut events: Seq<Seq<StateEvent>> = Seq::empty();
    let mut i: usize = 0;
    assert(cmds@.take(0) =~= Seq::<StateCommand>::empty());
    while i < cmds.len()
        invariant
            i <= cmds@.len(),
            forall|dg: &Dungeon, d: &Door| call_requires(door_on_walls, (dg, d)),
            is_driven_run(cmds@.take(i as int), states, flags, events, door_on_walls),
            states[0] == s0,
            s0 == *old(state),
            states.last() == *state,
        decreases cmds@.len() - i,
    {
        let cmd = &cmds[i];
        let on_walls = match cmd {
            StateCommand::AddDoor(d) => door_on_walls(&state.dungeon, d),
            _ => Vec::new(),
        };
        if !cmd.is_executable(state, &on_walls) {
            return i;
        }
        let ghost before = *state;
        let ev = cmd.execute(state, &on_walls);
        proof {
            let pc = cmds@.take(i as int);
            let nc = cmds@.take(i + 1);
            let ps = states;
            let pf = flags;
            let pe = events;
            states = ps.push(*state);
            flags = pf.push(on_walls);
            events = pe.push(ev@);
            assert forall|j: int| 0 <= j < nc.len() implies #[trigger] driven_step(
                nc,
                states,
                flags,
                events,
                door_on_walls,
                j,
            ) by {
                if j < i {
                    assert(driven_step(pc, ps, pf, pe, door_on_walls, j));
                    assert(nc[j] == pc[j]);
                }
            }
        }
        i += 1;
    }
    assert(cmds@.take(i as int) =~= cmds@);
    i
}


/// A run driven by `door_on_walls` is a run in the sense of `is_run` when
/// what `door_on_walls` returns is a function `door_flags` of the walls of
/// the dungeon and the door; so `lemma_history_replays_alike` applies to two
/// replays driven by it.
pub proof fn lemma_driven_run_is_run<F: Fn(&Dungeon, &Door) -> Vec<bool>>(
    cmds: Seq<StateCommand>,
    states: Seq<State>,
    flags: Seq<Vec<bool>>,
    events: Seq<Seq<StateEvent>>,
    door_on_walls: F,
    door_flags: spec_fn(Seq<Wall>, Door) -> Seq<bool>,
)
    requires
        is_driven_run(cmds, states, flags, events, door_on_walls),
        forall|dg: &Dungeon, d: &Door, r: Vec<bool>|
            call_ensures(door_on_walls, (dg, d), r) ==> r@ == door_flags(
                all_walls(dg.chambers@),
                *d,
            ),
    ensures
        is_run(cmds, states, flags.map_values(|fv: Vec<bool>| fv@), events, door_flags),
{
    let fs = flags.map_values(|fv: Vec<bool>| fv@);
    assert forall|j: int| 0 <= j < cmds.len() implies #[trigger] run_step(
        cmds,
        states,
        fs,
        events,
        door_flags,
        j,
    ) by {
        assert(driven_step(cmds, states, flags, events, door_on_walls, j));
        assert(fs[j] == flags[j]@);
    }
}


/// The content of the chamber with id `c`.
pub open spec fn chamber_view_of(v: StateView, c: ChamberId) -> ChamberView {
    v.chambers[first_index(v.chambers, cv_has_id(c))]
}

/// `cmd` can be executed on a state with content `v` and wall flags `on`:
/// `can_execute` read on the content.
pub open spec fn can_step(cmd: StateCommand, v: StateView, on: Seq<bool>) -> bool {
    let cs = v.chambers;
    match cmd {
        StateCommand::AddChamber => has_cv(cs, 1) ==> max_key(cs, cv_key()) < u32::MAX,
        StateCommand::AddVertexToChamber(c, _) => has_cv(cs, c) && max_wall_id(
            chamber_view_of(v, c).walls,
        ) < u32::MAX,
        StateCommand::ChangeChamberName(c, _) => has_cv(cs, c),
        StateCommand::ChangeChamberNotes(c, _) => has_cv(cs, c),
        StateCommand::ChangeChamberHidden(c, _) => has_cv(cs, c),
        StateCommand::SplitWall(c, w, _) => has_cv(cs, c) && has_wall(chamber_view_of(v, c).walls, w)
            && max_wall_id(chamber_view_of(v, c).walls) < u32::MAX,
        StateCommand::CollapseWall(c, w) => has_cv(cs, c) && has_wall(
            chamber_view_of(v, c).walls,
            w,
        ),
        StateCommand::AddDoor(d) => has_cv(cs, d.part_of) && has_wall(
            chamber_view_of(v, d.part_of).walls,
            d.on_wall,
        ) && on.len() == view_walls(cs).len() && (has_dv(v.doors, d.id) ==> max_key(
            v.doors,
            dv_key(),
        ) < u32::MAX),
        StateCommand::ChangeDoorName(d, _) => has_dv(v.doors, d),
        StateCommand::ChangeDoorNotes(d, _) => has_dv(v.doors, d),
        StateCommand::ChangeDoorLeadsTo(d, _) => has_dv(v.doors, d),
        StateCommand::ChangeDoorHidden(d, _) => has_dv(v.doors, d),
        StateCommand::AddObject(_, _) => max_key(v.objects, ov_key()) < u32::MAX,
        StateCommand::ChangeObjectName(o, _) => has_ov(v.objects, o),
        StateCommand::ChangeObjectNotes(o, _) => has_ov(v.objects, o),
        StateCommand::ChangeObjectHidden(o, _) => has_ov(v.objects, o),
        StateCommand::ChangeObjectStyle(o, _) => has_ov(v.objects, o),
        _ => true,
    }
}

/// Whether a command can be executed depends only on the state's content.
#[verifier::spinoff_prover]
pub proof fn lemma_can_execute_view(cmd: StateCommand, s: State, on: Seq<bool>)
    ensures
        can_execute(cmd, s, on) == can_step(cmd, state_view(s), on),
{
    let cs = s.dungeon.chambers@;
    let ds = s.dungeon.doors@;
    let os = s.dungeon.objects@;
    lemma_view_walls(cs);
    lemma_chamber_lookup(cs, 1);
    lemma_object_lookup(os, 0);
    match cmd {
        StateCommand::AddVertexToChamber(c, _) => {
            lemma_chamber_lookup(cs, c);
            if has_chamber(cs, c) {
                lemma_chamber_found(cs, c);
            }
        },
        StateCommand::ChangeChamberName(c, _) => lemma_chamber_lookup(cs, c),
        StateCommand::ChangeChamberNotes(c, _) => lemma_chamber_lookup(cs, c),
        StateCommand::ChangeChamberHidden(c, _) => lemma_chamber_lookup(cs, c),
        StateCommand::SplitWall(c, _, _) => {
            lemma_chamber_lookup(cs, c);
            if has_chamber(cs, c) {
                lemma_chamber_found(cs, c);
            }
        },
        StateCommand::CollapseWall(c, _) => {
            lemma_chamber_lookup(cs, c);
            if has_chamber(cs, c) {
                lemma_chamber_found(cs, c);
            }
        },
        StateCommand::AddDoor(d) => {
            lemma_chamber_lookup(cs, d.part_of);
            lemma_door_lookup(ds, d.id);
            if has_chamber(cs, d.part_of) {
                lemma_chamber_found(cs, d.part_of);
            }
        },
        StateCommand::ChangeDoorName(d, _) => lemma_door_lookup(ds, d),
        StateCommand::ChangeDoorNotes(d, _) => lemma_door_lookup(ds, d),
        StateCommand::ChangeDoorLeadsTo(d, _) => lemma_door_lookup(ds, d),
        StateCommand::ChangeDoorHidden(d, _) => lemma_door_lookup(ds, d),
        StateCommand::ChangeObjectName(o, _) => lemma_object_lookup(os, o),
        StateCommand::ChangeObjectNotes(o, _) => lemma_object_lookup(os, o),
        StateCommand::ChangeObjectHidden(o, _) => lemma_object_lookup(os, o),
        StateCommand::ChangeObjectStyle(o, _) => lemma_object_lookup(os, o),
        _ => {},
    }
}

/// Commands other than a new door do not read the wall flags to decide
/// whether they can be executed.
pub proof fn lemma_can_step_ignores_flags(cmd: StateCommand, v: StateView, on1: Seq<bool>, on2: Seq<bool>)
    requires
        !(cmd is AddDoor),
    ensures
        can_step(cmd, v, on1) == can_step(cmd, v, on2),
{
}


/// Editing a chamber's text keeps which chambers exist.
proof fn lemma_chamber_edit_keeps_ids(
    a: StateCommand,
    c: ChamberId,
    v: StateView,
    door_flags: spec_fn(Seq<Wall>, Door) -> Seq<bool>,
    id: ChamberId,
)
    requires
        (a matches StateCommand::ChangeChamberName(x, _) && x == c) || (a matches StateCommand::ChangeChamberNotes(x, _) && x == c),
    ensures
        has_cv(step(a, v, door_flags).chambers, id) == has_cv(v.chambers, id),
{
    let v1 = step(a, v, door_flags);
    if has_cv(v.chambers, c) {
        let i = first_index(v.chambers, cv_has_id(c));
        lemma_first_index(v.chambers, cv_has_id(c));
        assert(v1.chambers.len() == v.chambers.len());
        assert forall|j: int| 0 <= j < v.chambers.len() implies #[trigger] v1.chambers[j].id
            == v.chambers[j].id by {}
        if has_cv(v.chambers, id) {
            let j = choose|j: int| 0 <= j < v.chambers.len() && v.chambers[j].id == id;
            assert(v1.chambers[j].id == id);
        }
        if has_cv(v1.chambers, id) {
            let j = choose|j: int| 0 <= j < v1.chambers.len() && v1.chambers[j].id == id;
            assert(v.chambers[j].id == id);
        }
    }
}

/// Editing a door's text keeps which doors exist.
proof fn lemma_door_edit_keeps_ids(
    a: StateCommand,
    d: DoorId,
    v: StateView,
    door_flags: spec_fn(Seq<Wall>, Door) -> Seq<bool>,
    id: DoorId,
)
    requires
        (a matches StateCommand::ChangeDoorName(x, _) && x == d) || (a matches StateCommand::ChangeDoorNotes(x, _) && x == d),
    ensures
        has_dv(step(a, v, door_flags).doors, id) == has_dv(v.doors, id),
{
    let v1 = step(a, v, door_flags);
    if has_dv(v.doors, d) {
        let i = first_index(v.doors, dv_has_id(d));
        lemma_first_index(v.doors, dv_has_id(d));
        assert(v1.doors.len() == v.doors.len());
        assert forall|j: int| 0 <= j < v.doors.len() implies #[trigger] v1.doors[j].id
            == v.doors[j].id by {}
        if has_dv(v.doors, id) {
            let j = choose|j: int| 0 <= j < v.doors.len() && v.doors[j].id == id;
            assert(v1.doors[j].id == id);
        }
        if has_dv(v1.doors, id) {
            let j = choose|j: int| 0 <= j < v1.doors.len() && v1.doors[j].id == id;
            assert(v.doors[j].id == id);
        }
    }
}

/// An edit of a text does not change whether the next edit of the same text
/// can be executed.
pub proof fn lemma_text_edit_keeps_can_step(
    a: StateCommand,
    b: StateCommand,
    v: StateView,
    door_flags: spec_fn(Seq<Wall>, Door) -> Seq<bool>,
    on: Seq<bool>,
)
    requires
        same_text_edit(a, b),
    ensures
        can_step(b, step(a, v, door_flags), on) == can_step(b, v, on),
{
    match a {
        StateCommand::ChangeChamberName(c, _) => lemma_chamber_edit_keeps_ids(a, c, v, door_flags, c),
        StateCommand::ChangeChamberNotes(c, _) => lemma_chamber_edit_keeps_ids(a, c, v, door_flags, c),
        StateCommand::ChangeDoorName(d, _) => lemma_door_edit_keeps_ids(a, d, v, door_flags, d),
        StateCommand::ChangeDoorNotes(d, _) => lemma_door_edit_keeps_ids(a, d, v, door_flags, d),
        StateCommand::ChangeDungeonName(_) => {
            assert(b is ChangeDungeonName);
        },
        StateCommand::ChangeDungeonNotes(_) => {
            assert(b is ChangeDungeonNotes);
        },
        _ => {
            assert(text_edit(a) is None);
        },
    }
}

/// Command `k` of `cmds` can be executed after replaying the commands
/// before it from the content `v`.
pub open spec fn can_step_at(
    cmds: Seq<StateCommand>,
    v: StateView,
    door_flags: spec_fn(Seq<Wall>, Door) -> Seq<bool>,
    k: int,
) -> bool {
    let w = replay_view(cmds.take(k), v, door_flags);
    can_step(cmds[k], w, flags_for(cmds[k], w, door_flags))
}

/// Every command of `cmds` can be executed after replaying those before it
/// from the content `v`.
pub open spec fn replays_fully(
    cmds: Seq<StateCommand>,
    v: StateView,
    door_flags: spec_fn(Seq<Wall>, Door) -> Seq<bool>,
) -> bool {
    forall|k: int| 0 <= k < cmds.len() ==> #[trigger] can_step_at(cmds, v, door_flags, k)
}

/// When every command can be replayed, so can the recorded history.
pub proof fn lemma_recorded_replays_fully(
    cmds: Seq<StateCommand>,
    v: StateView,
    door_flags: spec_fn(Seq<Wall>, Door) -> Seq<bool>,
)
    requires
        replays_fully(cmds, v, door_flags),
    ensures
        replays_fully(recorded_all(Seq::empty(), cmds), v, door_flags),
    decreases cmds.len(),
{
    if cmds.len() > 0 {
        let n = cmds.len() - 1;
        let prev = cmds.drop_last();
        let c = cmds.last();
        let h = recorded_all(Seq::empty(), prev);
        let r = recorded_all(Seq::empty(), cmds);
        assert forall|k: int| 0 <= k < prev.len() implies #[trigger] can_step_at(
            prev,
            v,
            door_flags,
            k,
        ) by {
            assert(can_step_at(cmds, v, door_flags, k));
            assert(prev.take(k) =~= cmds.take(k));
        }
        lemma_recorded_replays_fully(prev, v, door_flags);
        lemma_replay_recorded(Seq::empty(), prev, v, door_flags);
        assert(Seq::<StateCommand>::empty() + prev =~= prev);
        assert(can_step_at(cmds, v, door_flags, n));
        assert(cmds.take(n) =~= prev);
        if merges(h, c) {
            let m = h.len() - 1;
            assert forall|k: int| 0 <= k < r.len() implies #[trigger] can_step_at(
                r,
                v,
                door_flags,
                k,
            ) by {
                assert(r.take(k) =~= h.take(k));
                if k < m {
                    assert(can_step_at(h, v, door_flags, k));
                } else {
                    let w = replay_view(h.take(m), v, door_flags);
                    assert(h.take(m) =~= h.drop_last());
                    assert(h =~= h.drop_last().push(h.last()));
                    assert(replay_view(h, v, door_flags) == step(h.last(), w, door_flags));
                    lemma_text_edit_keeps_can_step(
                        h.last(),
                        c,
                        w,
                        door_flags,
                        flags_for(c, w, door_flags),
                    );
                    assert(flags_for(c, w, door_flags) == flags_for(
                        c,
                        step(h.last(), w, door_flags),
                        door_flags,
                    ));
                }
            }
        } else {
            assert forall|k: int| 0 <= k < r.len() implies #[trigger] can_step_at(
                r,
                v,
                door_flags,
                k,
            ) by {
                if k < h.len() {
                    assert(r.take(k) =~= h.take(k));
                    assert(can_step_at(h, v, door_flags, k));
                } else {
                    assert(r.take(k) =~= h);
                }
            }
        }
    }
}


/// The first `k` commands of a run, with the states they pass through, are
/// a run.
pub proof fn lemma_run_prefix(
    cmds: Seq<StateCommand>,
    states: Seq<State>,
    flags: Seq<Seq<bool>>,
    events: Seq<Seq<StateEvent>>,
    door_flags: spec_fn(Seq<Wall>, Door) -> Seq<bool>,
    k: int,
)
    requires
        is_run(cmds, states, flags, events, door_flags),
        0 <= k <= cmds.len(),
    ensures
        is_run(cmds.take(k), states.take(k + 1), flags.take(k), events.take(k), door_flags),
{
    assert forall|j: int| 0 <= j < k implies #[trigger] run_step(
        cmds.take(k),
        states.take(k + 1),
        flags.take(k),
        events.take(k),
        door_flags,
        j,
    ) by {
        assert(run_step(cmds, states, flags, events, door_flags, j));
    }
}

/// The wall flags that `door_flags` gives a command on state `s`: those for
/// the walls of the dungeon and the door for a new door, none otherwise.
pub open spec fn run_flags(
    cmd: StateCommand,
    s: State,
    door_flags: spec_fn(Seq<Wall>, Door) -> Seq<bool>,
) -> Seq<bool> {
    match cmd {
        StateCommand::AddDoor(d) => door_flags(all_walls(s.dungeon.chambers@), d),
        _ => Seq::empty(),
    }
}

/// Whether a command can be executed with the flags `door_flags` gives is
/// whether it can be replayed on the state's content.
pub proof fn lemma_run_flags_can_step(
    cmd: StateCommand,
    s: State,
    on: Seq<bool>,
    door_flags: spec_fn(Seq<Wall>, Door) -> Seq<bool>,
)
    requires
        cmd matches StateCommand::AddDoor(d) ==> on == door_flags(
            all_walls(s.dungeon.chambers@),
            d,
        ),
    ensures
        can_execute(cmd, s, on) == can_step(
            cmd,
            state_view(s),
            flags_for(cmd, state_view(s), door_flags),
        ),
{
    let v = state_view(s);
    lemma_can_execute_view(cmd, s, on);
    match cmd {
        StateCommand::AddDoor(d) => {
            lemma_view_walls(s.dungeon.chambers@);
        },
        _ => {
            lemma_can_step_ignores_flags(cmd, v, on, flags_for(cmd, v, door_flags));
        },
    }
}

/// Every command of a run can be replayed on the content its run reached.
pub proof fn lemma_run_replays_fully(
    cmds: Seq<StateCommand>,
    states: Seq<State>,
    flags: Seq<Seq<bool>>,
    events: Seq<Seq<StateEvent>>,
    door_flags: spec_fn(Seq<Wall>, Door) -> Seq<bool>,
)
    requires
        is_run(cmds, states, flags, events, door_flags),
    ensures
        replays_fully(cmds, state_view(states[0]), door_flags),
{
    let v = state_view(states[0]);
    assert forall|k: int| 0 <= k < cmds.len() implies #[trigger] can_step_at(
        cmds,
        v,
        door_flags,
        k,
    ) by {
        lemma_run_prefix(cmds, states, flags, events, door_flags, k);
        lemma_run_replays(cmds.take(k), states.take(k + 1), flags.take(k), events.take(k), door_flags);
        assert(run_step(cmds, states, flags, events, door_flags, k));
        lemma_run_flags_can_step(cmds[k], states[k], flags[k], door_flags);
    }
}

} // verus!
