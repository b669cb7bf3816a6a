use vstd::prelude::*;

use crate::chamber::{Chamber, ChamberId, Wall};
use crate::door::{Door, DoorId};
use crate::ids::{first_index, lemma_first_index_at, lemma_max_key_bounds, max_key};
use crate::object::{Object, ObjectId};

verus! {

/// A dungeon: its chambers, the doors on their walls, the objects placed in
/// it, and a name and notes.
pub struct Dungeon {
    pub chambers: Vec<Chamber>,
    pub doors: Vec<Door>,
    pub objects: Vec<Object>,
    pub name: String,
    pub notes: String,
}

/// Holds for a chamber with id `id`.
pub open spec fn chamber_has_id(id: ChamberId) -> spec_fn(Chamber) -> bool {
    |c: Chamber| c.id == id
}

/// Holds for a door with id `id`.
pub open spec fn door_has_id(id: DoorId) -> spec_fn(Door) -> bool {
    |d: Door| d.id == id
}

/// Holds for an object with id `id`.
pub open spec fn object_has_id(id: ObjectId) -> spec_fn(Object) -> bool {
    |o: Object| o.id == id
}

/// The id of a chamber.
pub open spec fn chamber_key() -> spec_fn(Chamber) -> u32 {
    |c: Chamber| c.id
}

/// The id of a door.
pub open spec fn door_key() -> spec_fn(Door) -> u32 {
    |d: Door| d.id
}

/// The id of an object.
pub open spec fn object_key() -> spec_fn(Object) -> u32 {
    |o: Object| o.id
}

/// Holds for a door that is part of chamber `id`.
pub open spec fn door_part_of(id: ChamberId) -> spec_fn(Door) -> bool {
    |d: Door| d.part_of == id
}

/// Holds for a door that is not part of chamber `id`.
pub open spec fn door_not_part_of(id: ChamberId) -> spec_fn(Door) -> bool {
    |d: Door| d.part_of != id
}

/// Holds for a door that is part of chamber `id` or leads to it.
pub open spec fn door_touches(id: ChamberId) -> spec_fn(Door) -> bool {
    |d: Door| d.part_of == id || d.leads_to == Some(id)
}

/// `true` when some chamber has id `id`.
pub open spec fn has_chamber(cs: Seq<Chamber>, id: ChamberId) -> bool {
    exists|i: int| 0 <= i < cs.len() && cs[i].id == id
}

/// `true` when some door has id `id`.
pub open spec fn has_door(ds: Seq<Door>, id: DoorId) -> bool {
    exists|i: int| 0 <= i < ds.len() && ds[i].id == id
}

/// `true` when some object has id `id`.
pub open spec fn has_object(os: Seq<Object>, id: ObjectId) -> bool {
    exists|i: int| 0 <= i < os.len() && os[i].id == id
}

/// Index of the first chamber with id `id`.
pub open spec fn chamber_pos(cs: Seq<Chamber>, id: ChamberId) -> int {
    first_index(cs, chamber_has_id(id))
}

/// Index of the first door with id `id`.
pub open spec fn door_pos(ds: Seq<Door>, id: DoorId) -> int {
    first_index(ds, door_has_id(id))
}

/// Index of the first object with id `id`.
pub open spec fn object_pos(os: Seq<Object>, id: ObjectId) -> int {
    first_index(os, object_has_id(id))
}

/// The id that a new chamber gets when its own id is taken.
pub open spec fn next_chamber_id_of(cs: Seq<Chamber>) -> nat {
    max_key(cs, chamber_key()) + 1
}

/// The id that a new door gets when its own id is taken.
pub open spec fn next_door_id_of(ds: Seq<Door>) -> nat {
    max_key(ds, door_key()) + 1
}

/// The id that a new object gets.
pub open spec fn next_object_id_of(os: Seq<Object>) -> nat {
    max_key(os, object_key()) + 1
}

/// The walls of all chambers, chamber after chamber.
pub open spec fn all_walls(cs: Seq<Chamber>) -> Seq<Wall>
    decreases cs.len(),
{
    if cs.len() == 0 {
        Seq::empty()
    } else {
        all_walls(cs.drop_last()) + cs.last().walls@
    }
}

/// The ids of the doors that are part of chamber `id`, in order.
pub open spec fn door_ids_part_of(ds: Seq<Door>, id: ChamberId) -> Seq<DoorId> {
    ds.filter(door_part_of(id)).map_values(|d: Door| d.id)
}

/// The id under which `add_chamber` stores a chamber whose own id is `id`.
pub open spec fn added_chamber_id(cs: Seq<Chamber>, id: ChamberId) -> ChamberId {
    if has_chamber(cs, id) {
        next_chamber_id_of(cs) as ChamberId
    } else {
        id
    }
}

/// The id under which `add_door` stores a door whose own id is `id`.
pub open spec fn added_door_id(ds: Seq<Door>, id: DoorId) -> DoorId {
    if has_door(ds, id) {
        next_door_id_of(ds) as DoorId
    } else {
        id
    }
}

/// Adding a chamber with id `id` does not overflow the id space.
pub open spec fn can_add_chamber(cs: Seq<Chamber>, id: ChamberId) -> bool {
    has_chamber(cs, id) ==> max_key(cs, chamber_key()) < u32::MAX
}

/// Adding a door with id `id` does not overflow the id space.
pub open spec fn can_add_door(ds: Seq<Door>, id: DoorId) -> bool {
    has_door(ds, id) ==> max_key(ds, door_key()) < u32::MAX
}

/// Adding an object does not overflow the id space.
pub open spec fn can_add_object(os: Seq<Object>) -> bool {
    max_key(os, object_key()) < u32::MAX
}

/// A chamber keeps its own id when no chamber has it; otherwise it gets an
/// id larger than every id in use.
pub proof fn lemma_added_chamber_id(cs: Seq<Chamber>, id: ChamberId)
    requires
        can_add_chamber(cs, id),
    ensures
        (forall|k: int| 0 <= k < cs.len() ==> #[trigger] cs[k].id != id) ==> added_chamber_id(
            cs,
            id,
        ) == id,
        (exists|k: int| 0 <= k < cs.len() && #[trigger] cs[k].id == id) ==> forall|k: int|
            0 <= k < cs.len() ==> #[trigger] cs[k].id < added_chamber_id(cs, id),
{
    lemma_max_key_bounds(cs, chamber_key());
    if exists|k: int| 0 <= k < cs.len() && #[trigger] cs[k].id == id {
        assert forall|k: int| 0 <= k < cs.len() implies #[trigger] cs[k].id < added_chamber_id(
            cs,
            id,
        ) by {
            assert(chamber_key()(cs[k]) <= max_key(cs, chamber_key()));
        }
    }
}

/// A door keeps its own id when no door has it; otherwise it gets an id
/// larger than every id in use.
pub proof fn lemma_added_door_id(ds: Seq<Door>, id: DoorId)
    requires
        can_add_door(ds, id),
    ensures
        (forall|k: int| 0 <= k < ds.len() ==> #[trigger] ds[k].id != id) ==> added_door_id(ds, id)
            == id,
        (exists|k: int| 0 <= k < ds.len() && #[trigger] ds[k].id == id) ==> forall|k: int|
            0 <= k < ds.len() ==> #[trigger] ds[k].id < added_door_id(ds, id),
{
    lemma_max_key_bounds(ds, door_key());
    if exists|k: int| 0 <= k < ds.len() && #[trigger] ds[k].id == id {
        assert forall|k: int| 0 <= k < ds.len() implies #[trigger] ds[k].id < added_door_id(
            ds,
            id,
        ) by {
            assert(door_key()(ds[k]) <= max_key(ds, door_key()));
        }
    }
}

/// A new object gets an id larger than every id in use.
pub proof fn lemma_next_object_id(os: Seq<Object>)
    requires
        can_add_object(os),
    ensures
        forall|k: int| 0 <= k < os.len() ==> #[trigger] os[k].id < next_object_id_of(os),
{
    lemma_max_key_bounds(os, object_key());
    assert forall|k: int| 0 <= k < os.len() implies #[trigger] os[k].id < next_object_id_of(os) by {
        assert(object_key()(os[k]) <= max_key(os, object_key()));
    }
}

/// Removing a chamber's doors keeps exactly the doors of other chambers, in
/// order, and reports the ids of the removed ones: no kept door is part of
/// the chamber, every door of another chamber is kept, and kept plus removed
/// doors are all the doors.
pub proof fn lemma_doors_of_removed_chamber(ds: Seq<Door>, c: ChamberId)
    ensures
        forall|i: int|
            0 <= i < ds.filter(door_not_part_of(c)).len() ==> (#[trigger] ds.filter(
                door_not_part_of(c),
            )[i]).part_of != c,
        forall|i: int| 0 <= i < ds.len() && (#[trigger] ds[i]).part_of != c ==> ds.filter(
            door_not_part_of(c),
        ).contains(ds[i]),
        forall|i: int|
            #![trigger door_ids_part_of(ds, c)[i]]
            0 <= i < door_ids_part_of(ds, c).len() ==> door_ids_part_of(ds, c)[i]
                == ds.filter(door_part_of(c))[i].id && ds.filter(door_part_of(c))[i].part_of == c
                && ds.contains(ds.filter(door_part_of(c))[i]),
        ds.filter(door_not_part_of(c)).len() + door_ids_part_of(ds, c).len() == ds.len(),
    decreases ds.len(),
{
    reveal_with_fuel(Seq::<_>::filter, 1);
    let f = ds.filter(door_not_part_of(c));
    assert forall|i: int| 0 <= i < f.len() implies (#[trigger] f[i]).part_of != c by {
        ds.lemma_filter_pred(door_not_part_of(c), i);
    }
    assert forall|i: int| 0 <= i < ds.len() && (#[trigger] ds[i]).part_of != c implies f.contains(
        ds[i],
    ) by {
        ds.lemma_filter_contains(door_not_part_of(c), i);
    }
    let g = ds.filter(door_part_of(c));
    assert forall|i: int|
        #![trigger door_ids_part_of(ds, c)[i]]
        0 <= i < door_ids_part_of(ds, c).len() implies door_ids_part_of(ds, c)[i] == g[i].id
            && g[i].part_of == c && ds.contains(g[i]) by {
        ds.lemma_filter_pred(door_part_of(c), i);
        ds.lemma_filter_contains_rev(door_part_of(c), g[i]);
    }
    if ds.len() > 0 {
        lemma_doors_of_removed_chamber(ds.drop_last(), c);
        assert(ds.drop_last().filter(door_part_of(c)).map_values(|d: Door| d.id).len() == ds.drop_last().filter(door_part_of(c)).len());
    }
}

impl Dungeon {
    /// An empty dungeon with empty name and notes.
    pub fn new() -> (r: Dungeon)
        ensures
            r.chambers@ == Seq::<Chamber>::empty(),
            r.doors@ == Seq::<Door>::empty(),
            r.objects@ == Seq::<Object>::empty(),
            r.name@ == Seq::<char>::empty(),
            r.notes@ == Seq::<char>::empty(),
    {
        Dungeon {
            chambers: Vec::new(),
            doors: Vec::new(),
            objects: Vec::new(),
            name: String::new(),
            notes: String::new(),
        }
    }

    /// Index of the first chamber with id `id`.
    pub fn chamber_position(&self, id: ChamberId) -> (r: Option<usize>)
        ensures
            r is None <==> !has_chamber(self.chambers@, id),
            r matches Some(i) ==> i < self.chambers@.len() && i == chamber_pos(
                self.chambers@,
                id,
            ) && self.chambers@[i as int].id == id,
    {
        let mut i: usize = 0;
        while i < self.chambers.len()
            invariant
                i <= self.chambers@.len(),
                forall|j: int| 0 <= j < i ==> self.chambers@[j].id != id,
            decreases self.chambers@.len() - i,
        {
            if self.chambers[i].id == id {
                proof {
                    lemma_first_index_at(self.chambers@, chamber_has_id(id), i as int);
                }
                return Some(i);
            }
            i += 1;
        }
        None
    }

    /// Index of the first door with id `id`.
    pub fn door_position(&self, id: DoorId) -> (r: Option<usize>)
        ensures
            r is None <==> !has_door(self.doors@, id),
            r matches Some(i) ==> i < self.doors@.len() && i == door_pos(self.doors@, id)
                && self.doors@[i as int].id == id,
    {
        let mut i: usize = 0;
        while i < self.doors.len()
            invariant
                i <= self.doors@.len(),
                forall|j: int| 0 <= j < i ==> self.doors@[j].id != id,
            decreases self.doors@.len() - i,
        {
            if self.doors[i].id == id {
                proof {
                    lemma_first_index_at(self.doors@, door_has_id(id), i as int);
                }
                return Some(i);
            }
            i += 1;
        }
        None
    }

    /// Index of the first object with id `id`.
    pub fn object_position(&self, id: ObjectId) -> (r: Option<usize>)
        ensures
            r is None <==> !has_object(self.objects@, id),
            r matches Some(i) ==> i < self.objects@.len() && i == object_pos(
                self.objects@,
                id,
            ) && self.objects@[i as int].id == id,
    {
        let mut i: usize = 0;
        while i < self.objects.len()
            invariant
                i <= self.objects@.len(),
                forall|j: int| 0 <= j < i ==> self.objects@[j].id != id,
            decreases self.objects@.len() - i,
        {
            if self.objects[i].id == id {
                proof {
                    lemma_first_index_at(self.objects@, object_has_id(id), i as int);
                }
                return Some(i);
            }
            i += 1;
        }
        None
    }

    /// The largest chamber id, 0 when there is no chamber.
    pub fn largest_chamber_id(&self) -> (r: ChamberId)
        ensures
            r == max_key(self.chambers@, chamber_key()),
    {
        let mut m: u32 = 0;
        let mut i: usize = 0;
        while i < self.chambers.len()
            invariant
                i <= self.chambers@.len(),
                m == max_key(self.chambers@.take(i as int), chamber_key()),
            decreases self.chambers@.len() - i,
        {
            assert(self.chambers@.take(i as int + 1).drop_last() == self.chambers@.take(i as int));
            if self.chambers[i].id > m {
                m = self.chambers[i].id;
            }
            i += 1;
        }
        assert(self.chambers@.take(i as int) == self.chambers@);
        m
    }

    /// An id larger than every chamber id.
    pub fn next_chamber_id(&self) -> (r: ChamberId)
        requires
            max_key(self.chambers@, chamber_key()) < u32::MAX,
        ensures
            r == next_chamber_id_of(self.chambers@),
    {
        self.largest_chamber_id() + 1
    }

    /// The largest door id, 0 when there is no door.
    pub fn largest_door_id(&self) -> (r: DoorId)
        ensures
            r == max_key(self.doors@, door_key()),
    {
        let mut m: u32 = 0;
        let mut i: usize = 0;
        while i < self.doors.len()
            invariant
                i <= self.doors@.len(),
                m == max_key(self.doors@.take(i as int), door_key()),
            decreases self.doors@.len() - i,
        {
            assert(self.doors@.take(i as int + 1).drop_last() == self.doors@.take(i as int));
            if self.doors[i].id > m {
                m = self.doors[i].id;
            }
            i += 1;
        }
        assert(self.doors@.take(i as int) == self.doors@);
        m
    }

    /// An id larger than every door id.
    pub fn next_door_id(&self) -> (r: DoorId)
        requires
            max_key(self.doors@, door_key()) < u32::MAX,
        ensures
            r == next_door_id_of(self.doors@),
    {
        self.largest_door_id() + 1
    }

    /// The largest object id, 0 when there is no object.
    pub fn largest_object_id(&self) -> (r: ObjectId)
        ensures
            r == max_key(self.objects@, object_key()),
    {
        let mut m: u32 = 0;
        let mut i: usize = 0;
        while i < self.objects.len()
            invariant
                i <= self.objects@.len(),
                m == max_key(self.objects@.take(i as int), object_key()),
            decreases self.objects@.len() - i,
        {
            assert(self.objects@.take(i as int + 1).drop_last() == self.objects@.take(i as int));
            if self.objects[i].id > m {
                m = self.objects[i].id;
            }
            i += 1;
        }
        assert(self.objects@.take(i as int) == self.objects@);
        m
    }

    /// An id larger than every object id.
    pub fn next_object_id(&self) -> (r: ObjectId)
        requires
            max_key(self.objects@, object_key()) < u32::MAX,
        ensures
            r == next_object_id_of(self.objects@),
    {
        self.largest_object_id() + 1
    }

    /// Adds a chamber. A chamber whose id is already taken gets a fresh one,
    /// larger than all others. Returns the id under which it was stored.
    pub fn add_chamber(&mut self, chamber: Chamber) -> (r: ChamberId)
        requires
            can_add_chamber(old(self).chambers@, chamber.id),
        ensures
            r == added_chamber_id(old(self).chambers@, chamber.id),
            (forall|k: int|
                0 <= k < old(self).chambers@.len() ==> #[trigger] old(self).chambers@[k].id
                    != chamber.id) ==> r == chamber.id,
            forall|k: int|
                0 <= k < old(self).chambers@.len() && #[trigger] old(self).chambers@[k].id
                    == chamber.id ==> forall|j: int|
                    0 <= j < old(self).chambers@.len() ==> #[trigger] old(self).chambers@[j].id < r,
            final(self).chambers@ == old(self).chambers@.push(Chamber { id: r, ..chamber }),
            final(self).doors == old(self).doors,
            final(self).objects == old(self).objects,
            final(self).name == old(self).name,
            final(self).notes == old(self).notes,
    {
        proof {
            lemma_added_chamber_id(self.chambers@, chamber.id);
        }
        let mut chamber = chamber;
        let chamber_id = match self.chamber_position(chamber.id) {
            Some(_) => self.next_chamber_id(),
            None => chamber.id,
        };
        chamber.id = chamber_id;
        self.chambers.push(chamber);
        chamber_id
    }

    /// The first chamber with id `chamber_id`, for modification.
    pub fn chamber_mut(&mut self, chamber_id: ChamberId) -> (r: Option<&mut Chamber>)
        ensures
            r is None <==> !has_chamber(old(self).chambers@, chamber_id),
            r is None ==> final(self).chambers@ == old(self).chambers@,
            r is Some ==> 0 <= chamber_pos(old(self).chambers@, chamber_id) < old(self).chambers@.len(),
            r is Some ==> *r->0 == old(self).chambers@[chamber_pos(old(self).chambers@, chamber_id)]
                && final(self).chambers@ == old(self).chambers@.update(
                chamber_pos(old(self).chambers@, chamber_id),
                *final(r->0),
            ),
            final(self).doors == old(self).doors,
            final(self).objects == old(self).objects,
            final(self).name == old(self).name,
            final(self).notes == old(self).notes,
    {
        match self.chamber_position(chamber_id) {
            Some(i) => Some(&mut self.chambers[i]),
            None => None,
        }
    }

    /// The first chamber with id `chamber_id`.
    pub fn chamber(&self, chamber_id: ChamberId) -> (r: Option<&Chamber>)
        ensures
            r is None <==> !has_chamber(self.chambers@, chamber_id),
            r matches Some(c) ==> *c == self.chambers@[chamber_pos(self.chambers@, chamber_id)],
    {
        match self.chamber_position(chamber_id) {
            Some(i) => Some(&self.chambers[i]),
            None => None,
        }
    }

    /// The chambers.
    pub fn chambers(&self) -> (r: &Vec<Chamber>)
        ensures
            r@ == self.chambers@,
    {
        &self.chambers
    }

    /// Removes the first chamber with id `chamber_id` together with all doors
    /// that are part of it, and returns the ids of those doors in order. Does
    /// nothing and returns no ids when there is no such chamber.
    pub fn remove_chamber(&mut self, chamber_id: ChamberId) -> (r: Vec<DoorId>)
        ensures
            has_chamber(old(self).chambers@, chamber_id) ==> {
                &&& r@ == door_ids_part_of(old(self).doors@, chamber_id)
                &&& final(self).doors@ == old(self).doors@.filter(door_not_part_of(chamber_id))
                &&& final(self).chambers@ == old(self).chambers@.remove(
                    chamber_pos(old(self).chambers@, chamber_id),
                )
            },
            !has_chamber(old(self).chambers@, chamber_id) ==> {
                &&& r@ == Seq::<DoorId>::empty()
                &&& final(self).doors == old(self).doors
                &&& final(self).chambers == old(self).chambers
            },
            final(self).objects == old(self).objects,
            final(self).name == old(self).name,
            final(self).notes == old(self).notes,
    {
        match self.chamber_position(chamber_id) {
            Some(idx) => {
                let ghost old_doors = self.doors@;
                let mut door_ids: Vec<DoorId> = Vec::new();
                let mut kept: Vec<Door> = Vec::new();
                let mut i: usize = 0;
                while i < self.doors.len()
                    invariant
                        i <= self.doors@.len(),
                        self.doors@ == old_doors,
                        door_ids@ == door_ids_part_of(old_doors.take(i as int), chamber_id),
                        kept@ == old_doors.take(i as int).filter(door_not_part_of(chamber_id)),
                    decreases self.doors@.len() - i,
                {
                    proof {
                        reveal_with_fuel(Seq::<_>::filter, 1);
                        assert(old_doors.take(i as int + 1).drop_last() == old_doors.take(
                            i as int,
                        ));
                    }
                    let d = self.doors[i].clone();
                    if d.part_of == chamber_id {
                        let ghost before = old_doors.take(i as int).filter(door_part_of(chamber_id));
                        door_ids.push(d.id);
                        assert(before.push(d).map_values(|x: Door| x.id) == before.map_values(
                            |x: Door| x.id,
                        ).push(d.id));
                    } else {
                        kept.push(d);
                    }
                    i += 1;
                }
                assert(old_doors.take(i as int) == old_doors);
                self.doors = kept;
                self.chambers.remove(idx);
                door_ids
            },
            None => Vec::new(),
        }
    }

    /// The first door with id `id`.
    pub fn door(&self, id: DoorId) -> (r: Option<&Door>)
        ensures
            r is None <==> !has_door(self.doors@, id),
            r matches Some(d) ==> *d == self.doors@[door_pos(self.doors@, id)],
    {
        match self.door_position(id) {
            Some(i) => Some(&self.doors[i]),
            None => None,
        }
    }

    /// The first door with id `id`, for modification.
    pub fn door_mut(&mut self, id: DoorId) -> (r: Option<&mut Door>)
        ensures
            r is None <==> !has_door(old(self).doors@, id),
            r is None ==> final(self).doors@ == old(self).doors@,
            r is Some ==> 0 <= door_pos(old(self).doors@, id) < old(self).doors@.len(),
            r is Some ==> *r->0 == old(self).doors@[door_pos(old(self).doors@, id)]
                && final(self).doors@ == old(self).doors@.update(
                door_pos(old(self).doors@, id),
                *final(r->0),
            ),
            final(self).chambers == old(self).chambers,
            final(self).objects == old(self).objects,
            final(self).name == old(self).name,
            final(self).notes == old(self).notes,
    {
        match self.door_position(id) {
            Some(i) => Some(&mut self.doors[i]),
            None => None,
        }
    }

    /// Adds a door. A door whose id is already taken gets a fresh one, larger
    /// than all others. Returns the id under which it was stored.
    pub fn add_door(&mut self, door: Door) -> (r: DoorId)
        requires
            can_add_door(old(self).doors@, door.id),
        ensures
            r == added_door_id(old(self).doors@, door.id),
            (forall|k: int|
                0 <= k < old(self).doors@.len() ==> #[trigger] old(self).doors@[k].id != door.id)
                ==> r == door.id,
            forall|k: int|
                0 <= k < old(self).doors@.len() && #[trigger] old(self).doors@[k].id == door.id
                    ==> forall|j: int|
                    0 <= j < old(self).doors@.len() ==> #[trigger] old(self).doors@[j].id < r,
            final(self).doors@ == old(self).doors@.push(Door { id: r, ..door }),
            final(self).chambers == old(self).chambers,
            final(self).objects == old(self).objects,
            final(self).name == old(self).name,
            final(self).notes == old(self).notes,
    {
        proof {
            lemma_added_door_id(self.doors@, door.id);
        }
        let mut door = door;
        let door_id = match self.door_position(door.id) {
            Some(_) => self.next_door_id(),
            None => door.id,
        };
        door.id = door_id;
        self.doors.push(door);
        door_id
    }

    /// The doors that are part of chamber `chamber_id` or lead to it.
    pub fn chamber_doors(&self, chamber_id: ChamberId) -> (r: Vec<&Door>)
        ensures
            r@.len() == self.doors@.filter(door_touches(chamber_id)).len(),
            forall|i: int|
                0 <= i < r@.len() ==> *r@[i] == self.doors@.filter(door_touches(chamber_id))[i],
    {
        let mut r: Vec<&Door> = Vec::new();
        let mut i: usize = 0;
        while i < self.doors.len()
            invariant
                i <= self.doors@.len(),
                r@.len() == self.doors@.take(i as int).filter(door_touches(chamber_id)).len(),
                forall|k: int|
                    0 <= k < r@.len() ==> *r@[k] == self.doors@.take(i as int).filter(
                        door_touches(chamber_id),
                    )[k],
            decreases self.doors@.len() - i,
        {
            proof {
                reveal_with_fuel(Seq::<_>::filter, 1);
                assert(self.doors@.take(i as int + 1).drop_last() == self.doors@.take(i as int));
            }
            let d = &self.doors[i];
            if d.part_of == chamber_id || d.leads_to == Some(chamber_id) {
                r.push(d);
            }
            i += 1;
        }
        assert(self.doors@.take(i as int) == self.doors@);
        r
    }

    /// Removes the first door with id `door_id`; does nothing when there is
    /// none.
    pub fn remove_door(&mut self, door_id: DoorId)
        ensures
            has_door(old(self).doors@, door_id) ==> final(self).doors@ == old(self).doors@.remove(
                door_pos(old(self).doors@, door_id),
            ),
            !has_door(old(self).doors@, door_id) ==> final(self).doors == old(self).doors,
            final(self).chambers == old(self).chambers,
            final(self).objects == old(self).objects,
            final(self).name == old(self).name,
            final(self).notes == old(self).notes,
    {
        match self.door_position(door_id) {
            Some(i) => {
                self.doors.remove(i);
            },
            None => {},
        }
    }

    /// Adds an object under a fresh id, larger than all others, and returns
    /// that id.
    pub fn add_object(&mut self, obj: Object) -> (r: ObjectId)
        requires
            can_add_object(old(self).objects@),
        ensures
            r == next_object_id_of(old(self).objects@),
            forall|k: int|
                0 <= k < old(self).objects@.len() ==> #[trigger] old(self).objects@[k].id < r,
            final(self).objects@ == old(self).objects@.push(Object { id: r, ..obj }),
            final(self).chambers == old(self).chambers,
            final(self).doors == old(self).doors,
            final(self).name == old(self).name,
            final(self).notes == old(self).notes,
    {
        proof {
            lemma_next_object_id(self.objects@);
        }
        let mut obj = obj;
        let id = self.next_object_id();
        obj.id = id;
        self.objects.push(obj);
        id
    }

    /// The walls of all chambers, chamber after chamber.
    pub fn walls(&self) -> (r: Vec<Wall>)
        ensures
            r@ == all_walls(self.chambers@),
    {
        let mut all_walls_v: Vec<Wall> = Vec::new();
        let mut i: usize = 0;
        while i < self.chambers.len()
            invariant
                i <= self.chambers@.len(),
                all_walls_v@ == all_walls(self.chambers@.take(i as int)),
            decreases self.chambers@.len() - i,
        {
            assert(self.chambers@.take(i as int + 1).drop_last() == self.chambers@.take(i as int));
            let walls = self.chambers[i].walls();
            let ghost before = all_walls_v@;
            let mut j: usize = 0;
            while j < walls.len()
                invariant
                    j <= walls@.len(),
                    walls@ == self.chambers@[i as int].walls@,
                    all_walls_v@ == before + walls@.take(j as int),
                decreases walls@.len() - j,
            {
                all_walls_v.push(walls[j]);
                assert(walls@.take(j as int + 1) == walls@.take(j as int).push(walls@[j as int]));
                j += 1;
            }
            assert(walls@.take(j as int) == walls@);
            i += 1;
        }
        assert(self.chambers@.take(i as int) == self.chambers@);
        all_walls_v
    }

    /// The first object with id `id`.
    pub fn object(&self, id: ObjectId) -> (r: Option<&Object>)
        ensures
            r is None <==> !has_object(self.objects@, id),
            r matches Some(o) ==> *o == self.objects@[object_pos(self.objects@, id)],
    {
        match self.object_position(id) {
            Some(i) => Some(&self.objects[i]),
            None => None,
        }
    }

    /// The first object with id `id`, for modification.
    pub fn object_mut(&mut self, id: ObjectId) -> (r: Option<&mut Object>)
        ensures
            r is None <==> !has_object(old(self).objects@, id),
            r is None ==> final(self).objects@ == old(self).objects@,
            r is Some ==> 0 <= object_pos(old(self).objects@, id) < old(self).objects@.len(),
            r is Some ==> *r->0 == old(self).objects@[object_pos(old(self).objects@, id)]
                && final(self).objects@ == old(self).objects@.update(
                object_pos(old(self).objects@, id),
                *final(r->0),
            ),
            final(self).chambers == old(self).chambers,
            final(self).doors == old(self).doors,
            final(self).name == old(self).name,
            final(self).notes == old(self).notes,
    {
        match self.object_position(id) {
            Some(i) => Some(&mut self.objects[i]),
            None => None,
        }
    }

    /// Removes the first object with id `object_id`; does nothing when there
    /// is none.
    pub fn remove_object(&mut self, object_id: ObjectId)
        ensures
            has_object(old(self).objects@, object_id) ==> final(self).objects@ == old(
                self,
            ).objects@.remove(object_pos(old(self).objects@, object_id)),
            !has_object(old(self).objects@, object_id) ==> final(self).objects == old(
                self,
            ).objects,
            final(self).chambers == old(self).chambers,
            final(self).doors == old(self).doors,
            final(self).name == old(self).name,
            final(self).notes == old(self).notes,
    {
        match self.object_position(object_id) {
            Some(i) => {
                self.objects.remove(i);
            },
            None => {},
        }
    }
}

} // verus!
