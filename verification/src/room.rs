use vstd::prelude::*;

use crate::common::Vec2;

verus! {

pub type RoomId = u32;

pub type WallId = u32;

/// One wall of a room, derived from two consecutive vertices.
#[derive(Clone, Copy, Debug)]
pub struct Wall {
    pub id: WallId,
    pub p1: Vec2<i32>,
    pub p2: Vec2<i32>,
}

/// A room given by the list of its vertices.
pub struct Room {
    pub id: Option<RoomId>,
    pub verts: Vec<Vec2<i32>>,
    pub name: String,
    pub notes: String,
}

/// The walls of a polygon with vertices `verts`: wall `i` runs from vertex
/// `i` to the next one, the last wall back to the first vertex. Fewer than two
/// vertices give no walls.
pub open spec fn room_walls(verts: Seq<Vec2<i32>>) -> Seq<Wall> {
    if verts.len() > 1 {
        Seq::new(
            verts.len(),
            |i: int|
                Wall {
                    id: i as u32,
                    p1: verts[i],
                    p2: if i == verts.len() - 1 {
                        verts[0]
                    } else {
                        verts[i + 1]
                    },
                },
        )
    } else {
        Seq::empty()
    }
}

impl Room {
    /// The vertices of the room.
    pub open spec fn spec_verts(&self) -> Seq<Vec2<i32>> {
        self.verts@
    }

    /// A room without vertices.
    pub fn new(id: Option<RoomId>) -> (r: Room)
        ensures
            r.id == id,
            r.spec_verts() == Seq::<Vec2<i32>>::empty(),
            r.name@ == "New Room"@,
            r.notes@ == Seq::<char>::empty(),
    {
        Room { id: id, verts: Vec::new(), name: "New Room".to_owned(), notes: String::new() }
    }

    /// Adds a vertex at the end.
    pub fn append(&mut self, vert: Vec2<i32>)
        ensures
            final(self).spec_verts() == old(self).spec_verts().push(vert),
            final(self).id == old(self).id,
            final(self).name == old(self).name,
            final(self).notes == old(self).notes,
    {
        self.verts.push(vert)
    }

    /// The walls of the room.
    pub fn walls(&self) -> (r: Vec<Wall>)
        ensures
            r@ == room_walls(self.spec_verts()),
    {
        let mut walls: Vec<Wall> = Vec::new();
        let n = self.verts.len();
        if n > 1 {
            let mut prev = self.verts[0];
            let mut i: usize = 1;
            while i < n
                invariant
                    1 <= i <= n,
                    n == self.verts@.len(),
                    walls@.len() == i - 1,
                    prev == self.verts@[i - 1],
                    forall|j: int|
                        0 <= j < i - 1 ==> #[trigger] walls@[j] == room_walls(self.verts@)[j],
                decreases n - i,
            {
                let v = self.verts[i];
                walls.push(Wall { id: (i - 1) as WallId, p1: prev, p2: v });
                prev = v;
                i += 1;
            }
            let last_id = walls.len() as WallId;
            walls.push(Wall { id: last_id, p1: prev, p2: self.verts[0] });
            assert(walls@ == room_walls(self.verts@));
        }
        walls
    }
}

/// The walls of a room form a closed polygon: each wall ends where the next
/// one starts, the last one where the first one starts, and the walls are
/// numbered in order.
pub proof fn lemma_room_walls_closed(verts: Seq<Vec2<i32>>)
    requires
        verts.len() > 1,
    ensures
        room_walls(verts).len() == verts.len(),
        forall|i: int|
            0 <= i < verts.len() - 1 ==> #[trigger] room_walls(verts)[i].p2 == room_walls(
                verts,
            )[i + 1].p1,
        room_walls(verts).last().p2 == room_walls(verts)[0].p1,
        forall|i: int| 0 <= i < verts.len() ==> #[trigger] room_walls(verts)[i].p1 == verts[i],
{
}

} // verus!
