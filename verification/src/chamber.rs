use vstd::prelude::*;

use crate::common::{fits_i32, Vec2};

verus! {

pub type ChamberId = u32;

pub type WallId = u32;

/// One wall of a chamber: an id, unique within its chamber, and two end points.
#[derive(Clone, Copy, Debug)]
pub struct Wall {
    pub id: WallId,
    pub chamber_id: ChamberId,
    pub p1: Vec2<i32>,
    pub p2: Vec2<i32>,
}

/// A vertex that is about to be placed, either on an existing wall or after
/// the last wall of a chamber.
pub struct NextVert {
    pub in_wall_id: Option<WallId>,
    pub pos: Vec2<i32>,
}

/// A chamber of a dungeon: a closed polygon of walls with a name and notes.
pub struct Chamber {
    pub id: ChamberId,
    pub name: String,
    pub notes: String,
    pub hidden: bool,
    pub walls: Vec<Wall>,
    pub first_vert: Option<Vec2<i32>>,
}

/// The largest wall id in `walls`, 0 for no walls.
pub open spec fn max_wall_id(walls: Seq<Wall>) -> nat
    decreases walls.len(),
{
    if walls.len() == 0 {
        0
    } else {
        let m = max_wall_id(walls.drop_last());
        if walls.last().id > m {
            walls.last().id as nat
        } else {
            m
        }
    }
}

/// Index of the first wall with id `id`, or -1 when there is none.
pub open spec fn wall_index(walls: Seq<Wall>, id: WallId) -> int
    decreases walls.len(),
{
    if walls.len() == 0 {
        -1
    } else if walls[0].id == id {
        0
    } else {
        let r = wall_index(walls.drop_first(), id);
        if r < 0 {
            -1
        } else {
            r + 1
        }
    }
}

/// `true` when some wall of `walls` has id `id`.
pub open spec fn has_wall(walls: Seq<Wall>, id: WallId) -> bool {
    exists|i: int| 0 <= i < walls.len() && walls[i].id == id
}

/// No two walls share an id.
pub open spec fn unique_wall_ids(walls: Seq<Wall>) -> bool {
    forall|i: int, j: int|
        0 <= i < walls.len() && 0 <= j < walls.len() && i != j ==> walls[i].id != walls[j].id
}

/// Each wall ends where the next one starts, and the last one ends where the
/// first one starts.
pub open spec fn closed_polygon(walls: Seq<Wall>) -> bool {
    &&& forall|i: int| 0 <= i < walls.len() - 1 ==> #[trigger] walls[i].p2 == walls[i + 1].p1
    &&& walls.len() > 0 ==> walls.last().p2 == walls[0].p1
}

/// The two halves of `w` when it is split at `vert`.
pub open spec fn split_wall(w: Wall, vert: Vec2<i32>) -> (Wall, Wall) {
    (
        Wall { id: w.id, chamber_id: w.chamber_id, p1: w.p1, p2: vert },
        Wall { id: w.id, chamber_id: w.chamber_id, p1: vert, p2: w.p2 },
    )
}

/// Squared length of the integer vector from `pos` to `p`.
pub open spec fn sqr_dist(p: Vec2<i32>, pos: Vec2<i32>) -> int {
    (p.x - pos.x) * (p.x - pos.x) + (p.y - pos.y) * (p.y - pos.y)
}

/// Every corner is close enough to `pos` that its squared distance is
/// computed in `i32` without overflow.
pub open spec fn corners_in_range(walls: Seq<Wall>, pos: Vec2<i32>) -> bool {
    forall|i: int|
        #![trigger walls[i]]
        0 <= i < walls.len() ==> {
            &&& fits_i32(walls[i].p2.x - pos.x)
            &&& fits_i32(walls[i].p2.y - pos.y)
            &&& fits_i32((walls[i].p2.x - pos.x) * (walls[i].p2.x - pos.x))
            &&& fits_i32((walls[i].p2.y - pos.y) * (walls[i].p2.y - pos.y))
            &&& fits_i32(sqr_dist(walls[i].p2, pos))
        }
}

/// Index of the first wall whose end point is nearest to `pos`.
pub open spec fn nearest_corner_index(walls: Seq<Wall>, pos: Vec2<i32>) -> int
    decreases walls.len(),
{
    if walls.len() <= 1 {
        0
    } else {
        let i = nearest_corner_index(walls.drop_last(), pos);
        if sqr_dist(walls.last().p2, pos) < sqr_dist(walls[i].p2, pos) {
            walls.len() - 1
        } else {
            i
        }
    }
}

/// The corner picked by `nearest_corner_index` is one of least Euclidean
/// distance to `pos`: no wall ends closer to `pos` than the picked one, and
/// every wall before it ends strictly farther away (the first nearest corner
/// is picked).
pub proof fn lemma_nearest_corner_is_nearest(walls: Seq<Wall>, pos: Vec2<i32>)
    requires
        walls.len() > 0,
    ensures
        0 <= nearest_corner_index(walls, pos) < walls.len(),
        forall|k: int|
            #![trigger walls[k]]
            0 <= k < walls.len() ==> {
                let b = walls[nearest_corner_index(walls, pos)].p2;
                let q = walls[k].p2;
                (b.x - pos.x) * (b.x - pos.x) + (b.y - pos.y) * (b.y - pos.y) <= (q.x - pos.x) * (
                q.x - pos.x) + (q.y - pos.y) * (q.y - pos.y)
            },
        forall|k: int|
            #![trigger walls[k]]
            0 <= k < nearest_corner_index(walls, pos) ==> {
                let b = walls[nearest_corner_index(walls, pos)].p2;
                let q = walls[k].p2;
                (b.x - pos.x) * (b.x - pos.x) + (b.y - pos.y) * (b.y - pos.y) < (q.x - pos.x) * (
                q.x - pos.x) + (q.y - pos.y) * (q.y - pos.y)
            },
    decreases walls.len(),
{
    let r = nearest_corner_index(walls, pos);
    if walls.len() > 1 {
        let d = walls.drop_last();
        let n = walls.len() - 1;
        lemma_nearest_corner_is_nearest(d, pos);
        let i = nearest_corner_index(d, pos);
        assert(d[i] == walls[i]);
        assert forall|k: int| 0 <= k < walls.len() implies sqr_dist(walls[r].p2, pos) <= sqr_dist(
            #[trigger] walls[k].p2,
            pos,
        ) by {
            if k < n {
                assert(d[k] == walls[k]);
            }
        }
        assert forall|k: int| 0 <= k < r implies sqr_dist(walls[r].p2, pos) < sqr_dist(
            #[trigger] walls[k].p2,
            pos,
        ) by {
            if k < n {
                assert(d[k] == walls[k]);
            }
        }
    }
}

/// The walls after appending `vert` to a chamber with walls `walls`, first
/// vertex `first_vert` and id `chamber_id`.
pub open spec fn appended_walls(
    walls: Seq<Wall>,
    first_vert: Option<Vec2<i32>>,
    chamber_id: ChamberId,
    vert: Vec2<i32>,
) -> Seq<Wall> {
    if walls.len() == 0 {
        match first_vert {
            None => walls,
            Some(f) => seq![
                Wall { id: 1, chamber_id, p1: f, p2: vert },
                Wall { id: 2, chamber_id, p1: vert, p2: f },
            ],
        }
    } else {
        let (w1, w2) = split_wall(walls.last(), vert);
        walls.drop_last().push(w1).push(Wall { id: (max_wall_id(walls) + 1) as u32, ..w2 })
    }
}

/// Appending a corner to a chamber with walls continues from its last
/// corner: the walls before the last one stay as they are and in place, the
/// last wall now ends at `vert`, and a new wall with an id larger than all
/// others runs from `vert` to where the last wall ended.
pub proof fn lemma_append_continues_from_last_corner(
    walls: Seq<Wall>,
    first_vert: Option<Vec2<i32>>,
    chamber_id: ChamberId,
    vert: Vec2<i32>,
)
    requires
        walls.len() > 0,
        max_wall_id(walls) < u32::MAX,
    ensures
        ({
            let r = appended_walls(walls, first_vert, chamber_id, vert);
            let n = walls.len() as int;
            &&& r.len() == n + 1
            &&& r.take(n - 1) == walls.take(n - 1)
            &&& r[n - 1].id == walls[n - 1].id
            &&& r[n - 1].chamber_id == walls[n - 1].chamber_id
            &&& r[n - 1].p1 == walls[n - 1].p1
            &&& r[n - 1].p2 == vert
            &&& r[n].chamber_id == walls[n - 1].chamber_id
            &&& r[n].p1 == vert
            &&& r[n].p2 == walls[n - 1].p2
            &&& forall|k: int| 0 <= k < n ==> walls[k].id < #[trigger] r[n].id
        }),
{
    let r = appended_walls(walls, first_vert, chamber_id, vert);
    let n = walls.len() as int;
    lemma_max_bounds(walls);
    assert(r.take(n - 1) =~= walls.take(n - 1));
}

/// Appending the second vertex of a chamber closes a polygon of two walls:
/// wall 1 from the first vertex to `vert` and wall 2 back; the first vertex
/// is only remembered.
pub proof fn lemma_append_first_walls(
    first_vert: Option<Vec2<i32>>,
    chamber_id: ChamberId,
    vert: Vec2<i32>,
)
    ensures
        first_vert matches Some(f) ==> appended_walls(Seq::empty(), first_vert, chamber_id, vert)
            == seq![
            Wall { id: 1, chamber_id, p1: f, p2: vert },
            Wall { id: 2, chamber_id, p1: vert, p2: f },
        ],
        first_vert is None ==> appended_walls(Seq::empty(), first_vert, chamber_id, vert)
            == Seq::<Wall>::empty(),
{
}

/// The walls after splitting the first wall with id `wall_id` at `pos`; the
/// second half gets a fresh id.
pub open spec fn split_walls(walls: Seq<Wall>, wall_id: WallId, pos: Vec2<i32>) -> Seq<Wall> {
    let idx = wall_index(walls, wall_id);
    let (w1, w2) = split_wall(walls[idx], pos);
    walls.take(idx).push(w1).push(Wall { id: (max_wall_id(walls) + 1) as u32, ..w2 }) + walls.skip(
        idx + 1,
    )
}

/// Splitting the first wall with id `wall_id`, found at index `i`, cuts it
/// at `pos` in place: the walls before it and after it stay as they are, the
/// wall keeps its id and now ends at `pos`, and right after it a new wall,
/// with an id larger than all others, runs from `pos` to where the wall ended.
pub proof fn lemma_split_cuts_the_wall(walls: Seq<Wall>, wall_id: WallId, pos: Vec2<i32>, i: int)
    requires
        0 <= i < walls.len(),
        walls[i].id == wall_id,
        forall|j: int| 0 <= j < i ==> walls[j].id != wall_id,
        max_wall_id(walls) < u32::MAX,
    ensures
        ({
            let r = split_walls(walls, wall_id, pos);
            &&& r.len() == walls.len() + 1
            &&& r.take(i) == walls.take(i)
            &&& r[i] == Wall { p2: pos, ..walls[i] }
            &&& r[i + 1] == Wall { id: r[i + 1].id, p1: pos, ..walls[i] }
            &&& forall|k: int| 0 <= k < walls.len() ==> #[trigger] walls[k].id < r[i + 1].id
            &&& r.skip(i + 2) == walls.skip(i + 1)
        }),
{
    lemma_wall_index_first(walls, wall_id, i);
    lemma_max_bounds(walls);
    let r = split_walls(walls, wall_id, pos);
    assert(r.take(i) =~= walls.take(i));
    assert(r.skip(i + 2) =~= walls.skip(i + 1));
}

/// Collapsing the corner at the end of the first wall with id `wall_id`,
/// found at index `i`, extends that wall to the end of the wall after it
/// (the first wall after the last) and removes that next wall; its id is the
/// one reported as removed.
pub proof fn lemma_collapse_joins_two_walls(walls: Seq<Wall>, wall_id: WallId, i: int)
    requires
        0 <= i < walls.len(),
        walls[i].id == wall_id,
        forall|j: int| 0 <= j < i ==> walls[j].id != wall_id,
    ensures
        ({
            let nx = if i == walls.len() - 1 {
                0
            } else {
                i + 1
            };
            &&& collapsed_walls(walls, wall_id) == walls.update(
                i,
                Wall { p2: walls[nx].p2, ..walls[i] },
            ).remove(nx)
            &&& collapsed_wall_id(walls, wall_id) == walls[nx].id
        }),
{
    lemma_wall_index_first(walls, wall_id, i);
}

/// Index of the wall that follows the wall at `idx`, wrapping around.
pub open spec fn next_index(len: int, idx: int) -> int {
    if idx == len - 1 {
        0
    } else {
        idx + 1
    }
}

/// The walls after removing the corner at the end of the first wall with id
/// `wall_id`: that wall is extended to the end of its successor, which is
/// removed.
pub open spec fn collapsed_walls(walls: Seq<Wall>, wall_id: WallId) -> Seq<Wall> {
    let idx = wall_index(walls, wall_id);
    let next = next_index(walls.len() as int, idx);
    walls.update(idx, Wall { p2: walls[next].p2, ..walls[idx] }).remove(next)
}

/// The id of the wall removed by collapsing the first wall with id `wall_id`.
pub open spec fn collapsed_wall_id(walls: Seq<Wall>, wall_id: WallId) -> WallId {
    walls[next_index(walls.len() as int, wall_index(walls, wall_id))].id
}

/// `post` is `pre` after appending `vert`.
pub open spec fn append_post(pre: Chamber, post: Chamber, vert: Vec2<i32>) -> bool {
    &&& post.walls@ == appended_walls(pre.walls@, pre.first_vert, pre.id, vert)
    &&& post.first_vert == (if pre.walls@.len() == 0 && pre.first_vert is None {
        Some(vert)
    } else {
        pre.first_vert
    })
    &&& post.id == pre.id
    &&& post.name == pre.name
    &&& post.notes == pre.notes
    &&& post.hidden == pre.hidden
}

/// `post` is `pre` after splitting the first wall with id `wall_id` at `pos`.
pub open spec fn split_post(pre: Chamber, post: Chamber, wall_id: WallId, pos: Vec2<i32>) -> bool {
    &&& post.walls@ == split_walls(pre.walls@, wall_id, pos)
    &&& post.first_vert == pre.first_vert
    &&& post.id == pre.id
    &&& post.name == pre.name
    &&& post.notes == pre.notes
    &&& post.hidden == pre.hidden
}

/// `post` is `pre` after collapsing the corner at the end of the first wall
/// with id `wall_id`.
pub open spec fn collapse_post(pre: Chamber, post: Chamber, wall_id: WallId) -> bool {
    &&& post.walls@ == collapsed_walls(pre.walls@, wall_id)
    &&& post.first_vert == pre.first_vert
    &&& post.id == pre.id
    &&& post.name == pre.name
    &&& post.notes == pre.notes
    &&& post.hidden == pre.hidden
}

impl Wall {
    /// Splits the wall at `vert` into two walls that keep its id.
    pub fn split(&self, vert: Vec2<i32>) -> (r: (Wall, Wall))
        ensures
            r == split_wall(*self, vert),
    {
        (
            Wall { id: self.id, chamber_id: self.chamber_id, p1: self.p1, p2: vert },
            Wall { id: self.id, chamber_id: self.chamber_id, p1: vert, p2: self.p2 },
        )
    }
}

/// The mathematical content of a chamber, with its texts as character
/// sequences and its walls as a sequence.
pub struct ChamberView {
    pub id: ChamberId,
    pub name: Seq<char>,
    pub notes: Seq<char>,
    pub hidden: bool,
    pub walls: Seq<Wall>,
    pub first_vert: Option<Vec2<i32>>,
}

impl View for Chamber {
    type V = ChamberView;

    open spec fn view(&self) -> ChamberView {
        ChamberView {
            id: self.id,
            name: self.name@,
            notes: self.notes@,
            hidden: self.hidden,
            walls: self.walls@,
            first_vert: self.first_vert,
        }
    }
}

impl Chamber {
    /// The walls of the chamber, in drawing order.
    pub open spec fn spec_walls(&self) -> Seq<Wall> {
        self.walls@
    }

    /// Wall ids are unique and the walls form a closed polygon.
    pub open spec fn wf(&self) -> bool {
        &&& unique_wall_ids(self.spec_walls())
        &&& closed_polygon(self.spec_walls())
    }

    /// A fresh id can be generated for a new wall.
    pub open spec fn can_grow(&self) -> bool {
        max_wall_id(self.spec_walls()) < u32::MAX
    }

    /// A new chamber without walls and without a first vertex.
    pub fn new() -> (r: Chamber)
        ensures
            r.id == 1,
            r.name@ == "New Chamber"@,
            r.notes@ == Seq::<char>::empty(),
            !r.hidden,
            r.spec_walls() == Seq::<Wall>::empty(),
            r.first_vert is None,
            r.wf(),
    {
        Chamber {
            id: 1,
            name: "New Chamber".to_owned(),
            notes: String::new(),
            hidden: false,
            walls: Vec::new(),
            first_vert: None,
        }
    }

    /// The largest wall id, 0 when there is no wall.
    pub fn largest_wall_id(&self) -> (r: WallId)
        ensures
            r == max_wall_id(self.spec_walls()),
    {
        let mut m: u32 = 0;
        let mut i: usize = 0;
        while i < self.walls.len()
            invariant
                i <= self.walls@.len(),
                m == max_wall_id(self.walls@.take(i as int)),
            decreases self.walls@.len() - i,
        {
            assert(self.walls@.take(i as int + 1).drop_last() == self.walls@.take(i as int));
            if self.walls[i].id > m {
                m = self.walls[i].id;
            }
            i += 1;
        }
        assert(self.walls@.take(i as int) == self.walls@);
        m
    }

    /// An id larger than every wall id of the chamber.
    pub fn next_wall_id(&self) -> (r: WallId)
        requires
            self.can_grow(),
        ensures
            r == max_wall_id(self.spec_walls()) + 1,
    {
        self.largest_wall_id() + 1
    }

    /// Adds a vertex to the chamber. The first vertex is only remembered; the
    /// second one closes a polygon of two walls; every further one splits the
    /// last wall, so the polygon stays closed.
    pub fn append(&mut self, vert: Vec2<i32>)
        requires
            old(self).can_grow(),
        ensures
            append_post(*old(self), *final(self), vert),
            old(self).wf() ==> final(self).wf(),
            ({
                let n = old(self).walls@.len() as int;
                let w = final(self).walls@;
                n > 0 ==> {
                    &&& w.len() == n + 1
                    &&& w.take(n - 1) == old(self).walls@.take(n - 1)
                    &&& w[n - 1].id == old(self).walls@[n - 1].id
                    &&& w[n - 1].p1 == old(self).walls@[n - 1].p1
                    &&& w[n - 1].p2 == vert
                    &&& w[n].p1 == vert
                    &&& w[n].p2 == old(self).walls@[n - 1].p2
                    &&& forall|k: int| 0 <= k < n ==> old(self).walls@[k].id < #[trigger] w[n].id
                }
            }),
    {
        let ghost old_walls = self.walls@;
        proof {
            if old_walls.len() > 0 {
                lemma_append_continues_from_last_corner(old_walls, self.first_vert, self.id, vert);
            }
        }
        if self.walls.len() == 0 && self.first_vert.is_none() {
            self.first_vert = Some(vert);
        } else if self.walls.len() == 0 {
            let f = match self.first_vert {
                Some(f) => f,
                None => vert,
            };
            let id1 = self.next_wall_id();
            let first = Wall { id: id1, chamber_id: self.id, p1: f, p2: vert };
            self.walls.push(first);
            proof {
                lemma_max_push(old_walls, first);
            }
            let id2 = self.next_wall_id();
            self.walls.push(Wall { id: id2, chamber_id: self.id, p1: vert, p2: f });
            assert(self.walls@ == appended_walls(old_walls, self.first_vert, self.id, vert));
        } else {
            let last = self.walls.pop().unwrap();
            let (w1, w2) = last.split(vert);
            self.walls.push(w1);
            proof {
                lemma_max_push(old_walls.drop_last(), w1);
                lemma_max_push(old_walls.drop_last(), last);
                assert(old_walls.drop_last().push(last) == old_walls);
            }
            let new_id = self.next_wall_id();
            self.walls.push(Wall { id: new_id, ..w2 });
            proof {
                if unique_wall_ids(old_walls) && closed_polygon(old_walls) {
                    lemma_append_keeps_wf(old_walls, vert);
                }
            }
        }
    }

    /// Splits the first wall with id `wall_id` at `pos`, inserting the new
    /// corner into the polygon.
    pub fn split(&mut self, wall_id: WallId, pos: Vec2<i32>)
        requires
            has_wall(old(self).walls@, wall_id),
            old(self).can_grow(),
        ensures
            split_post(*old(self), *final(self), wall_id, pos),
            old(self).wf() ==> final(self).wf(),
            forall|i: int|
                0 <= i < old(self).walls@.len() && #[trigger] old(self).walls@[i].id == wall_id && (
                forall|j: int| 0 <= j < i ==> old(self).walls@[j].id != wall_id) ==> {
                    let w = final(self).walls@;
                    &&& w.len() == old(self).walls@.len() + 1
                    &&& w.take(i) == old(self).walls@.take(i)
                    &&& w[i] == Wall { p2: pos, ..old(self).walls@[i] }
                    &&& w[i + 1] == Wall { id: w[i + 1].id, p1: pos, ..old(self).walls@[i] }
                    &&& forall|k: int|
                        0 <= k < old(self).walls@.len() ==> #[trigger] old(self).walls@[k].id
                            < w[i + 1].id
                    &&& w.skip(i + 2) == old(self).walls@.skip(i + 1)
                },
    {
        let ghost old_walls = self.walls@;
        proof {
            assert forall|i: int|
                0 <= i < old_walls.len() && #[trigger] old_walls[i].id == wall_id && (forall|j: int|
                    0 <= j < i ==> old_walls[j].id != wall_id) implies {
                let r = split_walls(old_walls, wall_id, pos);
                &&& r.len() == old_walls.len() + 1
                &&& r.take(i) == old_walls.take(i)
                &&& r[i] == Wall { p2: pos, ..old_walls[i] }
                &&& r[i + 1] == Wall { id: r[i + 1].id, p1: pos, ..old_walls[i] }
                &&& forall|k: int| 0 <= k < old_walls.len() ==> #[trigger] old_walls[k].id < r[i + 1].id
                &&& r.skip(i + 2) == old_walls.skip(i + 1)
            } by {
                lemma_split_cuts_the_wall(old_walls, wall_id, pos, i);
            }
        }
        let idx = position_of_wall(&self.walls, wall_id).unwrap();
        let (w1, w2) = self.walls[idx].split(pos);
        let new_id = self.next_wall_id();
        let n = self.walls.len();
        assert(idx < n);
        self.walls.set(idx, w1);
        self.walls.insert(idx + 1, Wall { id: new_id, ..w2 });
        proof {
            assert(self.walls@ == split_walls(old_walls, wall_id, pos));
            lemma_split_keeps_wf(old_walls, wall_id, pos);
        }
    }

    /// Removes the corner at the end of the first wall with id `wall_id`,
    /// merging that wall with its successor. Returns the id of the removed
    /// wall.
    pub fn collapse(&mut self, wall_id: WallId) -> (removed: WallId)
        requires
            has_wall(old(self).walls@, wall_id),
        ensures
            collapse_post(*old(self), *final(self), wall_id),
            removed == collapsed_wall_id(old(self).walls@, wall_id),
            old(self).wf() ==> final(self).wf(),
            forall|i: int|
                0 <= i < old(self).walls@.len() && #[trigger] old(self).walls@[i].id == wall_id && (
                forall|j: int| 0 <= j < i ==> old(self).walls@[j].id != wall_id) ==> {
                    let ws = old(self).walls@;
                    let nx = if i == ws.len() - 1 {
                        0
                    } else {
                        i + 1
                    };
                    &&& final(self).walls@ == ws.update(i, Wall { p2: ws[nx].p2, ..ws[i] }).remove(nx)
                    &&& removed == ws[nx].id
                },
    {
        let ghost old_walls = self.walls@;
        proof {
            assert forall|i: int|
                0 <= i < old_walls.len() && #[trigger] old_walls[i].id == wall_id && (forall|j: int|
                    0 <= j < i ==> old_walls[j].id != wall_id) implies {
                let nx = if i == old_walls.len() - 1 {
                    0
                } else {
                    i + 1
                };
                &&& collapsed_walls(old_walls, wall_id) == old_walls.update(
                    i,
                    Wall { p2: old_walls[nx].p2, ..old_walls[i] },
                ).remove(nx)
                &&& collapsed_wall_id(old_walls, wall_id) == old_walls[nx].id
            } by {
                lemma_collapse_joins_two_walls(old_walls, wall_id, i);
            }
        }
        let idx = position_of_wall(&self.walls, wall_id).unwrap();
        let next_idx = if idx == self.walls.len() - 1 {
            0
        } else {
            idx + 1
        };
        let removed_id = self.walls[next_idx].id;
        let n_wall = Wall { p2: self.walls[next_idx].p2, ..self.walls[idx] };
        self.walls.set(idx, n_wall);
        self.walls.remove(next_idx);
        proof {
            lemma_collapse_keeps_wf(old_walls, wall_id);
        }
        removed_id
    }

    /// The corner nearest to `pos`, given as the two walls that meet there:
    /// the first wall ending nearest to `pos` and the wall that follows it.
    /// `None` for a chamber without walls.
    pub fn nearest_corner(&self, pos: Vec2<i32>) -> (r: Option<(Wall, Wall)>)
        requires
            corners_in_range(self.walls@, pos),
        ensures
            r is None <==> self.walls@.len() == 0,
            r matches Some((w1, w2)) ==> {
                let k = nearest_corner_index(self.walls@, pos);
                let p = wall_index(self.walls@, self.walls@[k].id);
                &&& w1 == self.walls@[k]
                &&& w2 == self.walls@[next_index(self.walls@.len() as int, p)]
            },
            self.wf() ==> (r matches Some((w1, w2)) ==> w2.p1 == w1.p2),
            r matches Some((w1, _)) ==> forall|j: int|
                #![trigger self.walls@[j]]
                0 <= j < self.walls@.len() ==> (w1.p2.x - pos.x) * (w1.p2.x - pos.x) + (w1.p2.y
                    - pos.y) * (w1.p2.y - pos.y) <= (self.walls@[j].p2.x - pos.x) * (
                self.walls@[j].p2.x - pos.x) + (self.walls@[j].p2.y - pos.y) * (self.walls@[j].p2.y
                    - pos.y),
    {
        if self.walls.len() == 0 {
            return None;
        }
        let mut best: usize = 0;
        let mut best_d: i32 = self.walls[0].p2.sub(pos).sqr_len();
        let mut i: usize = 1;
        while i < self.walls.len()
            invariant
                1 <= i <= self.walls@.len(),
                corners_in_range(self.walls@, pos),
                best == nearest_corner_index(self.walls@.take(i as int), pos),
                best < i,
                best_d == sqr_dist(self.walls@[best as int].p2, pos),
            decreases self.walls@.len() - i,
        {
            assert(self.walls@.take(i as int + 1).drop_last() == self.walls@.take(i as int));
            let d = self.walls[i].p2.sub(pos).sqr_len();
            if d < best_d {
                best = i;
                best_d = d;
            }
            i += 1;
        }
        assert(self.walls@.take(i as int) == self.walls@);
        proof {
            lemma_nearest_corner_is_nearest(self.walls@, pos);
            let ws = self.walls@;
            let k = best as int;
            if self.wf() {
                assert forall|j: int| 0 <= j < k implies ws[j].id != ws[k].id by {}
                lemma_wall_index_first(ws, ws[k].id, k);
                if k < ws.len() - 1 {
                    assert(ws[k].p2 == ws[k + 1].p1);
                }
            }
        }
        let wall_1 = self.walls[best];
        let p = position_of_wall(&self.walls, wall_1.id).unwrap();
        let wall_2 = if p != self.walls.len() - 1 {
            self.walls[p + 1]
        } else {
            self.walls[0]
        };
        Some((wall_1, wall_2))
    }

    /// The walls of the chamber.
    pub fn walls(&self) -> (r: &Vec<Wall>)
        ensures
            r@ == self.spec_walls(),
    {
        &self.walls
    }

    /// The first wall with id `id`.
    pub fn wall(&self, id: WallId) -> (r: Option<&Wall>)
        ensures
            r is None <==> !has_wall(self.spec_walls(), id),
            r matches Some(w) ==> *w == self.spec_walls()[wall_index(self.spec_walls(), id)],
    {
        match position_of_wall(&self.walls, id) {
            Some(i) => Some(&self.walls[i]),
            None => None,
        }
    }
}

/// Index of the first wall of `walls` with id `id`.
pub fn position_of_wall(walls: &Vec<Wall>, id: WallId) -> (r: Option<usize>)
    ensures
        r is None <==> !has_wall(walls@, id),
        r matches Some(i) ==> i < walls@.len() && i == wall_index(walls@, id) && walls@[i as int].id == id,
{
    let mut i: usize = 0;
    while i < walls.len()
        invariant
            i <= walls@.len(),
            forall|j: int| 0 <= j < i ==> walls@[j].id != id,
        decreases walls@.len() - i,
    {
        if walls[i].id == id {
            proof {
                lemma_wall_index_first(walls@, id, i as int);
            }
            return Some(i);
        }
        i += 1;
    }
    None
}

/// The largest id after pushing `w` is the larger of the old largest id and
/// `w`'s id.
pub proof fn lemma_max_push(walls: Seq<Wall>, w: Wall)
    ensures
        max_wall_id(walls.push(w)) == if w.id > max_wall_id(walls) {
            w.id as nat
        } else {
            max_wall_id(walls)
        },
{
    assert(walls.push(w).drop_last() == walls);
}

/// Every wall id is at most the largest one.
pub proof fn lemma_max_bounds(walls: Seq<Wall>)
    ensures
        forall|i: int| 0 <= i < walls.len() ==> walls[i].id <= max_wall_id(walls),
    decreases walls.len(),
{
    if walls.len() > 0 {
        lemma_max_bounds(walls.drop_last());
        assert forall|i: int| 0 <= i < walls.len() implies walls[i].id <= max_wall_id(walls) by {
            if i < walls.len() - 1 {
                assert(walls.drop_last()[i] == walls[i]);
            }
        }
    }
}

/// Appending keeps ids unique and the polygon closed.
pub proof fn lemma_append_keeps_wf(walls: Seq<Wall>, vert: Vec2<i32>)
    requires
        walls.len() > 0,
        unique_wall_ids(walls),
        closed_polygon(walls),
        max_wall_id(walls) < u32::MAX,
    ensures
        ({
            let (w1, w2) = split_wall(walls.last(), vert);
            let r = walls.drop_last().push(w1).push(
                Wall { id: (max_wall_id(walls) + 1) as u32, ..w2 },
            );
            unique_wall_ids(r) && closed_polygon(r)
        }),
{
    lemma_max_bounds(walls);
    let (w1, w2) = split_wall(walls.last(), vert);
    let r = walls.drop_last().push(w1).push(Wall { id: (max_wall_id(walls) + 1) as u32, ..w2 });
    assert forall|i: int| 0 <= i < r.len() - 1 implies #[trigger] r[i].p2 == r[i + 1].p1 by {
        if i < walls.len() - 2 {
            assert(walls[i].p2 == walls[i + 1].p1);
        }
    }
    assert forall|i: int, j: int|
        0 <= i < r.len() && 0 <= j < r.len() && i != j implies r[i].id != r[j].id by {
        if i < walls.len() && j < walls.len() {
            assert(r[i].id == walls[i].id);
            assert(r[j].id == walls[j].id);
        }
    }
}

/// Splitting a wall keeps ids unique and the polygon closed.
pub proof fn lemma_split_keeps_wf(walls: Seq<Wall>, wall_id: WallId, pos: Vec2<i32>)
    requires
        has_wall(walls, wall_id),
        max_wall_id(walls) < u32::MAX,
    ensures
        0 <= wall_index(walls, wall_id) < walls.len(),
        walls[wall_index(walls, wall_id)].id == wall_id,
        unique_wall_ids(walls) && closed_polygon(walls) ==> unique_wall_ids(
            split_walls(walls, wall_id, pos),
        ) && closed_polygon(split_walls(walls, wall_id, pos)),
{
    lemma_wall_index_found(walls, wall_id);
    lemma_max_bounds(walls);
    let idx = wall_index(walls, wall_id);
    let r = split_walls(walls, wall_id, pos);
    assert(r.len() == walls.len() + 1);
    assert forall|i: int| 0 <= i < r.len() implies #[trigger] r[i] == if i < idx {
        walls[i]
    } else if i == idx {
        split_wall(walls[idx], pos).0
    } else if i == idx + 1 {
        Wall { id: (max_wall_id(walls) + 1) as u32, ..split_wall(walls[idx], pos).1 }
    } else {
        walls[i - 1]
    } by {}
    if unique_wall_ids(walls) && closed_polygon(walls) {
        assert forall|i: int| 0 <= i < r.len() - 1 implies #[trigger] r[i].p2 == r[i + 1].p1 by {
            if i < idx {
                assert(walls[i].p2 == walls[i + 1].p1);
            } else if i == idx + 1 {
                assert(walls[idx].p2 == walls[idx + 1].p1);
            } else if i > idx + 1 {
                assert(walls[i - 1].p2 == walls[i].p1);
            }
        }
        assert forall|i: int, j: int|
            0 <= i < r.len() && 0 <= j < r.len() && i != j implies r[i].id != r[j].id by {
            assert(r[i] == r[i]);
            assert(r[j] == r[j]);
        }
    }
}

/// Collapsing a corner keeps ids unique and the polygon closed.
pub proof fn lemma_collapse_keeps_wf(walls: Seq<Wall>, wall_id: WallId)
    requires
        has_wall(walls, wall_id),
    ensures
        0 <= wall_index(walls, wall_id) < walls.len(),
        walls[wall_index(walls, wall_id)].id == wall_id,
        unique_wall_ids(walls) && closed_polygon(walls) ==> unique_wall_ids(
            collapsed_walls(walls, wall_id),
        ) && closed_polygon(collapsed_walls(walls, wall_id)),
{
    lemma_wall_index_found(walls, wall_id);
    let idx = wall_index(walls, wall_id);
    let n = walls.len() as int;
    let next = next_index(n, idx);
    let u = walls.update(idx, Wall { p2: walls[next].p2, ..walls[idx] });
    let r = collapsed_walls(walls, wall_id);
    if unique_wall_ids(walls) && closed_polygon(walls) {
        assert forall|i: int| 0 <= i < r.len() implies #[trigger] r[i] == if i < next {
            u[i]
        } else {
            u[i + 1]
        } by {}
        assert forall|i: int, j: int|
            0 <= i < r.len() && 0 <= j < r.len() && i != j implies r[i].id != r[j].id by {
            let a = if i < next { i } else { i + 1 };
            let b = if j < next { j } else { j + 1 };
            assert(r[i].id == walls[a].id);
            assert(r[j].id == walls[b].id);
        }
        assert forall|i: int| 0 <= i < r.len() - 1 implies #[trigger] r[i].p2 == r[i + 1].p1 by {
            let a = if i < next { i } else { i + 1 };
            let b = if i + 1 < next { i + 1 } else { i + 2 };
            if a != idx && b != idx + 1 {
                assert(walls[a].p2 == walls[a + 1].p1);
            }
        }
        if r.len() > 0 {
            if idx == n - 1 {
                assert(walls[n - 1].p2 == walls[0].p1);
            } else if next == n - 1 {
            } else {
                assert(walls[n - 1].p2 == walls[0].p1);
            }
        }
    }
}

/// Appending a vertex keeps every wall id.
pub proof fn lemma_append_keeps_ids(
    walls: Seq<Wall>,
    first_vert: Option<Vec2<i32>>,
    chamber_id: ChamberId,
    vert: Vec2<i32>,
    id: WallId,
)
    requires
        has_wall(walls, id),
    ensures
        has_wall(appended_walls(walls, first_vert, chamber_id, vert), id),
{
    let k = choose|k: int| 0 <= k < walls.len() && walls[k].id == id;
    let r = appended_walls(walls, first_vert, chamber_id, vert);
    assert(r[k].id == id);
}

/// Splitting a wall keeps every wall id.
pub proof fn lemma_split_keeps_ids(walls: Seq<Wall>, wall_id: WallId, pos: Vec2<i32>, id: WallId)
    requires
        has_wall(walls, wall_id),
        has_wall(walls, id),
    ensures
        has_wall(split_walls(walls, wall_id, pos), id),
{
    lemma_wall_index_found(walls, wall_id);
    let idx = wall_index(walls, wall_id);
    let k = choose|k: int| 0 <= k < walls.len() && walls[k].id == id;
    let r = split_walls(walls, wall_id, pos);
    if k < idx {
        assert(r[k].id == id);
    } else if k == idx {
        assert(r[idx].id == id);
    } else {
        assert(r[k + 1] == walls[k]);
    }
}

/// Collapsing a corner keeps every wall id but that of the removed wall.
pub proof fn lemma_collapse_keeps_ids(walls: Seq<Wall>, wall_id: WallId, id: WallId)
    requires
        has_wall(walls, wall_id),
        has_wall(walls, id),
        id != collapsed_wall_id(walls, wall_id),
    ensures
        has_wall(collapsed_walls(walls, wall_id), id),
{
    lemma_wall_index_found(walls, wall_id);
    let idx = wall_index(walls, wall_id);
    let next = next_index(walls.len() as int, idx);
    let k = choose|k: int| 0 <= k < walls.len() && walls[k].id == id;
    let r = collapsed_walls(walls, wall_id);
    assert(k != next);
    if k < next {
        assert(r[k].id == id);
    } else {
        assert(r[k - 1].id == id);
    }
}

/// `wall_index` finds a wall whenever one carries the id.
pub proof fn lemma_wall_index_found(walls: Seq<Wall>, id: WallId)
    requires
        has_wall(walls, id),
    ensures
        0 <= wall_index(walls, id) < walls.len(),
        walls[wall_index(walls, id)].id == id,
        forall|j: int| 0 <= j < wall_index(walls, id) ==> walls[j].id != id,
    decreases walls.len(),
{
    if walls[0].id != id {
        let i = choose|i: int| 0 <= i < walls.len() && walls[i].id == id;
        assert(walls.drop_first()[i - 1].id == id);
        lemma_wall_index_found(walls.drop_first(), id);
        let k = wall_index(walls.drop_first(), id);
        assert forall|j: int| 0 <= j < k + 1 implies walls[j].id != id by {
            if j > 0 {
                assert(walls[j] == walls.drop_first()[j - 1]);
            }
        }
    }
}

/// `wall_index` is the first index that carries the id.
pub proof fn lemma_wall_index_first(walls: Seq<Wall>, id: WallId, i: int)
    requires
        0 <= i < walls.len(),
        walls[i].id == id,
        forall|j: int| 0 <= j < i ==> walls[j].id != id,
    ensures
        wall_index(walls, id) == i,
    decreases i,
{
    if i > 0 {
        assert(walls.drop_first()[i - 1].id == id);
        lemma_wall_index_first(walls.drop_first(), id, i - 1);
    }
}

/// Appending a vertex keeps a chamber well formed.
pub proof fn lemma_append_post_wf(pre: Chamber, post: Chamber, vert: Vec2<i32>)
    requires
        append_post(pre, post, vert),
        pre.wf(),
        pre.can_grow(),
    ensures
        post.wf(),
{
    if pre.walls@.len() > 0 {
        lemma_append_keeps_wf(pre.walls@, vert);
    }
}

/// Splitting a wall keeps a chamber well formed.
pub proof fn lemma_split_post_wf(pre: Chamber, post: Chamber, wall_id: WallId, pos: Vec2<i32>)
    requires
        split_post(pre, post, wall_id, pos),
        pre.wf(),
        pre.can_grow(),
        has_wall(pre.walls@, wall_id),
    ensures
        post.wf(),
{
    lemma_split_keeps_wf(pre.walls@, wall_id, pos);
}

/// Collapsing a corner keeps a chamber well formed.
pub proof fn lemma_collapse_post_wf(pre: Chamber, post: Chamber, wall_id: WallId)
    requires
        collapse_post(pre, post, wall_id),
        pre.wf(),
        has_wall(pre.walls@, wall_id),
    ensures
        post.wf(),
{
    lemma_collapse_keeps_wf(pre.walls@, wall_id);
}

} // verus!
