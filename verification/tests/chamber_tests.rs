use dungeon_planner::chamber::{Chamber, Wall};
use dungeon_planner::common::Vec2;

#[test]
fn chamber_test_walls_now_verts() {
    let r = Chamber::new();
    let walls = r.walls();
    assert_eq!(walls.len(), 0);
}

#[test]
fn chamber_test_walls_one_verts() {
    let mut r = Chamber::new();
    r.append(Vec2 { x: 1, y: 1 });
    let walls = r.walls();
    assert_eq!(walls.len(), 0);
}

#[test]
fn chamber_test_walls_two_verts() {
    let mut r = Chamber::new();
    r.append(Vec2 { x: 1, y: 1 });
    r.append(Vec2 { x: 2, y: 2 });
    let walls = r.walls();
    assert_eq!(walls.len(), 2);

    assert_eq!(walls[0].p1, Vec2 { x: 1, y: 1 });
    assert_eq!(walls[0].p2, Vec2 { x: 2, y: 2 });

    assert_eq!(walls[1].p1, Vec2 { x: 2, y: 2 });
    assert_eq!(walls[1].p2, Vec2 { x: 1, y: 1 });
}

#[test]
fn chamber_test_walls_three_verts() {
    let mut r = Chamber::new();
    r.append(Vec2 { x: 1, y: 1 });
    r.append(Vec2 { x: 2, y: 2 });
    r.append(Vec2 { x: 3, y: 3 });
    let walls = r.walls();
    assert_eq!(walls.len(), 3);
    assert_eq!(walls[0].p1, Vec2 { x: 1, y: 1 });
    assert_eq!(walls[0].p2, Vec2 { x: 2, y: 2 });

    assert_eq!(walls[1].p1, Vec2 { x: 2, y: 2 });
    assert_eq!(walls[1].p2, Vec2 { x: 3, y: 3 });

    assert_eq!(walls[2].p1, Vec2 { x: 3, y: 3 });
    assert_eq!(walls[2].p2, Vec2 { x: 1, y: 1 });
}

fn square() -> Chamber {
    let mut r = Chamber::new();
    r.append(Vec2 { x: 0, y: 0 });
    r.append(Vec2 { x: 0, y: 10 });
    r.append(Vec2 { x: 10, y: 10 });
    r.append(Vec2 { x: 10, y: 0 });
    r
}

#[test]
fn chamber_wall_ids_are_fresh_and_polygon_closed() {
    let r = square();
    let ids: Vec<u32> = r.walls().iter().map(|w| w.id).collect();
    assert_eq!(ids, vec![1, 2, 3, 4]);
    let walls = r.walls();
    for i in 0..walls.len() {
        let next = &walls[(i + 1) % walls.len()];
        assert_eq!(walls[i].p2, next.p1);
    }
    assert_eq!(walls[2].p1, Vec2 { x: 10, y: 10 });
    assert_eq!(walls[2].p2, Vec2 { x: 10, y: 0 });
    assert_eq!(r.first_vert, Some(Vec2 { x: 0, y: 0 }));
    assert_eq!(r.id, 1);
    assert_eq!(r.name, "New Chamber");
}

#[test]
fn chamber_split_inserts_corner_with_new_id() {
    let mut r = square();
    r.split(2, Vec2 { x: 5, y: 10 });
    let walls = r.walls();
    assert_eq!(walls.len(), 5);
    assert_eq!(walls[1].id, 2);
    assert_eq!(walls[1].p1, Vec2 { x: 0, y: 10 });
    assert_eq!(walls[1].p2, Vec2 { x: 5, y: 10 });
    assert_eq!(walls[2].id, 5);
    assert_eq!(walls[2].p1, Vec2 { x: 5, y: 10 });
    assert_eq!(walls[2].p2, Vec2 { x: 10, y: 10 });
}

#[test]
fn chamber_collapse_removes_following_wall() {
    let mut r = square();
    let removed = r.collapse(2);
    assert_eq!(removed, 3);
    let walls = r.walls();
    assert_eq!(walls.len(), 3);
    assert_eq!(walls[1].id, 2);
    assert_eq!(walls[1].p1, Vec2 { x: 0, y: 10 });
    assert_eq!(walls[1].p2, Vec2 { x: 10, y: 0 });
}

#[test]
fn chamber_collapse_last_wall_wraps_around() {
    let mut r = square();
    let removed = r.collapse(4);
    assert_eq!(removed, 1);
    let walls = r.walls();
    assert_eq!(walls.len(), 3);
    assert_eq!(walls[0].id, 2);
    assert_eq!(walls[2].id, 4);
    assert_eq!(walls[2].p1, Vec2 { x: 10, y: 0 });
    assert_eq!(walls[2].p2, Vec2 { x: 0, y: 10 });
}

#[test]
fn chamber_nearest_corner() {
    let r = square();
    let (w1, w2) = r.nearest_corner(Vec2 { x: 9, y: 8 }).unwrap();
    assert_eq!(w1.p2, Vec2 { x: 10, y: 10 });
    assert_eq!(w2.p1, Vec2 { x: 10, y: 10 });
    assert_eq!(w1.id, 2);
    assert_eq!(w2.id, 3);
    let (w1, w2) = r.nearest_corner(Vec2 { x: 1, y: -1 }).unwrap();
    assert_eq!(w1.id, 4);
    assert_eq!(w2.id, 1);
    assert!(Chamber::new().nearest_corner(Vec2 { x: 0, y: 0 }).is_none());
}

#[test]
fn chamber_wall_lookup() {
    let r = square();
    assert_eq!(r.wall(4).unwrap().p1, Vec2 { x: 10, y: 0 });
    assert!(r.wall(9).is_none());
    assert_eq!(r.next_wall_id(), 5);
}

#[test]
fn wall_split_keeps_id() {
    let w = Wall { id: 7, chamber_id: 2, p1: Vec2 { x: 0, y: 0 }, p2: Vec2 { x: 4, y: 0 } };
    let (a, b) = w.split(Vec2 { x: 1, y: 0 });
    assert_eq!((a.id, a.chamber_id, a.p1, a.p2), (7, 2, Vec2 { x: 0, y: 0 }, Vec2 { x: 1, y: 0 }));
    assert_eq!((b.id, b.chamber_id, b.p1, b.p2), (7, 2, Vec2 { x: 1, y: 0 }, Vec2 { x: 4, y: 0 }));
}

#[test]
fn vec2_arithmetic() {
    let a = Vec2 { x: 3, y: -4 };
    let b = Vec2 { x: 2, y: 5 };
    assert_eq!(a.dot(b), 6 - 20);
    assert_eq!(a.sqr_len(), 25);
    assert_eq!(a.add(b), Vec2 { x: 5, y: 1 });
    assert_eq!(a.sub(b), Vec2 { x: 1, y: -9 });
    let mut c = a;
    c.add_assign(b);
    assert_eq!(c, Vec2 { x: 5, y: 1 });
}
