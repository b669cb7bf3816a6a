use dungeon_planner::common::Vec2;
use dungeon_planner::room::Room;

#[test]
fn room_test_walls_now_verts() {
    let r = Room::new(None);
    let walls = r.walls();
    assert_eq!(walls.len(), 0);
}

#[test]
fn room_test_walls_one_verts() {
    let mut r = Room::new(None);
    r.verts = vec![Vec2 { x: 1, y: 1 }];
    let walls = r.walls();
    assert_eq!(walls.len(), 0);
}

#[test]
fn room_test_walls_two_verts() {
    let mut r = Room::new(None);
    r.verts = vec![Vec2 { x: 1, y: 1 }, Vec2 { x: 2, y: 2 }];
    let walls = r.walls();
    assert_eq!(walls.len(), 2);

    assert_eq!(walls[0].id, 0);
    assert_eq!(walls[0].p1, Vec2 { x: 1, y: 1 });
    assert_eq!(walls[0].p2, Vec2 { x: 2, y: 2 });

    assert_eq!(walls[1].id, 1);
    assert_eq!(walls[1].p1, Vec2 { x: 2, y: 2 });
    assert_eq!(walls[1].p2, Vec2 { x: 1, y: 1 });
}

#[test]
fn room_test_walls_three_verts() {
    let mut r = Room::new(None);
    r.verts = vec![Vec2 { x: 1, y: 1 }, Vec2 { x: 2, y: 2 }, Vec2 { x: 3, y: 3 }];
    let walls = r.walls();
    assert_eq!(walls.len(), 3);
    assert_eq!(walls[0].id, 0);
    assert_eq!(walls[0].p1, Vec2 { x: 1, y: 1 });
    assert_eq!(walls[0].p2, Vec2 { x: 2, y: 2 });

    assert_eq!(walls[1].id, 1);
    assert_eq!(walls[1].p1, Vec2 { x: 2, y: 2 });
    assert_eq!(walls[1].p2, Vec2 { x: 3, y: 3 });

    assert_eq!(walls[2].id, 2);
    assert_eq!(walls[2].p1, Vec2 { x: 3, y: 3 });
    assert_eq!(walls[2].p2, Vec2 { x: 1, y: 1 });
}

#[test]
fn room_append_adds_vertex() {
    let mut r = Room::new(Some(4));
    assert_eq!(r.name, "New Room");
    r.append(Vec2 { x: 0, y: 0 });
    r.append(Vec2 { x: 5, y: 0 });
    assert_eq!(r.verts, vec![Vec2 { x: 0, y: 0 }, Vec2 { x: 5, y: 0 }]);
    assert_eq!(r.id, Some(4));
    assert_eq!(r.walls().len(), 2);
}
