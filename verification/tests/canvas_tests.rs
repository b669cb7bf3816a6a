use dungeon_planner::canvas::{Canvas, Pointer, NEW_DOOR_WIDTH_BITS};
use dungeon_planner::common::Vec2;
use dungeon_planner::door::Door;
use dungeon_planner::state::edit_mode::EditMode;
use dungeon_planner::state::{State, StateCommand};

fn square_state() -> State {
    let mut s = State::new();
    let none: Vec<bool> = vec![];
    StateCommand::AddChamber.execute(&mut s, &none);
    for (x, y) in [(0, 0), (0, 10), (10, 10), (10, 0)] {
        let flags = vec![false; s.dungeon.walls().len()];
        StateCommand::AddVertexToChamber(1, Vec2 { x, y }).execute(&mut s, &flags);
    }
    s
}

fn pointer() -> Pointer {
    Pointer {
        world_pos: Vec2 { x: 9, y: 8 },
        snapped: Vec2 { x: 10, y: 10 },
        door_at: None,
        chamber_at: Some(1),
        nearest_wall: Some(2),
        door_pos_bits: (0.25f64).to_bits(),
    }
}

fn shown(cmds: &[StateCommand]) -> Vec<String> {
    cmds.iter().map(|c| format!("{:?}", c)).collect()
}

#[test]
fn new_door_width_is_fifty() {
    assert_eq!(f64::from_bits(NEW_DOOR_WIDTH_BITS), 50.0);
}

#[test]
fn canvas_select_prefers_doors() {
    let mut s = square_state();
    s.mode = EditMode::Select;
    let mut c = Canvas::new();
    let mut p = pointer();
    p.door_at = Some(4);
    assert_eq!(shown(&c.click(&s, &p)), shown(&[StateCommand::SelectDoor(Some(4))]));
    p.door_at = None;
    assert_eq!(shown(&c.click(&s, &p)), shown(&[StateCommand::SelectChamber(Some(1))]));
    p.chamber_at = None;
    assert_eq!(shown(&c.click(&s, &p)), shown(&[StateCommand::SelectChamber(None)]));
}

#[test]
fn canvas_append_needs_a_selected_chamber() {
    let mut s = square_state();
    s.mode = EditMode::AppendChamber;
    let mut c = Canvas::new();
    assert_eq!(
        shown(&c.click(&s, &pointer())),
        shown(&[StateCommand::AddVertexToChamber(1, Vec2 { x: 10, y: 10 })])
    );
    s.active_chamber_id = None;
    assert!(c.click(&s, &pointer()).is_empty());
    s.active_chamber_id = Some(5);
    assert!(c.click(&s, &pointer()).is_empty());
}

#[test]
fn canvas_split_picks_then_splits() {
    let mut s = square_state();
    s.mode = EditMode::SplitEdge;
    let mut c = Canvas::new();
    assert!(c.click(&s, &pointer()).is_empty());
    assert_eq!(c.selected_wall(), Some(2));
    assert_eq!(
        shown(&c.click(&s, &pointer())),
        shown(&[StateCommand::SplitWall(1, 2, Vec2 { x: 10, y: 10 })])
    );
    assert_eq!(c.selected_wall(), None);
    // no selected chamber: nothing is picked
    s.active_chamber_id = None;
    assert!(c.click(&s, &pointer()).is_empty());
    assert_eq!(c.selected_wall(), None);
}

#[test]
fn canvas_add_door_picks_then_places() {
    let mut s = square_state();
    s.mode = EditMode::AddDoor;
    let mut c = Canvas::new();
    assert!(c.click(&s, &pointer()).is_empty());
    assert_eq!(c.selected_wall(), Some(2));
    let door = Door::new(1, None, (50.0f64).to_bits(), 2, (0.25f64).to_bits());
    assert_eq!(shown(&c.click(&s, &pointer())), shown(&[StateCommand::AddDoor(door)]));
    assert_eq!(c.selected_wall(), None);
}

#[test]
fn canvas_remove_vertex_collapses_nearest_corner() {
    let mut s = square_state();
    s.mode = EditMode::RemoveVertex;
    let mut c = Canvas::new();
    assert_eq!(shown(&c.click(&s, &pointer())), shown(&[StateCommand::CollapseWall(1, 2)]));
    let mut p = pointer();
    p.world_pos = Vec2 { x: 1, y: -1 };
    assert_eq!(shown(&c.click(&s, &p)), shown(&[StateCommand::CollapseWall(1, 4)]));
    s.active_chamber_id = None;
    assert!(c.click(&s, &p).is_empty());
}

#[test]
fn canvas_add_object_places_at_snapped_cursor() {
    let mut s = square_state();
    s.mode = EditMode::AddObject;
    let mut c = Canvas::new();
    assert_eq!(
        shown(&c.click(&s, &pointer())),
        shown(&[StateCommand::AddObject(Vec2 { x: 10, y: 10 }, Some(1))])
    );
}

#[test]
fn canvas_drag_moves_view_back_by_the_pointer_step() {
    let mut s = State::new();
    let mut c = Canvas::new();
    c.drag_begin();
    c.drag_update(&mut s.view, Vec2 { x: 3, y: 4 });
    assert_eq!(s.view.world_min(), Vec2 { x: -3, y: -4 });
    c.drag_update(&mut s.view, Vec2 { x: 5, y: 1 });
    assert_eq!(s.view.world_min(), Vec2 { x: -5, y: -1 });
    assert_eq!(c.last_pos(), Some(Vec2 { x: 5, y: 1 }));
    c.set_last_pos(None);
    c.set_selected_wall(Some(3));
    assert_eq!((c.last_pos(), c.selected_wall()), (None, Some(3)));
}
