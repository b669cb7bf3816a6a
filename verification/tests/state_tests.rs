use dungeon_planner::chamber::Chamber;
use dungeon_planner::common::Vec2;
use dungeon_planner::door::Door;
use dungeon_planner::dungeon::Dungeon;
use dungeon_planner::object::{Object, ObjectStyle};
use dungeon_planner::state::edit_mode::EditMode;
use dungeon_planner::state::events::StateEvent;
use dungeon_planner::state::{State, StateCommand};
use dungeon_planner::view::View;

fn kinds(events: &[StateEvent]) -> Vec<String> {
    events.iter().map(|e| format!("{:?}", e)).collect()
}

fn run(state: &mut State, cmd: StateCommand) -> Vec<String> {
    let flags = vec![false; state.dungeon.walls().len()];
    kinds(&cmd.execute(state, &flags))
}

fn square_state() -> State {
    let mut s = State::new();
    run(&mut s, StateCommand::AddChamber);
    for (x, y) in [(0, 0), (0, 10), (10, 10), (10, 0)] {
        run(&mut s, StateCommand::AddVertexToChamber(1, Vec2 { x, y }));
    }
    s
}

#[test]
fn add_chamber_selects_it_and_starts_drawing() {
    let mut s = State::new();
    assert_eq!(
        run(&mut s, StateCommand::AddChamber),
        vec!["ChamberAdded(1)", "ActiveChamberChanged(Some(1))", "EditModeChanged(AppendChamber)"]
    );
    assert_eq!(s.mode, EditMode::AppendChamber);
    assert_eq!(s.active_chamber_id, Some(1));
    run(&mut s, StateCommand::AddChamber);
    assert_eq!(s.dungeon.chambers.len(), 2);
    assert_eq!(s.dungeon.chambers[1].id, 2);
    assert_eq!(s.active_chamber_id, Some(2));
}

#[test]
fn select_commands_clear_other_selections() {
    let mut s = square_state();
    assert_eq!(
        run(&mut s, StateCommand::SelectDoor(Some(3))),
        vec!["ActiveChamberChanged(None)", "ActiveObjectChanged(None)", "ActiveDoorChanged(Some(3))"]
    );
    assert_eq!((s.active_chamber_id, s.active_door_id, s.active_object_id), (None, Some(3), None));
    run(&mut s, StateCommand::SelectObject(Some(2)));
    assert_eq!((s.active_chamber_id, s.active_door_id, s.active_object_id), (None, None, Some(2)));
    assert_eq!(
        run(&mut s, StateCommand::SelectChamber(Some(1))),
        vec!["ActiveDoorChanged(None)", "ActiveObjectChanged(None)", "ActiveChamberChanged(Some(1))"]
    );
    assert_eq!((s.active_chamber_id, s.active_door_id, s.active_object_id), (Some(1), None, None));
    assert_eq!(run(&mut s, StateCommand::ChangeMode(EditMode::AddDoor)), vec!["EditModeChanged(AddDoor)"]);
    assert_eq!(s.mode, EditMode::AddDoor);
}

#[test]
fn chamber_edits() {
    let mut s = square_state();
    assert_eq!(s.dungeon.chambers[0].walls().len(), 4);
    assert_eq!(
        run(&mut s, StateCommand::ChangeChamberName(1, "Hall".to_owned())),
        vec!["ChamberModified(1)"]
    );
    run(&mut s, StateCommand::ChangeChamberNotes(1, "dusty".to_owned()));
    run(&mut s, StateCommand::ChangeChamberHidden(1, true));
    let c = s.dungeon.chamber(1).unwrap();
    assert_eq!((c.name.as_str(), c.notes.as_str(), c.hidden), ("Hall", "dusty", true));
    run(&mut s, StateCommand::SplitWall(1, 2, Vec2 { x: 5, y: 10 }));
    assert_eq!(s.dungeon.chambers[0].walls().len(), 5);
    assert_eq!(s.dungeon.chambers[0].walls()[2].id, 5);
}

#[test]
fn collapse_wall_deletes_doors_on_the_removed_wall() {
    let mut s = square_state();
    let w = 0.5f64.to_bits();
    s.dungeon.add_door(Door::new(1, None, w, 3, w));
    s.dungeon.add_door(Door::new(1, None, w, 2, w));
    s.dungeon.add_door(Door::new(1, None, w, 3, w));
    let events = run(&mut s, StateCommand::CollapseWall(1, 2));
    assert_eq!(events, vec!["DoorDeleted(1)", "DoorDeleted(3)", "ChamberModified(1)"]);
    assert_eq!(s.dungeon.doors.len(), 1);
    assert_eq!(s.dungeon.doors[0].id, 2);
    assert_eq!(s.dungeon.chambers[0].walls().len(), 3);
}

#[test]
fn delete_chamber_deletes_its_doors() {
    let mut s = square_state();
    run(&mut s, StateCommand::AddChamber);
    let w = 1.0f64.to_bits();
    s.dungeon.add_door(Door::new(1, Some(2), w, 1, w));
    s.dungeon.add_door(Door::new(2, Some(1), w, 1, w));
    s.dungeon.add_door(Door::new(1, None, w, 2, w));
    run(&mut s, StateCommand::SelectChamber(Some(1)));
    let events = run(&mut s, StateCommand::DeleteChamber(1));
    assert_eq!(
        events,
        vec!["DoorDeleted(1)", "DoorDeleted(3)", "ChamberDeleted(1)", "ActiveChamberChanged(None)"]
    );
    assert_eq!(s.active_chamber_id, None);
    assert_eq!(s.dungeon.chambers.len(), 1);
    assert_eq!(s.dungeon.chambers[0].id, 2);
    assert_eq!(s.dungeon.doors.len(), 1);
    assert_eq!(s.dungeon.doors[0].id, 2);
    assert_eq!(run(&mut s, StateCommand::DeleteChamber(9)), vec!["ChamberDeleted(9)"]);
}

#[test]
fn add_door_leads_to_the_only_touching_chamber() {
    let mut s = square_state();
    run(&mut s, StateCommand::AddChamber);
    for (x, y) in [(10, 0), (10, 10), (20, 10), (20, 0)] {
        run(&mut s, StateCommand::AddVertexToChamber(2, Vec2 { x, y }));
    }
    let walls = s.dungeon.walls();
    assert_eq!(walls.len(), 8);
    // the door lies on wall 3 of chamber 1 and wall 1 of chamber 2
    let on_walls: Vec<bool> = walls.iter().map(|w| (w.chamber_id, w.id) == (1, 3) || (w.chamber_id, w.id) == (2, 1)).collect();
    let door = Door::new(1, None, 50.0f64.to_bits(), 3, 0.5f64.to_bits());
    let events = kinds(&StateCommand::AddDoor(door).execute(&mut s, &on_walls));
    assert_eq!(events, vec!["ChamberModified(1)", "DoorAdded(1)"]);
    assert_eq!(s.dungeon.doors[0].leads_to, Some(2));

    // touching walls of two other chambers: the target is left open
    let mut s2 = square_state();
    run(&mut s2, StateCommand::AddChamber);
    run(&mut s2, StateCommand::AddChamber);
    for c in [2, 3] {
        for (x, y) in [(10, 0), (10, 10), (20, 10)] {
            run(&mut s2, StateCommand::AddVertexToChamber(c, Vec2 { x, y }));
        }
    }
    let walls = s2.dungeon.walls();
    let on_walls: Vec<bool> = walls.iter().map(|w| w.id == 1).collect();
    let door = Door::new(1, None, 50.0f64.to_bits(), 3, 0.5f64.to_bits());
    StateCommand::AddDoor(door).execute(&mut s2, &on_walls);
    assert_eq!(s2.dungeon.doors[0].leads_to, None);
}

#[test]
fn door_edits_and_deletion() {
    let mut s = square_state();
    let w = 1.0f64.to_bits();
    s.dungeon.add_door(Door::new(1, None, w, 1, w));
    assert_eq!(run(&mut s, StateCommand::ChangeDoorName(1, "Gate".to_owned())), vec!["DoorModified(1)"]);
    run(&mut s, StateCommand::ChangeDoorNotes(1, "locked".to_owned()));
    run(&mut s, StateCommand::ChangeDoorLeadsTo(1, Some(7)));
    run(&mut s, StateCommand::ChangeDoorHidden(1, true));
    let d = s.dungeon.door(1).unwrap();
    assert_eq!((d.name.as_str(), d.notes.as_str(), d.leads_to, d.hidden), ("Gate", "locked", Some(7), true));
    run(&mut s, StateCommand::SelectDoor(Some(1)));
    assert_eq!(run(&mut s, StateCommand::DeleteDoor(1)), vec!["DoorDeleted(1)", "ActiveDoorChanged(None)"]);
    assert!(s.dungeon.doors.is_empty());
    assert_eq!(s.active_door_id, None);
}

#[test]
fn object_commands() {
    let mut s = State::new();
    assert_eq!(run(&mut s, StateCommand::AddObject(Vec2 { x: 50, y: 100 }, None)), vec!["ObjectAdded(1)"]);
    assert_eq!(run(&mut s, StateCommand::AddObject(Vec2 { x: 0, y: 0 }, Some(1))), vec!["ObjectAdded(2)"]);
    run(&mut s, StateCommand::ChangeObjectName(2, "Chest".to_owned()));
    run(&mut s, StateCommand::ChangeObjectNotes(2, "gold".to_owned()));
    run(&mut s, StateCommand::ChangeObjectHidden(2, true));
    assert_eq!(
        run(&mut s, StateCommand::ChangeObjectStyle(2, ObjectStyle::Round)),
        vec!["ObjectModified(2)"]
    );
    let o = s.dungeon.object(2).unwrap();
    assert_eq!((o.name.as_str(), o.notes.as_str(), o.hidden, o.style, o.part_of), ("Chest", "gold", true, ObjectStyle::Round, Some(1)));
    run(&mut s, StateCommand::SelectObject(Some(1)));
    assert_eq!(
        run(&mut s, StateCommand::DeleteObject(1)),
        vec!["ObjectDeleted(1)", "ActiveObjectChanged(None)"]
    );
    assert_eq!(s.dungeon.objects.len(), 1);
    assert_eq!(run(&mut s, StateCommand::AddObject(Vec2 { x: 1, y: 1 }, None)), vec!["ObjectAdded(3)"]);
}

#[test]
fn dungeon_texts() {
    let mut s = State::new();
    assert_eq!(run(&mut s, StateCommand::ChangeDungeonName("Crypt".to_owned())), vec!["DungeonModified"]);
    run(&mut s, StateCommand::ChangeDungeonNotes("cold".to_owned()));
    assert_eq!((s.dungeon.name.as_str(), s.dungeon.notes.as_str()), ("Crypt", "cold"));
}

#[test]
fn dungeon_ids_are_made_unique() {
    let mut d = Dungeon::new();
    assert_eq!(d.add_chamber(Chamber::new()), 1);
    let mut c = Chamber::new();
    c.id = 5;
    assert_eq!(d.add_chamber(c), 5);
    assert_eq!(d.add_chamber(Chamber::new()), 6);
    assert_eq!(d.add_chamber(Chamber::new()), 7);
    let w = 1.0f64.to_bits();
    assert_eq!(d.add_door(Door::new(1, None, w, 1, w)), 1);
    assert_eq!(d.add_door(Door::new(1, None, w, 1, w)), 2);
    assert_eq!(d.add_object(Object::new(Vec2 { x: 0, y: 0 }, None)), 1);
    assert_eq!(d.add_object(Object::new(Vec2 { x: 0, y: 0 }, None)), 2);
    assert_eq!(d.next_chamber_id(), 8);
    assert_eq!(d.next_door_id(), 3);
    assert_eq!(d.next_object_id(), 3);
}

#[test]
fn dungeon_lookups() {
    let mut d = Dungeon::new();
    d.add_chamber(Chamber::new());
    d.add_chamber(Chamber::new());
    let w = 1.0f64.to_bits();
    d.add_door(Door::new(1, Some(2), w, 1, w));
    d.add_door(Door::new(2, None, w, 1, w));
    d.add_door(Door::new(3, None, w, 1, w));
    let ids: Vec<u32> = d.chamber_doors(2).iter().map(|x| x.id).collect();
    assert_eq!(ids, vec![1, 2]);
    assert!(d.chamber(3).is_none());
    d.chamber_mut(2).unwrap().name = "Vault".to_owned();
    assert_eq!(d.chamber(2).unwrap().name, "Vault");
    d.door_mut(3).unwrap().hidden = true;
    assert!(d.door(3).unwrap().hidden);
    d.remove_door(3);
    d.remove_door(3);
    assert_eq!(d.doors.len(), 2);
    assert_eq!(d.chambers().len(), 2);
    let removed = d.remove_chamber(2);
    assert_eq!(removed, vec![2]);
    assert_eq!(d.doors.len(), 1);
    d.add_object(Object::new(Vec2 { x: 3, y: 4 }, Some(1)));
    d.object_mut(1).unwrap().style = ObjectStyle::Stairs;
    assert_eq!(d.object(1).unwrap().style, ObjectStyle::Stairs);
    d.remove_object(1);
    assert!(d.object(1).is_none());
}

#[test]
fn dungeon_walls_chamber_after_chamber() {
    let s = square_state();
    let walls = s.dungeon.walls();
    assert_eq!(walls.len(), 4);
    assert!(walls.iter().all(|w| w.chamber_id == 1));
}

#[test]
fn state_accessors() {
    let mut s = square_state();
    assert_eq!(s.active_chamber().unwrap().id, 1);
    assert!(s.active_door().is_none());
    assert!(s.active_object().is_none());
    s.view.move_view(Vec2 { x: 3, y: -2 });
    assert_eq!(s.view.world_min(), Vec2 { x: 3, y: -2 });
    assert_eq!(View::new().world_min(), Vec2 { x: 0, y: 0 });
}

#[test]
fn executable_commands() {
    let mut s = square_state();
    let none: Vec<bool> = vec![];
    let flags = vec![false; 4];
    assert!(StateCommand::AddChamber.is_executable(&s, &none));
    assert!(StateCommand::ChangeChamberName(1, "x".to_owned()).is_executable(&s, &none));
    assert!(!StateCommand::ChangeChamberName(2, "x".to_owned()).is_executable(&s, &none));
    assert!(StateCommand::SplitWall(1, 4, Vec2 { x: 1, y: 1 }).is_executable(&s, &none));
    assert!(!StateCommand::CollapseWall(1, 9).is_executable(&s, &none));
    let door = || Door::new(1, None, 1, 3, 1);
    assert!(StateCommand::AddDoor(door()).is_executable(&s, &flags));
    assert!(!StateCommand::AddDoor(door()).is_executable(&s, &none));
    assert!(!StateCommand::AddDoor(Door::new(1, None, 1, 7, 1)).is_executable(&s, &flags));
    assert!(StateCommand::DeleteDoor(1).is_executable(&s, &none));
    assert!(!StateCommand::ChangeDoorName(1, "x".to_owned()).is_executable(&s, &none));
    assert!(!StateCommand::ChangeObjectStyle(1, ObjectStyle::Round).is_executable(&s, &none));
    assert!(StateCommand::AddObject(Vec2 { x: 0, y: 0 }, None).is_executable(&s, &none));
    // a wall with the largest id leaves no fresh wall id
    s.dungeon.chambers[0].walls[0].id = u32::MAX;
    assert!(!StateCommand::AddVertexToChamber(1, Vec2 { x: 3, y: 3 }).is_executable(&s, &none));
    assert!(StateCommand::CollapseWall(1, u32::MAX).is_executable(&s, &none));
    assert_eq!(s.dungeon.chambers[0].largest_wall_id(), u32::MAX);
    assert_eq!(s.dungeon.largest_chamber_id(), 1);
    assert_eq!(s.dungeon.largest_door_id(), 0);
}

#[test]
fn doors_stay_on_walls_of_their_chamber() {
    let mut s = square_state();
    let w = 1.0f64.to_bits();
    s.dungeon.add_door(Door::new(1, None, w, 3, w));
    s.dungeon.add_door(Door::new(1, None, w, 1, w));
    run(&mut s, StateCommand::SplitWall(1, 3, Vec2 { x: 10, y: 5 }));
    run(&mut s, StateCommand::AddVertexToChamber(1, Vec2 { x: 5, y: -5 }));
    run(&mut s, StateCommand::CollapseWall(1, 2));
    for d in s.dungeon.doors.iter() {
        let chamber = s.dungeon.chamber(d.part_of).unwrap();
        assert!(chamber.wall(d.on_wall).is_some());
    }
    assert_eq!(s.dungeon.doors.len(), 1);
    assert_eq!(s.dungeon.doors[0].on_wall, 1);
}

#[test]
fn a_second_text_edit_overrides_the_first() {
    let mut twice = square_state();
    run(&mut twice, StateCommand::ChangeChamberNotes(1, "a".to_owned()));
    let events = run(&mut twice, StateCommand::ChangeChamberNotes(1, "ab".to_owned()));
    let mut once = square_state();
    let events_once = run(&mut once, StateCommand::ChangeChamberNotes(1, "ab".to_owned()));
    assert_eq!(events, events_once);
    assert_eq!(twice.dungeon.chamber(1).unwrap().notes, once.dungeon.chamber(1).unwrap().notes);
    assert_eq!(twice.dungeon.chamber(1).unwrap().notes, "ab");
}

#[test]
fn collapse_wall_keeps_doors_of_other_chambers() {
    let mut s = square_state();
    run(&mut s, StateCommand::AddChamber);
    for (x, y) in [(20, 0), (20, 10), (30, 10)] {
        run(&mut s, StateCommand::AddVertexToChamber(2, Vec2 { x, y }));
    }
    let w = 1.0f64.to_bits();
    s.dungeon.add_door(Door::new(2, None, w, 3, w));
    s.dungeon.add_door(Door::new(1, None, w, 3, w));
    let events = run(&mut s, StateCommand::CollapseWall(1, 2));
    assert_eq!(events, vec!["DoorDeleted(2)", "ChamberModified(1)"]);
    assert_eq!(s.dungeon.doors.len(), 1);
    assert_eq!((s.dungeon.doors[0].id, s.dungeon.doors[0].part_of), (1, 2));
}
