use dungeon_planner::common::Vec2;
use dungeon_planner::door::Door;
use dungeon_planner::dungeon::Dungeon;
use dungeon_planner::observers::HistoryObserver;
use dungeon_planner::state::replay::replay;
use dungeon_planner::state::{State, StateCommand};

fn no_flags(dungeon: &Dungeon, _door: &Door) -> Vec<bool> {
    vec![false; dungeon.walls().len()]
}

fn record_all(cmds: &[StateCommand]) -> HistoryObserver {
    let mut h = HistoryObserver::new(None);
    for c in cmds {
        let mut scratch = State::new();
        h.on_cmd_event(&mut scratch, c.clone());
    }
    h
}

fn content(s: &State) -> String {
    let chambers: Vec<String> = s
        .dungeon
        .chambers()
        .iter()
        .map(|c| format!("{} {} {} {} {:?} {:?}", c.id, c.name, c.notes, c.hidden, c.walls, c.first_vert))
        .collect();
    format!(
        "{:?} {:?} {:?} {:?} {:?} {:?} {:?} {:?} {:?} {:?}",
        chambers,
        s.dungeon.doors,
        s.dungeon.objects,
        s.dungeon.name,
        s.dungeon.notes,
        s.mode,
        s.active_chamber_id,
        s.active_door_id,
        s.active_object_id,
        s.view.world_min(),
    )
}

fn editing_session() -> Vec<StateCommand> {
    vec![
        StateCommand::AddChamber,
        StateCommand::AddVertexToChamber(1, Vec2 { x: 0, y: 0 }),
        StateCommand::AddVertexToChamber(1, Vec2 { x: 10, y: 0 }),
        StateCommand::AddVertexToChamber(1, Vec2 { x: 10, y: 10 }),
        StateCommand::ChangeChamberName(1, "H".to_owned()),
        StateCommand::ChangeChamberName(1, "Ha".to_owned()),
        StateCommand::ChangeChamberName(1, "Hal".to_owned()),
        StateCommand::ChangeChamberName(1, "Hall".to_owned()),
        StateCommand::AddDoor(Door::new(1, None, 0x3ff0000000000000, 1, 0x3fe0000000000000)),
        StateCommand::ChangeDoorNotes(1, "o".to_owned()),
        StateCommand::ChangeDoorNotes(1, "ok".to_owned()),
        StateCommand::ChangeDoorNotes(1, "oka".to_owned()),
        StateCommand::ChangeDungeonName("Crypt".to_owned()),
        StateCommand::AddObject(Vec2 { x: 3, y: 4 }, Some(1)),
    ]
}

#[test]
fn replaying_the_history_gives_the_same_state_as_every_command() {
    let cmds = editing_session();
    let h = record_all(&cmds);
    let history = h.get_stack();
    assert!(history.len() < cmds.len());

    let mut full = State::new();
    assert_eq!(replay(&mut full, &cmds, no_flags), cmds.len());
    let mut again = State::new();
    assert_eq!(replay(&mut again, &history, no_flags), history.len());

    assert_eq!(content(&full), content(&again));
    assert_eq!(full.dungeon.chambers()[0].name, "Hall");
    assert_eq!(full.dungeon.door(1).unwrap().notes, "oka");
    assert_eq!(full.dungeon.name, "Crypt");
    assert_eq!(full.dungeon.object(1).unwrap().pos, Vec2 { x: 3, y: 4 });
}

#[test]
fn replay_stops_before_a_command_that_does_not_fit() {
    let cmds = vec![
        StateCommand::AddChamber,
        StateCommand::ChangeChamberName(1, "Hall".to_owned()),
        StateCommand::ChangeChamberName(7, "Nowhere".to_owned()),
        StateCommand::ChangeDungeonName("never".to_owned()),
    ];
    let mut s = State::new();
    assert_eq!(replay(&mut s, &cmds, no_flags), 2);
    assert_eq!(s.dungeon.chambers()[0].name, "Hall");
    assert_eq!(s.dungeon.name, "");
}

#[test]
fn replay_keeps_the_camera_of_the_state_it_starts_from() {
    let mut s = State::new();
    s.view.move_view(Vec2 { x: 5, y: -3 });
    let cmds = vec![StateCommand::AddChamber];
    assert_eq!(replay(&mut s, &cmds, no_flags), 1);
    assert_eq!(s.view.world_min(), Vec2 { x: 5, y: -3 });
    assert_eq!(s.dungeon.chambers().len(), 1);
}

#[test]
fn replay_asks_for_wall_flags_of_new_doors_only() {
    let cmds = vec![
        StateCommand::AddChamber,
        StateCommand::AddVertexToChamber(1, Vec2 { x: 0, y: 0 }),
        StateCommand::AddVertexToChamber(1, Vec2 { x: 10, y: 0 }),
        StateCommand::AddChamber,
        StateCommand::AddVertexToChamber(2, Vec2 { x: 0, y: 0 }),
        StateCommand::AddVertexToChamber(2, Vec2 { x: 10, y: 0 }),
        StateCommand::AddDoor(Door::new(1, None, 0, 1, 0)),
    ];
    let on_second_chamber = |dungeon: &Dungeon, _door: &Door| -> Vec<bool> {
        dungeon.walls().iter().map(|w| w.chamber_id == 2).collect()
    };
    let mut s = State::new();
    assert_eq!(replay(&mut s, &cmds, on_second_chamber), cmds.len());
    assert_eq!(s.dungeon.door(1).unwrap().leads_to, Some(2));
}
