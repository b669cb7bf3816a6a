use dungeon_planner::common::Vec2;
use dungeon_planner::observers::HistoryObserver;
use dungeon_planner::state::{State, StateCommand};
use dungeon_planner::view::View;

fn stack(h: &HistoryObserver) -> Vec<String> {
    h.get_stack().iter().map(|c| format!("{:?}", c)).collect()
}

fn record(h: &mut HistoryObserver, cmd: StateCommand) {
    let mut s = State::new();
    h.on_cmd_event(&mut s, cmd);
}

fn name(id: u32, s: &str) -> StateCommand {
    StateCommand::ChangeChamberName(id, s.to_owned())
}

#[test]
fn history_starts_empty_and_saved() {
    let h = HistoryObserver::new(Some("dungeon.dungeon".to_owned()));
    assert!(h.get_stack().is_empty());
    assert!(!h.unsaved_state());
    assert_eq!(h.save_file(), Some("dungeon.dungeon".to_owned()));
    assert_eq!(HistoryObserver::new(None).save_file(), None);
}

#[test]
fn history_records_and_undoes() {
    let mut h = HistoryObserver::new(None);
    record(&mut h, StateCommand::AddChamber);
    record(&mut h, StateCommand::AddVertexToChamber(1, Vec2 { x: 0, y: 0 }));
    assert!(h.unsaved_state());
    assert_eq!(stack(&h).len(), 2);
    h.undo();
    assert_eq!(stack(&h), vec![format!("{:?}", StateCommand::AddChamber)]);
    h.undo();
    h.undo();
    assert!(h.get_stack().is_empty());
    assert!(h.unsaved_state());
}

#[test]
fn history_merges_small_text_edits() {
    let mut h = HistoryObserver::new(None);
    record(&mut h, StateCommand::AddChamber);
    record(&mut h, name(1, "H"));
    record(&mut h, name(1, "Ha"));
    // more than two entries, the last two edit the same name: replace
    record(&mut h, name(1, "Hal"));
    record(&mut h, name(1, "Hall"));
    assert_eq!(
        stack(&h),
        vec![
            format!("{:?}", StateCommand::AddChamber),
            format!("{:?}", name(1, "H")),
            format!("{:?}", name(1, "Hall")),
        ]
    );
}

#[test]
fn history_keeps_large_or_foreign_edits() {
    let mut h = HistoryObserver::new(None);
    record(&mut h, StateCommand::AddChamber);
    record(&mut h, name(1, ""));
    record(&mut h, name(1, "a"));
    // twelve bytes longer than the second to last entry: kept apart
    record(&mut h, name(1, "abcdefghijkl"));
    assert_eq!(stack(&h).len(), 4);
    // eleven bytes: merged
    let mut h2 = HistoryObserver::new(None);
    record(&mut h2, StateCommand::AddChamber);
    record(&mut h2, name(1, ""));
    record(&mut h2, name(1, "a"));
    record(&mut h2, name(1, "abcdefghijk"));
    assert_eq!(stack(&h2).len(), 3);
    // another chamber's name: kept apart
    record(&mut h2, name(2, "b"));
    assert_eq!(stack(&h2).len(), 4);
    // dungeon texts merge without an id
    record(&mut h2, StateCommand::ChangeDungeonNotes("n".to_owned()));
    record(&mut h2, StateCommand::ChangeDungeonNotes("no".to_owned()));
    record(&mut h2, StateCommand::ChangeDungeonNotes("not".to_owned()));
    assert_eq!(stack(&h2).len(), 6);
    assert_eq!(
        stack(&h2)[5],
        format!("{:?}", StateCommand::ChangeDungeonNotes("not".to_owned()))
    );
}

#[test]
fn history_counts_bytes_not_chars() {
    let mut h = HistoryObserver::new(None);
    record(&mut h, StateCommand::AddChamber);
    record(&mut h, name(1, ""));
    record(&mut h, name(1, "x"));
    // six characters of two bytes each: twelve bytes
    record(&mut h, name(1, "ääääää"));
    assert_eq!(stack(&h).len(), 4);
}

#[test]
fn set_history_records_each_command() {
    let mut h = HistoryObserver::new(None);
    h.set_history(vec![
        StateCommand::AddChamber,
        name(1, "H"),
        name(1, "Ha"),
        name(1, "Hal"),
    ]);
    assert_eq!(stack(&h).len(), 3);
    assert!(h.unsaved_state());
    let mut h2 = HistoryObserver::new(None);
    h2.set_history(vec![]);
    assert!(!h2.unsaved_state());
}

#[test]
fn history_file_reset_and_saved_mark() {
    let mut h = HistoryObserver::new(None);
    record(&mut h, StateCommand::AddChamber);
    h.change_file("a.dungeon".to_owned());
    assert_eq!(h.save_file(), Some("a.dungeon".to_owned()));
    assert!(h.unsaved_state());
    h.mark_saved();
    assert!(!h.unsaved_state());
    assert_eq!(stack(&h).len(), 1);
    h.reset();
    assert_eq!(h.save_file(), None);
    assert!(h.get_stack().is_empty());
    assert!(!h.unsaved_state());
}

#[test]
fn view_moves_its_corner() {
    let mut v = View::new();
    assert_eq!(v.world_min(), Vec2 { x: 0, y: 0 });
    v.move_view(Vec2 { x: 5, y: -3 });
    v.move_view(Vec2 { x: -1, y: 10 });
    assert_eq!(v.world_min(), Vec2 { x: 4, y: 7 });
}

#[test]
fn undo_after_a_merged_edit_drops_the_merged_entry() {
    let mut h = HistoryObserver::new(None);
    record(&mut h, StateCommand::AddChamber);
    record(&mut h, name(1, "H"));
    record(&mut h, name(1, "Ha"));
    record(&mut h, name(1, "Hal"));
    h.undo();
    assert_eq!(
        stack(&h),
        vec![format!("{:?}", StateCommand::AddChamber), format!("{:?}", name(1, "H"))]
    );
}
