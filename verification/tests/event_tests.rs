use dungeon_planner::object::ObjectStyle;
use dungeon_planner::state::edit_mode::EditMode;
use dungeon_planner::state::events::{EventKind, StateEvent};

#[test]
fn event_eq() {
    assert_eq!(StateEvent::ChamberAdded(10) == StateEvent::ChamberAdded(11), true);
    assert_eq!(StateEvent::ChamberAdded(10) == StateEvent::ChamberModified(10), false);
}

#[test]
fn event_kind_ignores_payload() {
    assert_eq!(StateEvent::ActiveDoorChanged(None).kind(), EventKind::ActiveDoorChanged);
    assert_eq!(
        StateEvent::EditModeChanged(EditMode::AddDoor).kind(),
        StateEvent::EditModeChanged(EditMode::Select).kind()
    );
    assert!(StateEvent::Reset != StateEvent::Reload);
}

#[test]
fn edit_mode_names_roundtrip() {
    let modes = [
        EditMode::Select,
        EditMode::AppendChamber,
        EditMode::SplitEdge,
        EditMode::AddDoor,
        EditMode::AddObject,
        EditMode::RemoveVertex,
    ];
    for m in modes {
        assert_eq!(EditMode::from_str(&m.to_str()), m);
    }
    assert_eq!(EditMode::SplitEdge.to_str(), "SplitEdge");
}

#[test]
fn object_style_names_roundtrip() {
    for s in [ObjectStyle::Blocker, ObjectStyle::Stairs, ObjectStyle::Round] {
        assert_eq!(ObjectStyle::from_str(&s.to_str()), s);
    }
    assert_eq!(ObjectStyle::Round.to_str(), "Round");
    assert_eq!(ObjectStyle::from_str("Stairs"), ObjectStyle::Stairs);
}
