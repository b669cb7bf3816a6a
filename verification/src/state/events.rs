use vstd::prelude::*;

use crate::chamber::ChamberId;
use crate::door::DoorId;
use crate::object::ObjectId;
use crate::state::edit_mode::EditMode;

verus! {

/// What changed in the state; subscribers are told of these.
#[derive(Clone, Copy, Debug)]
pub enum StateEvent {
    ChamberAdded(ChamberId),
    ChamberModified(ChamberId),
    ChamberDeleted(ChamberId),
    ActiveChamberChanged(Option<ChamberId>),
    ActiveDoorChanged(Option<DoorId>),
    ActiveObjectChanged(Option<ObjectId>),
    EditModeChanged(EditMode),
    DoorAdded(DoorId),
    DoorModified(DoorId),
    DoorDeleted(DoorId),
    ObjectAdded(ObjectId),
    ObjectDeleted(ObjectId),
    ObjectModified(ObjectId),
    DungeonModified,
    Reset,
    Reload,
}

/// The variant of an event without its payload. Events are compared and
/// hashed by their kind alone, so a subscription to a kind receives every
/// event of that kind.
#[derive(Clone, Copy, Debug, PartialEq, Eq, Hash, Structural)]
pub enum EventKind {
    ChamberAdded,
    ChamberModified,
    ChamberDeleted,
    ActiveChamberChanged,
    ActiveDoorChanged,
    ActiveObjectChanged,
    EditModeChanged,
    DoorAdded,
    DoorModified,
    DoorDeleted,
    ObjectAdded,
    ObjectDeleted,
    ObjectModified,
    DungeonModified,
    Reset,
    Reload,
}

/// The kind of an event.
pub open spec fn event_kind(e: StateEvent) -> EventKind {
    match e {
        StateEvent::ChamberAdded(_) => EventKind::ChamberAdded,
        StateEvent::ChamberModified(_) => EventKind::ChamberModified,
        StateEvent::ChamberDeleted(_) => EventKind::ChamberDeleted,
        StateEvent::ActiveChamberChanged(_) => EventKind::ActiveChamberChanged,
        StateEvent::ActiveDoorChanged(_) => EventKind::ActiveDoorChanged,
        StateEvent::ActiveObjectChanged(_) => EventKind::ActiveObjectChanged,
        StateEvent::EditModeChanged(_) => EventKind::EditModeChanged,
        StateEvent::DoorAdded(_) => EventKind::DoorAdded,
        StateEvent::DoorModified(_) => EventKind::DoorModified,
        StateEvent::DoorDeleted(_) => EventKind::DoorDeleted,
        StateEvent::ObjectAdded(_) => EventKind::ObjectAdded,
        StateEvent::ObjectDeleted(_) => EventKind::ObjectDeleted,
        StateEvent::ObjectModified(_) => EventKind::ObjectModified,
        StateEvent::DungeonModified => EventKind::DungeonModified,
        StateEvent::Reset => EventKind::Reset,
        StateEvent::Reload => EventKind::Reload,
    }
}

impl StateEvent {
    /// The kind of the event.
    pub fn kind(&self) -> (r: EventKind)
        ensures
            r == event_kind(*self),
    {
        match self {
            StateEvent::ChamberAdded(_) => EventKind::ChamberAdded,
            StateEvent::ChamberModified(_) => EventKind::ChamberModified,
            StateEvent::ChamberDeleted(_) => EventKind::ChamberDeleted,
            StateEvent::ActiveChamberChanged(_) => EventKind::ActiveChamberChanged,
            StateEvent::ActiveDoorChanged(_) => EventKind::ActiveDoorChanged,
            StateEvent::ActiveObjectChanged(_) => EventKind::ActiveObjectChanged,
            StateEvent::EditModeChanged(_) => EventKind::EditModeChanged,
            StateEvent::DoorAdded(_) => EventKind::DoorAdded,
            StateEvent::DoorModified(_) => EventKind::DoorModified,
            StateEvent::DoorDeleted(_) => EventKind::DoorDeleted,
            StateEvent::ObjectAdded(_) => EventKind::ObjectAdded,
            StateEvent::ObjectDeleted(_) => EventKind::ObjectDeleted,
            StateEvent::ObjectModified(_) => EventKind::ObjectModified,
            StateEvent::DungeonModified => EventKind::DungeonModified,
            StateEvent::Reset => EventKind::Reset,
            StateEvent::Reload => EventKind::Reload,
        }
    }
}

impl PartialEq for StateEvent {
    fn eq(&self, other: &Self) -> (r: bool) {
        self.kind() == other.kind()
    }
}

impl vstd::std_specs::cmp::PartialEqSpecImpl for StateEvent {
    open spec fn obeys_eq_spec() -> bool {
        true
    }

    open spec fn eq_spec(&self, other: &StateEvent) -> bool {
        event_kind(*self) == event_kind(*other)
    }
}

impl Eq for StateEvent {

}

} // verus!
