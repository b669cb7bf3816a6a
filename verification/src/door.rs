use vstd::prelude::*;

use crate::chamber::{ChamberId, WallId};

verus! {

pub type DoorId = u32;

/// A door on a wall of a chamber.
///
/// Its width and its position along the wall (0 at the wall's first end
/// point, 1 at its second) are IEEE 754 double precision numbers; the door
/// keeps their bit patterns, which the editing logic carries but never reads.
#[derive(Debug)]
pub struct Door {
    pub id: DoorId,
    pub name: String,
    pub notes: String,
    pub hidden: bool,
    pub part_of: ChamberId,
    pub leads_to: Option<ChamberId>,
    pub width_bits: u64,
    pub on_wall: WallId,
    pub position_bits: u64,
}

/// The mathematical content of a door, with its texts as character sequences.
pub struct DoorView {
    pub id: DoorId,
    pub name: Seq<char>,
    pub notes: Seq<char>,
    pub hidden: bool,
    pub part_of: ChamberId,
    pub leads_to: Option<ChamberId>,
    pub width_bits: u64,
    pub on_wall: WallId,
    pub position_bits: u64,
}

impl View for Door {
    type V = DoorView;

    open spec fn view(&self) -> DoorView {
        DoorView {
            id: self.id,
            name: self.name@,
            notes: self.notes@,
            hidden: self.hidden,
            part_of: self.part_of,
            leads_to: self.leads_to,
            width_bits: self.width_bits,
            on_wall: self.on_wall,
            position_bits: self.position_bits,
        }
    }
}

impl Clone for Door {
    fn clone(&self) -> (r: Self)
        ensures
            r == *self,
    {
        Door {
            id: self.id,
            name: self.name.clone(),
            notes: self.notes.clone(),
            hidden: self.hidden,
            part_of: self.part_of,
            leads_to: self.leads_to,
            width_bits: self.width_bits,
            on_wall: self.on_wall,
            position_bits: self.position_bits,
        }
    }
}

/// The view of a freshly created door.
pub open spec fn new_door_view(
    part_of: ChamberId,
    leads_to: Option<ChamberId>,
    width_bits: u64,
    on_wall: WallId,
    position_bits: u64,
) -> DoorView {
    DoorView {
        id: 1,
        name: Seq::empty(),
        notes: Seq::empty(),
        hidden: false,
        part_of,
        leads_to,
        width_bits,
        on_wall,
        position_bits,
    }
}

impl Door {
    /// A visible door with id 1, empty name and notes.
    pub fn new(
        part_of: ChamberId,
        leads_to: Option<ChamberId>,
        width_bits: u64,
        on_wall: WallId,
        position_bits: u64,
    ) -> (r: Door)
        ensures
            r@ == new_door_view(part_of, leads_to, width_bits, on_wall, position_bits),
    {
        Door {
            id: 1,
            name: String::new(),
            notes: String::new(),
            hidden: false,
            part_of: part_of,
            leads_to: leads_to,
            width_bits: width_bits,
            on_wall: on_wall,
            position_bits: position_bits,
        }
    }
}

} // verus!
