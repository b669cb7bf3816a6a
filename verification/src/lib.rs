//! Data model and editing logic of a tabletop dungeon planner: chambers drawn
//! as closed polygons of walls, doors on those walls, objects, the commands that
//! edit a dungeon, the undo history and the line-based save format.

pub mod common;
pub mod ids;
pub mod chamber;
pub mod door;
pub mod object;
pub mod state;
pub mod room;
pub mod view;
pub mod dungeon;
pub mod observers;
pub mod storage;
pub mod canvas;
