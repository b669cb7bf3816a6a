# Dungeon Planner

A planner for tabletop dungeons: chambers drawn as closed polygons of walls,
doors on those walls, object markers, notes, an undo history and a line-based
save format. The editing logic is a Verus library whose functions carry
contracts that Verus proves; a small command-line front end drives it.

## Layout

- `src/` — the verified library
  - `chamber.rs`, `room.rs`: polygons of walls; appending, splitting and
    collapsing corners keep wall ids unique and the polygon closed
  - `door.rs`, `object.rs`, `dungeon.rs`: the dungeon and its id bookkeeping
  - `state.rs`, `state/`: the editor state, the commands that change it
    (`StateCommand::execute`, specified by `executed`) and their events;
    `state/replay.rs` gives what a command does to a state's content and
    executes a list of commands, as undo does with the history
  - `observers.rs`: the undo history, which merges runs of small text edits;
    replaying it gives the state that replaying every command gives
  - `storage.rs`: the save format (`Name >> {json}` per line), writing a
    file's text and reading it back as commands, and the save/load round trip
  - `canvas.rs`: what clicks and drags on the map do, given what lies under
    the pointer
  - `view.rs`, `common.rs`, `ids.rs`: camera, integer vectors, id lemmas
- `app/` — the front end: standard input and output, files, the
  floating-point geometry of the map, and the controller that notifies
  subscribers
- `tests/` — tests of the library on concrete values
