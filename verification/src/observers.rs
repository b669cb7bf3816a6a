use vstd::prelude::*;
use vstd::utf8::encode_utf8;

use crate::chamber::Wall;
use crate::door::Door;
use crate::state::events::StateEvent;
use crate::state::commands::can_execute;
use crate::state::replay::{
    can_step_at, is_run, lemma_recorded_replays_fully, lemma_replay_recorded, lemma_run_flags_can_step,
    lemma_run_replays, lemma_run_replays_fully, run_flags, state_view,
};
use crate::state::{State, StateCommand};

verus! {

/// Consecutive edits of one text whose lengths differ by less than this many
/// bytes are merged into one entry of the history.
pub const MAX_EDIT_DISTANCE: usize = 12;

/// The kinds of text edits that the history merges.
#[derive(Clone, Copy, Debug, PartialEq, Eq, Structural)]
pub enum TextEditKind {
    ChamberNotes,
    ChamberName,
    DoorNotes,
    DoorName,
    DungeonName,
    DungeonNotes,
}

/// A command that replaces a text: its kind, the id of the edited chamber or
/// door (none for the dungeon's texts) and the new text.
pub open spec fn text_edit(c: StateCommand) -> Option<(TextEditKind, Option<u32>, Seq<char>)> {
    match c {
        StateCommand::ChangeChamberNotes(id, s) => Some((TextEditKind::ChamberNotes, Some(id), s@)),
        StateCommand::ChangeChamberName(id, s) => Some((TextEditKind::ChamberName, Some(id), s@)),
        StateCommand::ChangeDoorNotes(id, s) => Some((TextEditKind::DoorNotes, Some(id), s@)),
        StateCommand::ChangeDoorName(id, s) => Some((TextEditKind::DoorName, Some(id), s@)),
        StateCommand::ChangeDungeonName(s) => Some((TextEditKind::DungeonName, None, s@)),
        StateCommand::ChangeDungeonNotes(s) => Some((TextEditKind::DungeonNotes, None, s@)),
        _ => None,
    }
}

/// Length in bytes of the UTF-8 encoding of `s`, as `str::len` gives it.
pub open spec fn byte_len(s: Seq<char>) -> usize {
    encode_utf8(s).len() as usize
}

/// Recording `cmd` after `cmds` replaces the last entry instead of adding
/// one: there are more than two entries, the last two edit the same text as
/// `cmd`, and the new text's length is within `MAX_EDIT_DISTANCE` bytes of the
/// second to last one's.
pub open spec fn merges(cmds: Seq<StateCommand>, cmd: StateCommand) -> bool {
    &&& cmds.len() > 2
    &&& text_edit(cmd) matches Some((kind, id, text))
    &&& text_edit(cmds.last()) matches Some((kind1, id1, _))
    &&& text_edit(cmds[cmds.len() - 2]) matches Some((kind2, id2, text2))
    &&& kind1 == kind && kind2 == kind
    &&& id1 == id && id2 == id
    &&& -12 < byte_len(text) - byte_len(text2) < 12
}

/// The history after recording `cmd`.
pub open spec fn recorded(cmds: Seq<StateCommand>, cmd: StateCommand) -> Seq<StateCommand> {
    if merges(cmds, cmd) {
        cmds.update(cmds.len() - 1, cmd)
    } else {
        cmds.push(cmd)
    }
}

/// Undoing right after recording a command takes back the entry that the
/// command added or last replaced: the history is the one before, without
/// its last entry when the command was merged into that entry.
pub proof fn lemma_undo_takes_back(cmds: Seq<StateCommand>, cmd: StateCommand)
    ensures
        recorded(cmds, cmd).len() > 0,
        recorded(cmds, cmd).last() == cmd,
        recorded(cmds, cmd).drop_last() == (if merges(cmds, cmd) {
            cmds.drop_last()
        } else {
            cmds
        }),
{
    if merges(cmds, cmd) {
        assert(cmds.update(cmds.len() - 1, cmd).drop_last() =~= cmds.drop_last());
    } else {
        assert(cmds.push(cmd).drop_last() =~= cmds);
    }
}

/// Recording a command replaces the last entry exactly when there are more
/// than two entries, both of the last two edit the same text as the command
/// (same kind, same chamber, door or the dungeon), and the new text's length
/// in bytes is within 12 of the second to last entry's; otherwise the
/// command is added. Either way the earlier entries stay as they are.
pub proof fn lemma_recorded_replaces_only_same_text(cmds: Seq<StateCommand>, cmd: StateCommand)
    ensures
        ({
            let r = recorded(cmds, cmd);
            let n = cmds.len();
            let replaces = n > 2 && same_text_edit(cmds[n - 1], cmd) && same_text_edit(
                cmds[n - 2],
                cmd,
            ) && (text_edit(cmd) matches Some((_, _, t)) && text_edit(cmds[n - 2]) matches Some(
                (_, _, t2),
            ) && -12 < byte_len(t) - byte_len(t2) < 12);
            &&& replaces ==> r.len() == n && r.take(n - 1) == cmds.take(n - 1)
            &&& !replaces ==> r.len() == n + 1 && r.take(n as int) == cmds
            &&& r.last() == cmd
        }),
{
    let n = cmds.len();
    if merges(cmds, cmd) {
        assert(cmds.update(n - 1, cmd).take(n - 1) =~= cmds.take(n - 1));
    } else {
        assert(cmds.push(cmd).take(n as int) =~= cmds);
    }
}

/// The history after recording each of `cmds` in turn.
pub open spec fn recorded_all(history: Seq<StateCommand>, cmds: Seq<StateCommand>) -> Seq<
    StateCommand,
>
    decreases cmds.len(),
{
    if cmds.len() == 0 {
        history
    } else {
        recorded(recorded_all(history, cmds.drop_last()), cmds.last())
    }
}

/// `b` edits the same text as `a`: both are text edits of one kind and of
/// one chamber, door or the dungeon.
pub open spec fn same_text_edit(a: StateCommand, b: StateCommand) -> bool {
    &&& text_edit(a) matches Some((k1, i1, _))
    &&& text_edit(b) matches Some((k2, i2, _))
    &&& k1 == k2 && i1 == i2
}

/// `keep` picks the entries of `history` out of the commands `cmds`: the
/// entries are the commands at the indices `keep`, in order; the last
/// command is always kept; and every command left out is a text edit that
/// the very next command edits again.
pub open spec fn picks(cmds: Seq<StateCommand>, history: Seq<StateCommand>, keep: Seq<int>) -> bool {
    &&& keep.len() == history.len()
    &&& forall|k: int|
        0 <= k < keep.len() ==> 0 <= #[trigger] keep[k] < cmds.len() && history[k] == cmds[keep[k]]
    &&& forall|k1: int, k2: int|
        0 <= k1 < k2 < keep.len() ==> #[trigger] keep[k1] < #[trigger] keep[k2]
    &&& cmds.len() > 0 ==> keep.len() > 0 && keep.last() == cmds.len() - 1
    &&& forall|j: int|
        0 <= j < cmds.len() && !keep.contains(j) ==> j + 1 < cmds.len() && same_text_edit(
            #[trigger] cmds[j],
            cmds[j + 1],
        )
}

/// The history drops only overridden text edits: recording the commands
/// `cmds` one by one keeps each of them, in order, except a text edit that
/// the next command edits again. Replaying the history therefore differs
/// from replaying every command only by such pairs, and a second edit of a
/// text overrides the first (`lemma_text_edit_overrides`).
pub proof fn lemma_history_drops_only_overridden(cmds: Seq<StateCommand>) -> (keep: Seq<int>)
    ensures
        picks(cmds, recorded_all(Seq::empty(), cmds), keep),
    decreases cmds.len(),
{
    if cmds.len() == 0 {
        Seq::empty()
    } else {
        let prev = cmds.drop_last();
        let k0 = lemma_history_drops_only_overridden(prev);
        let h = recorded_all(Seq::empty(), prev);
        let c = cmds.last();
        let n = cmds.len() - 1;
        assert forall|j: int| 0 <= j < prev.len() implies prev[j] == cmds[j] by {}
        if merges(h, c) {
            let keep = k0.update(k0.len() - 1, n);
            assert(h.last() == cmds[n - 1]);
            assert(keep[keep.len() - 1] == n);
            assert(keep.contains(n));
            assert forall|j: int|
                0 <= j < cmds.len() && !keep.contains(j) implies j + 1 < cmds.len()
                && same_text_edit(#[trigger] cmds[j], cmds[j + 1]) by {
                if j == n - 1 {
                } else {
                    assert(j != n);
                    assert(j < n);
                    if k0.contains(j) {
                        let k = choose|k: int| 0 <= k < k0.len() && k0[k] == j;
                        assert(k != k0.len() - 1);
                        assert(keep[k] == j);
                    }
                    assert(prev[j] == cmds[j]);
                    assert(prev[j + 1] == cmds[j + 1]);
                }
            }
            assert forall|k1: int, k2: int|
                0 <= k1 < k2 < keep.len() implies #[trigger] keep[k1] < #[trigger] keep[k2] by {
                if k2 == keep.len() - 1 {
                    assert(k0[k1] < prev.len());
                } else {
                    assert(k0[k1] < k0[k2]);
                }
            }
            keep
        } else {
            let keep = k0.push(n);
            assert(keep[keep.len() - 1] == n);
            assert(keep.contains(n));
            assert forall|j: int|
                0 <= j < cmds.len() && !keep.contains(j) implies j + 1 < cmds.len()
                && same_text_edit(#[trigger] cmds[j], cmds[j + 1]) by {
                assert(j != n);
                if k0.contains(j) {
                    let k = choose|k: int| 0 <= k < k0.len() && k0[k] == j;
                    assert(keep[k] == j);
                }
                assert(prev[j] == cmds[j]);
                assert(prev[j + 1] == cmds[j + 1]);
            }
            assert forall|k1: int, k2: int|
                0 <= k1 < k2 < keep.len() implies #[trigger] keep[k1] < #[trigger] keep[k2] by {
                if k2 == keep.len() - 1 {
                    assert(k0[k1] < prev.len());
                } else {
                    assert(k0[k1] < k0[k2]);
                }
            }
            keep
        }
    }
}

/// Replaying the history gives what replaying every command gives. When the
/// commands `cmds` are executed one after the other, passing through the
/// states `full`, and the history that recording them leaves,
/// `recorded_all(Seq::empty(), cmds)`, is executed from a state with the
/// same content, passing through the states `replayed`, both end with the
/// same chambers, doors, objects, name, notes, camera, tool and selection.
/// A new door's wall flags are in both runs those that `door_flags` gives
/// for the walls of the dungeon and the door.
pub proof fn lemma_history_replays_alike(
    cmds: Seq<StateCommand>,
    full: Seq<State>,
    full_flags: Seq<Seq<bool>>,
    full_events: Seq<Seq<StateEvent>>,
    replayed: Seq<State>,
    replayed_flags: Seq<Seq<bool>>,
    replayed_events: Seq<Seq<StateEvent>>,
    door_flags: spec_fn(Seq<Wall>, Door) -> Seq<bool>,
)
    requires
        is_run(cmds, full, full_flags, full_events, door_flags),
        is_run(
            recorded_all(Seq::empty(), cmds),
            replayed,
            replayed_flags,
            replayed_events,
            door_flags,
        ),
        state_view(replayed[0]) == state_view(full[0]),
    ensures
        state_view(replayed.last()) == state_view(full.last()),
{
    let v = state_view(full[0]);
    lemma_run_replays(cmds, full, full_flags, full_events, door_flags);
    lemma_run_replays(
        recorded_all(Seq::empty(), cmds),
        replayed,
        replayed_flags,
        replayed_events,
        door_flags,
    );
    lemma_replay_recorded(Seq::empty(), cmds, v, door_flags);
    assert(Seq::<StateCommand>::empty() + cmds =~= cmds);
}

/// Replaying the history never gets stuck: when the commands `cmds` are
/// executed one after the other, passing through the states `full`, and the
/// first `m` entries of the history that recording them leaves have been
/// executed from a state with the same content, passing through the states
/// `replayed`, then the next entry can be executed too, with the wall flags
/// that `door_flags` gives, as in the first run.
pub proof fn lemma_history_replay_goes_on(
    cmds: Seq<StateCommand>,
    full: Seq<State>,
    full_flags: Seq<Seq<bool>>,
    full_events: Seq<Seq<StateEvent>>,
    m: int,
    replayed: Seq<State>,
    replayed_flags: Seq<Seq<bool>>,
    replayed_events: Seq<Seq<StateEvent>>,
    door_flags: spec_fn(Seq<Wall>, Door) -> Seq<bool>,
)
    requires
        is_run(cmds, full, full_flags, full_events, door_flags),
        0 <= m < recorded_all(Seq::empty(), cmds).len(),
        is_run(
            recorded_all(Seq::empty(), cmds).take(m),
            replayed,
            replayed_flags,
            replayed_events,
            door_flags,
        ),
        state_view(replayed[0]) == state_view(full[0]),
    ensures
        can_execute(
            recorded_all(Seq::empty(), cmds)[m],
            replayed.last(),
            run_flags(recorded_all(Seq::empty(), cmds)[m], replayed.last(), door_flags),
        ),
{
    let h = recorded_all(Seq::empty(), cmds);
    let v = state_view(full[0]);
    lemma_run_replays_fully(cmds, full, full_flags, full_events, door_flags);
    lemma_recorded_replays_fully(cmds, v, door_flags);
    assert(can_step_at(h, v, door_flags, m));
    lemma_run_replays(h.take(m), replayed, replayed_flags, replayed_events, door_flags);
    lemma_run_flags_can_step(
        h[m],
        replayed.last(),
        run_flags(h[m], replayed.last(), door_flags),
        door_flags,
    );
}

/// The kind, id and byte length of a text edit.
fn text_edit_of(c: &StateCommand) -> (r: Option<(TextEditKind, Option<u32>, usize)>)
    ensures
        r is None <==> text_edit(*c) is None,
        r matches Some((k, id, n)) ==> text_edit(*c) matches Some((k2, id2, s)) && k == k2 && id
            == id2 && n == byte_len(s),
{
    match c {
        StateCommand::ChangeChamberNotes(id, s) => Some(
            (TextEditKind::ChamberNotes, Some(*id), s.as_str().len()),
        ),
        StateCommand::ChangeChamberName(id, s) => Some(
            (TextEditKind::ChamberName, Some(*id), s.as_str().len()),
        ),
        StateCommand::ChangeDoorNotes(id, s) => Some(
            (TextEditKind::DoorNotes, Some(*id), s.as_str().len()),
        ),
        StateCommand::ChangeDoorName(id, s) => Some(
            (TextEditKind::DoorName, Some(*id), s.as_str().len()),
        ),
        StateCommand::ChangeDungeonName(s) => Some((TextEditKind::DungeonName, None, s.as_str().len())),
        StateCommand::ChangeDungeonNotes(s) => Some(
            (TextEditKind::DungeonNotes, None, s.as_str().len()),
        ),
        _ => None,
    }
}

/// The undo history: every command applied so far, with runs of small text
/// edits merged, the file the dungeon is saved to, and whether there are
/// changes since the last save.
pub struct HistoryObserver {
    save_file: Option<String>,
    cmds: Vec<StateCommand>,
    unsaved_state: bool,
}

impl HistoryObserver {
    /// The recorded commands.
    pub closed spec fn spec_cmds(&self) -> Seq<StateCommand> {
        self.cmds@
    }

    /// The file the dungeon is saved to.
    pub closed spec fn spec_save_file(&self) -> Option<String> {
        self.save_file
    }

    /// Whether there are changes since the last save.
    pub closed spec fn spec_unsaved(&self) -> bool {
        self.unsaved_state
    }

    /// An empty history for a dungeon saved to `save_file`, if given.
    pub fn new(save_file: Option<String>) -> (r: HistoryObserver)
        ensures
            r.spec_save_file() == save_file,
            r.spec_cmds() == Seq::<StateCommand>::empty(),
            !r.spec_unsaved(),
    {
        HistoryObserver { save_file: save_file, cmds: Vec::new(), unsaved_state: false }
    }

    /// Sets the file the dungeon is saved to.
    pub fn change_file(&mut self, new_file: String)
        ensures
            final(self).spec_save_file() == Some(new_file),
            final(self).spec_cmds() == old(self).spec_cmds(),
            final(self).spec_unsaved() == old(self).spec_unsaved(),
    {
        self.save_file = Some(new_file);
    }

    /// Forgets the file, the commands and the unsaved changes.
    pub fn reset(&mut self)
        ensures
            final(self).spec_save_file() is None,
            final(self).spec_cmds() == Seq::<StateCommand>::empty(),
            !final(self).spec_unsaved(),
    {
        self.save_file = None;
        self.unsaved_state = false;
        self.cmds = Vec::new();
    }

    /// Drops the last recorded command, if any.
    pub fn undo(&mut self)
        ensures
            final(self).spec_cmds() == (if old(self).spec_cmds().len() == 0 {
                old(self).spec_cmds()
            } else {
                old(self).spec_cmds().drop_last()
            }),
            final(self).spec_save_file() == old(self).spec_save_file(),
            final(self).spec_unsaved() == old(self).spec_unsaved(),
    {
        self.cmds.pop();
    }

    /// The recorded commands, oldest first.
    pub fn get_stack(&self) -> (r: Vec<StateCommand>)
        ensures
            r@ == self.spec_cmds(),
    {
        let mut r: Vec<StateCommand> = Vec::new();
        let mut i: usize = 0;
        while i < self.cmds.len()
            invariant
                i <= self.cmds@.len(),
                r@ == self.cmds@.take(i as int),
            decreases self.cmds@.len() - i,
        {
            r.push(self.cmds[i].clone());
            assert(self.cmds@.take(i as int + 1) == self.cmds@.take(i as int).push(
                self.cmds@[i as int],
            ));
            i += 1;
        }
        assert(self.cmds@.take(i as int) == self.cmds@);
        r
    }

    /// The file the dungeon is saved to.
    pub fn save_file(&self) -> (r: Option<String>)
        ensures
            r == self.spec_save_file(),
    {
        match &self.save_file {
            Some(f) => Some(f.clone()),
            None => None,
        }
    }

    /// Whether there are changes since the last save.
    pub fn unsaved_state(&self) -> (r: bool)
        ensures
            r == self.spec_unsaved(),
    {
        self.unsaved_state
    }

    /// Records each of `cmds` in turn, as if they were applied.
    pub fn set_history(&mut self, cmds: Vec<StateCommand>)
        ensures
            final(self).spec_cmds() == recorded_all(old(self).spec_cmds(), cmds@),
            final(self).spec_save_file() == old(self).spec_save_file(),
            final(self).spec_unsaved() == (old(self).spec_unsaved() || cmds@.len() > 0),
    {
        let mut i: usize = 0;
        while i < cmds.len()
            invariant
                i <= cmds@.len(),
                self.cmds@ == recorded_all(old(self).cmds@, cmds@.take(i as int)),
                self.save_file == old(self).save_file,
                self.unsaved_state == (old(self).unsaved_state || i > 0),
            decreases cmds@.len() - i,
        {
            assert(cmds@.take(i as int + 1).drop_last() == cmds@.take(i as int));
            let mut scratch = State::new();
            self.on_cmd_event(&mut scratch, cmds[i].clone());
            i += 1;
        }
        assert(cmds@.take(i as int) == cmds@);
    }

    /// Marks the dungeon as saved, once the commands have been written to the
    /// save file.
    pub fn mark_saved(&mut self)
        requires
            old(self).spec_save_file() is Some,
        ensures
            !final(self).spec_unsaved(),
            final(self).spec_save_file() == old(self).spec_save_file(),
            final(self).spec_cmds() == old(self).spec_cmds(),
    {
        self.unsaved_state = false;
    }

    /// Records an applied command. A run of edits of one text is kept as
    /// few entries: when the last two entries edit the same text as `cmd` and
    /// the new text's length is close to the second to last one's, `cmd`
    /// replaces the last entry.
    pub fn on_cmd_event(&mut self, _state: &mut State, cmd: StateCommand)
        ensures
            final(self).spec_cmds() == recorded(old(self).spec_cmds(), cmd),
            final(self).spec_save_file() == old(self).spec_save_file(),
            final(self).spec_unsaved(),
            final(self).spec_cmds().last() == cmd,
            final(self).spec_cmds().len() == old(self).spec_cmds().len() ==> {
                let n = old(self).spec_cmds().len();
                &&& same_text_edit(old(self).spec_cmds()[n - 1], cmd)
                &&& same_text_edit(old(self).spec_cmds()[n - 2], cmd)
                &&& final(self).spec_cmds().take(n - 1) == old(self).spec_cmds().take(n - 1)
            },
            final(self).spec_cmds().len() != old(self).spec_cmds().len()
                ==> final(self).spec_cmds() == old(self).spec_cmds().push(cmd),
    {
        proof {
            lemma_recorded_replaces_only_same_text(self.cmds@, cmd);
        }
        let n = self.cmds.len();
        let mut merge = false;
        if n > 2 {
            match (text_edit_of(&cmd), text_edit_of(&self.cmds[n - 1]), text_edit_of(&self.cmds[n - 2])) {
                (Some((kind, id, len)), Some((kind1, id1, _)), Some((kind2, id2, len2))) => {
                    let close = if len >= len2 {
                        len - len2 < MAX_EDIT_DISTANCE
                    } else {
                        len2 - len < MAX_EDIT_DISTANCE
                    };
                    merge = kind1 == kind && kind2 == kind && id1 == id && id2 == id && close;
                },
                _ => {},
            }
        }
        if merge {
            self.cmds.set(n - 1, cmd);
        } else {
            self.cmds.push(cmd);
        }
        self.unsaved_state = true;
    }
}

} // verus!
