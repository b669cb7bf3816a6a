use vstd::prelude::*;

verus! {

/// The tool that a click on the canvas applies.
#[derive(Clone, Copy, Debug, PartialEq, Eq, Structural)]
pub enum EditMode {
    Select,
    AppendChamber,
    SplitEdge,
    AddDoor,
    AddObject,
    RemoveVertex,
}

/// The name under which a mode is written and read back.
pub open spec fn mode_name(m: EditMode) -> Seq<char> {
    match m {
        EditMode::Select => "Select"@,
        EditMode::AppendChamber => "AppendChamber"@,
        EditMode::SplitEdge => "SplitEdge"@,
        EditMode::AddDoor => "AddDoor"@,
        EditMode::AddObject => "AddObject"@,
        EditMode::RemoveVertex => "RemoveVertex"@,
    }
}

/// `true` for the names of the modes.
pub open spec fn is_mode_name(s: Seq<char>) -> bool {
    ||| s == "Select"@
    ||| s == "AppendChamber"@
    ||| s == "SplitEdge"@
    ||| s == "AddDoor"@
    ||| s == "AddObject"@
    ||| s == "RemoveVertex"@
}

/// The mode named `s`, for a name of a mode.
pub open spec fn mode_from_name(s: Seq<char>) -> EditMode {
    if s == "Select"@ {
        EditMode::Select
    } else if s == "AppendChamber"@ {
        EditMode::AppendChamber
    } else if s == "SplitEdge"@ {
        EditMode::SplitEdge
    } else if s == "AddDoor"@ {
        EditMode::AddDoor
    } else if s == "AddObject"@ {
        EditMode::AddObject
    } else {
        EditMode::RemoveVertex
    }
}

impl EditMode {
    /// The mode's name.
    pub fn to_str(&self) -> (r: String)
        ensures
            r@ == mode_name(*self),
    {
        match self {
            EditMode::Select => "Select".to_owned(),
            EditMode::AppendChamber => "AppendChamber".to_owned(),
            EditMode::SplitEdge => "SplitEdge".to_owned(),
            EditMode::AddDoor => "AddDoor".to_owned(),
            EditMode::AddObject => "AddObject".to_owned(),
            EditMode::RemoveVertex => "RemoveVertex".to_owned(),
        }
    }

    /// The mode with name `s`.
    pub fn from_str(s: &str) -> (r: EditMode)
        requires
            is_mode_name(s@),
        ensures
            mode_name(r) == s@,
            r == mode_from_name(s@),
    {
        let s = s.to_owned();
        if s == "Select".to_owned() {
            EditMode::Select
        } else if s == "AppendChamber".to_owned() {
            EditMode::AppendChamber
        } else if s == "SplitEdge".to_owned() {
            EditMode::SplitEdge
        } else if s == "AddDoor".to_owned() {
            EditMode::AddDoor
        } else if s == "AddObject".to_owned() {
            EditMode::AddObject
        } else {
            EditMode::RemoveVertex
        }
    }
}

/// Reading back the name of a mode gives the mode.
pub proof fn lemma_mode_name_roundtrip(m: EditMode, n: EditMode)
    ensures
        is_mode_name(mode_name(m)),
        mode_name(m) == mode_name(n) ==> m == n,
        mode_from_name(mode_name(m)) == m,
{
    reveal_strlit("Select");
    reveal_strlit("AppendChamber");
    reveal_strlit("SplitEdge");
    reveal_strlit("AddDoor");
    reveal_strlit("AddObject");
    reveal_strlit("RemoveVertex");
    assert("Select"@.len() == 6);
    assert("AppendChamber"@.len() == 13);
    assert("SplitEdge"@.len() == 9);
    assert("AddDoor"@.len() == 7);
    assert("AddObject"@.len() == 9);
    assert("RemoveVertex"@.len() == 12);
    assert("SplitEdge"@[0] != "AddObject"@[0]);
}

} // verus!
