//! The save format: one line per command, the command's name, ` >> ` and its
//! arguments as a JSON object.

use vstd::prelude::*;

use serde_json::Value;
use vstd::std_specs::iter::IteratorSpec;

use crate::common::Vec2;
use crate::door::{new_door_view, Door, DoorView};
use crate::ids::{first_index, lemma_first_index, lemma_first_index_at};
use crate::object::{
    is_style_name, lemma_style_name_roundtrip, style_from_name, style_name, ObjectStyle,
};
use crate::state::commands::CommandView;
use crate::state::edit_mode::{
    is_mode_name, lemma_mode_name_roundtrip, mode_from_name, mode_name, EditMode,
};
use crate::state::StateCommand;

verus! {

/// A JSON number, given by what reading it as an unsigned integer, as a
/// signed integer and as a double (by bit pattern) yields.
#[derive(Clone, Copy, Debug)]
pub struct JsonNumber {
    pub as_u64: Option<u64>,
    pub as_i64: Option<i64>,
    pub f64_bits: Option<u64>,
}

/// A value of a field of a read JSON object. Arrays and objects are only
/// told apart from the other values.
#[derive(Debug)]
pub enum JsonValue {
    Null,
    Bool(bool),
    Number(JsonNumber),
    Str(String),
    Nested,
}

/// The mathematical content of a read JSON value.
pub enum JsonValueView {
    Null,
    Bool(bool),
    Number(JsonNumber),
    Str(Seq<char>),
    Nested,
}

impl View for JsonValue {
    type V = JsonValueView;

    open spec fn view(&self) -> JsonValueView {
        match self {
            JsonValue::Null => JsonValueView::Null,
            JsonValue::Bool(b) => JsonValueView::Bool(*b),
            JsonValue::Number(n) => JsonValueView::Number(*n),
            JsonValue::Str(s) => JsonValueView::Str(s@),
            JsonValue::Nested => JsonValueView::Nested,
        }
    }
}

/// The arguments of a command as read from a save file: a JSON object with
/// its fields, or any other JSON value.
#[derive(Debug)]
pub enum JsonDoc {
    Object(Vec<(String, JsonValue)>),
    NotObject,
}

/// The mathematical content of read arguments.
pub enum JsonDocView {
    Object(Seq<(Seq<char>, JsonValueView)>),
    NotObject,
}

/// The view of one field.
pub open spec fn field_view(f: (String, JsonValue)) -> (Seq<char>, JsonValueView) {
    (f.0@, f.1@)
}

impl View for JsonDoc {
    type V = JsonDocView;

    open spec fn view(&self) -> JsonDocView {
        match self {
            JsonDoc::Object(fs) => JsonDocView::Object(fs@.map_values(|f| field_view(f))),
            JsonDoc::NotObject => JsonDocView::NotObject,
        }
    }
}

/// Holds for a field named `key`.
pub open spec fn field_named(key: Seq<char>) -> spec_fn((Seq<char>, JsonValueView)) -> bool {
    |f: (Seq<char>, JsonValueView)| f.0 == key
}

/// The value of field `key`: that of the first field with this name, null
/// when there is none or the arguments are not an object.
pub open spec fn field_of(d: JsonDocView, key: Seq<char>) -> JsonValueView {
    match d {
        JsonDocView::Object(fs) => {
            let i = first_index(fs, field_named(key));
            if i >= 0 {
                fs[i].1
            } else {
                JsonValueView::Null
            }
        },
        JsonDocView::NotObject => JsonValueView::Null,
    }
}

/// Field `key` read as an unsigned integer.
pub open spec fn u64_field(d: JsonDocView, key: Seq<char>) -> Option<u64> {
    match field_of(d, key) {
        JsonValueView::Number(n) => n.as_u64,
        _ => None,
    }
}

/// Field `key` read as a signed integer.
pub open spec fn i64_field(d: JsonDocView, key: Seq<char>) -> Option<i64> {
    match field_of(d, key) {
        JsonValueView::Number(n) => n.as_i64,
        _ => None,
    }
}

/// Field `key` read as a double, by bit pattern.
pub open spec fn f64_field(d: JsonDocView, key: Seq<char>) -> Option<u64> {
    match field_of(d, key) {
        JsonValueView::Number(n) => n.f64_bits,
        _ => None,
    }
}

/// Field `key` read as a boolean.
pub open spec fn bool_field(d: JsonDocView, key: Seq<char>) -> Option<bool> {
    match field_of(d, key) {
        JsonValueView::Bool(b) => Some(b),
        _ => None,
    }
}

/// Field `key` read as a string.
pub open spec fn str_field(d: JsonDocView, key: Seq<char>) -> Option<Seq<char>> {
    match field_of(d, key) {
        JsonValueView::Str(s) => Some(s),
        _ => None,
    }
}

/// Index of the first field named `key`.
fn field_index(fs: &Vec<(String, JsonValue)>, key: &str) -> (r: Option<usize>)
    ensures
        ({
            let v = fs@.map_values(|f| field_view(f));
            let i = first_index(v, field_named(key@));
            &&& r is None <==> i < 0
            &&& r matches Some(k) ==> k == i && k < fs@.len()
        }),
{
    let ghost v = fs@.map_values(|f| field_view(f));
    let key_s = key.to_owned();
    let mut i: usize = 0;
    while i < fs.len()
        invariant
            i <= fs@.len(),
            v == fs@.map_values(|f| field_view(f)),
            key_s@ == key@,
            forall|j: int| 0 <= j < i ==> !field_named(key@)(v[j]),
        decreases fs@.len() - i,
    {
        if fs[i].0 == key_s {
            proof {
                lemma_first_index_at(v, field_named(key@), i as int);
            }
            return Some(i);
        }
        i += 1;
    }
    proof {
        lemma_first_index(v, field_named(key@));
    }
    None
}

/// The value of field `key`, null when there is none.
fn field<'a>(d: &'a JsonDoc, key: &str) -> (r: Option<&'a JsonValue>)
    ensures
        r matches Some(v) ==> v@ == field_of(d@, key@),
        r is None ==> field_of(d@, key@) == JsonValueView::Null,
{
    match d {
        JsonDoc::Object(fs) => {
            proof {
                lemma_first_index(fs@.map_values(|f| field_view(f)), field_named(key@));
            }
            match field_index(fs, key) {
                Some(i) => Some(&fs[i].1),
                None => None,
            }
        },
        JsonDoc::NotObject => None,
    }
}

/// Field `key` read as an unsigned integer.
pub fn get_u64(d: &JsonDoc, key: &str) -> (r: Option<u64>)
    ensures
        r == u64_field(d@, key@),
{
    match field(d, key) {
        Some(JsonValue::Number(n)) => n.as_u64,
        _ => None,
    }
}

/// Field `key` read as a signed integer.
pub fn get_i64(d: &JsonDoc, key: &str) -> (r: Option<i64>)
    ensures
        r == i64_field(d@, key@),
{
    match field(d, key) {
        Some(JsonValue::Number(n)) => n.as_i64,
        _ => None,
    }
}

/// Field `key` read as a double, by bit pattern.
pub fn get_f64_bits(d: &JsonDoc, key: &str) -> (r: Option<u64>)
    ensures
        r == f64_field(d@, key@),
{
    match field(d, key) {
        Some(JsonValue::Number(n)) => n.f64_bits,
        _ => None,
    }
}

/// Field `key` read as a boolean.
pub fn get_bool(d: &JsonDoc, key: &str) -> (r: Option<bool>)
    ensures
        r == bool_field(d@, key@),
{
    match field(d, key) {
        Some(JsonValue::Bool(b)) => Some(*b),
        _ => None,
    }
}

/// Field `key` read as a string.
pub fn get_str(d: &JsonDoc, key: &str) -> (r: Option<String>)
    ensures
        r matches Some(s) ==> str_field(d@, key@) == Some(s@),
        r is None ==> str_field(d@, key@) is None,
{
    match field(d, key) {
        Some(JsonValue::Str(s)) => Some(s.clone()),
        _ => None,
    }
}

/// The separator between a command's name and its arguments.
pub open spec fn separator() -> Seq<char> {
    seq![' ', '>', '>', ' ']
}

/// The separator occurs in `l` at index `i`.
pub open spec fn separator_at(l: Seq<char>, i: int) -> bool {
    0 <= i && i + 4 <= l.len() && l.subrange(i, i + 4) == separator()
}

/// A line split at the first separator into name and arguments.
pub open spec fn split_line(l: Seq<char>) -> Option<(Seq<char>, Seq<char>)> {
    if exists|i: int| separator_at(l, i) {
        let i = choose|i: int| separator_at(l, i) && forall|j: int| 0 <= j < i ==> !separator_at(l, j);
        Some((l.take(i), l.skip(i + 4)))
    } else {
        None
    }
}

/// There is a first occurrence of the separator whenever there is one.
pub proof fn lemma_first_separator(l: Seq<char>, i: int)
    requires
        separator_at(l, i),
    ensures
        exists|k: int| separator_at(l, k) && forall|j: int| 0 <= j < k ==> !separator_at(l, j),
    decreases i,
{
    if exists|j: int| 0 <= j < i && separator_at(l, j) {
        let j = choose|j: int| 0 <= j < i && separator_at(l, j);
        lemma_first_separator(l, j);
    }
}

/// Splits a line of a save file into the command's name and its arguments,
/// at the first ` >> `.
pub fn split_record(line: &str) -> (r: Option<(String, String)>)
    ensures
        r is None <==> split_line(line@) is None,
        r matches Some((name, data)) ==> split_line(line@) == Some((name@, data@)),
{
    let n = line.unicode_len();
    let mut i: usize = 0;
    while n >= 4 && i <= n - 4
        invariant
            n == line@.len(),
            n >= 4 ==> i <= n - 3,
            forall|j: int| 0 <= j < i ==> !separator_at(line@, j),
        decreases n - i,
    {
        if line.get_char(i) == ' ' && line.get_char(i + 1) == '>' && line.get_char(i + 2) == '>'
            && line.get_char(i + 3) == ' ' {
            assert(separator_at(line@, i as int)) by {
                assert(line@.subrange(i as int, i + 4) =~= separator());
            }
            proof {
                lemma_first_separator(line@, i as int);
            }
            let name = line.substring_char(0, i).to_owned();
            let data = line.substring_char(i + 4, n).to_owned();
            assert(line@.subrange(0, i as int) =~= line@.take(i as int));
            assert(line@.subrange(i + 4, n as int) =~= line@.skip(i + 4));
            return Some((name, data));
        }
        assert(!separator_at(line@, i as int)) by {
            if separator_at(line@, i as int) {
                assert(line@.subrange(i as int, i + 4)[0] == line@[i as int]);
                assert(line@.subrange(i as int, i + 4)[1] == line@[i + 1]);
                assert(line@.subrange(i as int, i + 4)[2] == line@[i + 2]);
                assert(line@.subrange(i as int, i + 4)[3] == line@[i + 3]);
            }
        }
        i += 1;
    }
    assert forall|j: int| !separator_at(line@, j) by {
        if 0 <= j && j + 4 <= n {
            assert(j < i || n < 4);
        }
    }
    None
}


/// Why a line of a save file cannot be read back as a command.
#[derive(Clone, Copy, Debug, PartialEq, Eq, Structural)]
pub enum LoadError {
    /// The arguments are not valid JSON.
    InvalidJson,
    /// An argument is missing or has the wrong type.
    BadField,
    /// The name of an edit mode is unknown.
    UnknownMode,
    /// The name of an object style is unknown.
    UnknownStyle,
}

/// The names of the commands that take arguments.
pub open spec fn is_command_name(n: Seq<char>) -> bool {
    ||| n == "SelectChamber"@
    ||| n == "SelectDoor"@
    ||| n == "SelectObject"@
    ||| n == "AddVertexToChamber"@
    ||| n == "ChangeChamberName"@
    ||| n == "ChangeChamberNotes"@
    ||| n == "ChangeChamberHidden"@
    ||| n == "ChangeMode"@
    ||| n == "SplitWall"@
    ||| n == "CollapseWall"@
    ||| n == "DeleteChamber"@
    ||| n == "AddDoor"@
    ||| n == "ChangeDoorName"@
    ||| n == "ChangeDoorNotes"@
    ||| n == "ChangeDoorLeadsTo"@
    ||| n == "ChangeDoorHidden"@
    ||| n == "DeleteDoor"@
    ||| n == "AddObject"@
    ||| n == "ChangeDungeonName"@
    ||| n == "ChangeDungeonNotes"@
    ||| n == "DeleteObject"@
    ||| n == "ChangeObjectName"@
    ||| n == "ChangeObjectNotes"@
    ||| n == "ChangeObjectHidden"@
    ||| n == "ChangeObjectStyle"@
}

/// The command named `n`, for a name of a command that takes arguments,
/// built from the arguments `d`.
pub open spec fn parse_args(n: Seq<char>, d: JsonDocView) -> Result<CommandView, LoadError> {
    if n == "SelectChamber"@ {
        Ok(CommandView::SelectChamber(match u64_field(d, "chamber_id"@) { Some(x) => Some(x as u32), None => None }))
    } else if n == "SelectDoor"@ {
        Ok(CommandView::SelectDoor(match u64_field(d, "door_id"@) { Some(x) => Some(x as u32), None => None }))
    } else if n == "SelectObject"@ {
        Ok(CommandView::SelectObject(match u64_field(d, "object_id"@) { Some(x) => Some(x as u32), None => None }))
    } else if n == "AddVertexToChamber"@ {
        match (u64_field(d, "chamber_id"@), i64_field(d, "x"@), i64_field(d, "y"@)) {
            (Some(c), Some(x), Some(y)) => Ok(CommandView::AddVertexToChamber(c as u32, Vec2 { x: x as i32, y: y as i32 })),
            _ => Err(LoadError::BadField),
        }
    } else if n == "ChangeChamberName"@ {
        match (u64_field(d, "chamber_id"@), str_field(d, "name"@)) {
            (Some(i), Some(s)) => Ok(CommandView::ChangeChamberName(i as u32, s)),
            _ => Err(LoadError::BadField),
        }
    } else if n == "ChangeChamberNotes"@ {
        match (u64_field(d, "chamber_id"@), str_field(d, "notes"@)) {
            (Some(i), Some(s)) => Ok(CommandView::ChangeChamberNotes(i as u32, s)),
            _ => Err(LoadError::BadField),
        }
    } else if n == "ChangeChamberHidden"@ {
        match (u64_field(d, "chamber_id"@), bool_field(d, "hidden"@)) {
            (Some(i), Some(h)) => Ok(CommandView::ChangeChamberHidden(i as u32, h)),
            _ => Err(LoadError::BadField),
        }
    } else if n == "ChangeMode"@ {
        match str_field(d, "mode"@) {
            Some(m) => if is_mode_name(m) {
                Ok(CommandView::ChangeMode(mode_from_name(m)))
            } else {
                Err(LoadError::UnknownMode)
            },
            None => Err(LoadError::BadField),
        }
    } else if n == "SplitWall"@ {
        match (u64_field(d, "chamber_id"@), u64_field(d, "wall_id"@), i64_field(d, "x"@), i64_field(d, "y"@)) {
            (Some(c), Some(w), Some(x), Some(y)) => Ok(
                CommandView::SplitWall(c as u32, w as u32, Vec2 { x: x as i32, y: y as i32 }),
            ),
            _ => Err(LoadError::BadField),
        }
    } else if n == "CollapseWall"@ {
        match (u64_field(d, "chamber_id"@), u64_field(d, "wall_id"@)) {
            (Some(c), Some(w)) => Ok(CommandView::CollapseWall(c as u32, w as u32)),
            _ => Err(LoadError::BadField),
        }
    } else if n == "DeleteChamber"@ {
        match u64_field(d, "chamber_id"@) {
            Some(i) => Ok(CommandView::DeleteChamber(i as u32)),
            None => Err(LoadError::BadField),
        }
    } else if n == "AddDoor"@ {
        match (u64_field(d, "part_of"@), f64_field(d, "width"@), u64_field(d, "on_wall"@), f64_field(d, "position"@)) {
            (Some(p), Some(w), Some(o), Some(pos)) => Ok(
                CommandView::AddDoor(new_door_view(p as u32, None, w, o as u32, pos)),
            ),
            _ => Err(LoadError::BadField),
        }
    } else if n == "ChangeDoorName"@ {
        match (u64_field(d, "door_id"@), str_field(d, "name"@)) {
            (Some(i), Some(s)) => Ok(CommandView::ChangeDoorName(i as u32, s)),
            _ => Err(LoadError::BadField),
        }
    } else if n == "ChangeDoorNotes"@ {
        match (u64_field(d, "door_id"@), str_field(d, "notes"@)) {
            (Some(i), Some(s)) => Ok(CommandView::ChangeDoorNotes(i as u32, s)),
            _ => Err(LoadError::BadField),
        }
    } else if n == "ChangeDoorLeadsTo"@ {
        match u64_field(d, "door_id"@) {
            Some(i) => Ok(CommandView::ChangeDoorLeadsTo(i as u32, match u64_field(d, "chamber_id"@) { Some(x) => Some(x as u32), None => None })),
            None => Err(LoadError::BadField),
        }
    } else if n == "ChangeDoorHidden"@ {
        match (u64_field(d, "door_id"@), bool_field(d, "hidden"@)) {
            (Some(i), Some(h)) => Ok(CommandView::ChangeDoorHidden(i as u32, h)),
            _ => Err(LoadError::BadField),
        }
    } else if n == "DeleteDoor"@ {
        match u64_field(d, "door_id"@) {
            Some(i) => Ok(CommandView::DeleteDoor(i as u32)),
            None => Err(LoadError::BadField),
        }
    } else if n == "AddObject"@ {
        match (i64_field(d, "x"@), i64_field(d, "y"@)) {
            (Some(x), Some(y)) => Ok(
                CommandView::AddObject(Vec2 { x: x as i32, y: y as i32 }, match u64_field(d, "part_of"@) { Some(x) => Some(x as u32), None => None }),
            ),
            _ => Err(LoadError::BadField),
        }
    } else if n == "ChangeDungeonName"@ {
        match str_field(d, "name"@) {
            Some(s) => Ok(CommandView::ChangeDungeonName(s)),
            None => Err(LoadError::BadField),
        }
    } else if n == "ChangeDungeonNotes"@ {
        match str_field(d, "notes"@) {
            Some(s) => Ok(CommandView::ChangeDungeonNotes(s)),
            None => Err(LoadError::BadField),
        }
    } else if n == "DeleteObject"@ {
        match u64_field(d, "object_id"@) {
            Some(i) => Ok(CommandView::DeleteObject(i as u32)),
            None => Err(LoadError::BadField),
        }
    } else if n == "ChangeObjectName"@ {
        match (u64_field(d, "object_id"@), str_field(d, "name"@)) {
            (Some(i), Some(s)) => Ok(CommandView::ChangeObjectName(i as u32, s)),
            _ => Err(LoadError::BadField),
        }
    } else if n == "ChangeObjectNotes"@ {
        match (u64_field(d, "object_id"@), str_field(d, "notes"@)) {
            (Some(i), Some(s)) => Ok(CommandView::ChangeObjectNotes(i as u32, s)),
            _ => Err(LoadError::BadField),
        }
    } else if n == "ChangeObjectHidden"@ {
        match (u64_field(d, "object_id"@), bool_field(d, "hidden"@)) {
            (Some(i), Some(h)) => Ok(CommandView::ChangeObjectHidden(i as u32, h)),
            _ => Err(LoadError::BadField),
        }
    } else {
        match (u64_field(d, "object_id"@), str_field(d, "style"@)) {
            (Some(i), Some(s)) => if is_style_name(s) {
                Ok(CommandView::ChangeObjectStyle(i as u32, style_from_name(s)))
            } else {
                Err(LoadError::UnknownStyle)
            },
            _ => Err(LoadError::BadField),
        }
    }
}

/// The command that a line with name `n` and arguments `data` stands for:
/// `None` for an unknown name, an error when the arguments do not fit; `data`
/// is `None` when the arguments are not valid JSON. `AddChamber` takes no
/// arguments and unknown names are not read further, so their arguments are
/// not looked at.
pub open spec fn parse_record(n: Seq<char>, data: Option<JsonDocView>) -> Result<
    Option<CommandView>,
    LoadError,
> {
    if n == "AddChamber"@ {
        Ok(Some(CommandView::AddChamber))
    } else if !is_command_name(n) {
        Ok(None)
    } else {
        match data {
            None => Err(LoadError::InvalidJson),
            Some(d) => match parse_args(n, d) {
                Ok(c) => Ok(Some(c)),
                Err(e) => Err(e),
            },
        }
    }
}

/// `true` when `n` spells `lit`.
fn is_name(n: &String, lit: &str) -> (r: bool)
    ensures
        r == (n@ == lit@),
{
    *n == lit.to_owned()
}

/// `true` for the names of the commands that take arguments.
fn command_known(n: &String) -> (r: bool)
    ensures
        r == is_command_name(n@),
{
    is_name(n, "SelectChamber")
        || is_name(n, "SelectDoor")
        || is_name(n, "SelectObject")
        || is_name(n, "AddVertexToChamber")
        || is_name(n, "ChangeChamberName")
        || is_name(n, "ChangeChamberNotes")
        || is_name(n, "ChangeChamberHidden")
        || is_name(n, "ChangeMode")
        || is_name(n, "SplitWall")
        || is_name(n, "CollapseWall")
        || is_name(n, "DeleteChamber")
        || is_name(n, "AddDoor")
        || is_name(n, "ChangeDoorName")
        || is_name(n, "ChangeDoorNotes")
        || is_name(n, "ChangeDoorLeadsTo")
        || is_name(n, "ChangeDoorHidden")
        || is_name(n, "DeleteDoor")
        || is_name(n, "AddObject")
        || is_name(n, "ChangeDungeonName")
        || is_name(n, "ChangeDungeonNotes")
        || is_name(n, "DeleteObject")
        || is_name(n, "ChangeObjectName")
        || is_name(n, "ChangeObjectNotes")
        || is_name(n, "ChangeObjectHidden")
        || is_name(n, "ChangeObjectStyle")
}

/// `true` for the names of the edit modes.
fn mode_known(m: &String) -> (r: bool)
    ensures
        r == is_mode_name(m@),
{
    is_name(m, "Select") || is_name(m, "AppendChamber") || is_name(m, "SplitEdge") || is_name(
        m,
        "AddDoor",
    ) || is_name(m, "AddObject") || is_name(m, "RemoveVertex")
}

/// `true` for the names of the object styles.
fn style_known(s: &String) -> (r: bool)
    ensures
        r == is_style_name(s@),
{
    is_name(s, "Blocker") || is_name(s, "Stairs") || is_name(s, "Round")
}

/// Builds the command named `n`, a name of a command that takes arguments,
/// from its arguments `d`.
fn command_from_args(n: &String, d: &JsonDoc) -> (r: Result<StateCommand, LoadError>)
    requires
        is_command_name(n@),
    ensures
        r matches Ok(c) ==> parse_args(n@, d@) == Ok::<CommandView, LoadError>(c@),
        r matches Err(e) ==> parse_args(n@, d@) == Err::<CommandView, LoadError>(e),
{
    if is_name(n, "SelectChamber") {
        Ok(StateCommand::SelectChamber(match get_u64(d, "chamber_id") { Some(x) => Some(x as u32), None => None }))
    } else if is_name(n, "SelectDoor") {
        Ok(StateCommand::SelectDoor(match get_u64(d, "door_id") { Some(x) => Some(x as u32), None => None }))
    } else if is_name(n, "SelectObject") {
        Ok(StateCommand::SelectObject(match get_u64(d, "object_id") { Some(x) => Some(x as u32), None => None }))
    } else if is_name(n, "AddVertexToChamber") {
        match (get_u64(d, "chamber_id"), get_i64(d, "x"), get_i64(d, "y")) {
            (Some(c), Some(x), Some(y)) => Ok(StateCommand::AddVertexToChamber(c as u32, Vec2 { x: x as i32, y: y as i32 })),
            _ => Err(LoadError::BadField),
        }
    } else if is_name(n, "ChangeChamberName") {
        match (get_u64(d, "chamber_id"), get_str(d, "name")) {
            (Some(i), Some(s)) => Ok(StateCommand::ChangeChamberName(i as u32, s)),
            _ => Err(LoadError::BadField),
        }
    } else if is_name(n, "ChangeChamberNotes") {
        match (get_u64(d, "chamber_id"), get_str(d, "notes")) {
            (Some(i), Some(s)) => Ok(StateCommand::ChangeChamberNotes(i as u32, s)),
            _ => Err(LoadError::BadField),
        }
    } else if is_name(n, "ChangeChamberHidden") {
        match (get_u64(d, "chamber_id"), get_bool(d, "hidden")) {
            (Some(i), Some(h)) => Ok(StateCommand::ChangeChamberHidden(i as u32, h)),
            _ => Err(LoadError::BadField),
        }
    } else if is_name(n, "ChangeMode") {
        match get_str(d, "mode") {
            Some(m) => if mode_known(&m) {
                Ok(StateCommand::ChangeMode(EditMode::from_str(m.as_str())))
            } else {
                Err(LoadError::UnknownMode)
            },
            None => Err(LoadError::BadField),
        }
    } else if is_name(n, "SplitWall") {
        match (get_u64(d, "chamber_id"), get_u64(d, "wall_id"), get_i64(d, "x"), get_i64(d, "y")) {
            (Some(c), Some(w), Some(x), Some(y)) => Ok(
                StateCommand::SplitWall(c as u32, w as u32, Vec2 { x: x as i32, y: y as i32 }),
            ),
            _ => Err(LoadError::BadField),
        }
    } else if is_name(n, "CollapseWall") {
        match (get_u64(d, "chamber_id"), get_u64(d, "wall_id")) {
            (Some(c), Some(w)) => Ok(StateCommand::CollapseWall(c as u32, w as u32)),
            _ => Err(LoadError::BadField),
        }
    } else if is_name(n, "DeleteChamber") {
        match get_u64(d, "chamber_id") {
            Some(i) => Ok(StateCommand::DeleteChamber(i as u32)),
            None => Err(LoadError::BadField),
        }
    } else if is_name(n, "AddDoor") {
        match (get_u64(d, "part_of"), get_f64_bits(d, "width"), get_u64(d, "on_wall"), get_f64_bits(d, "position")) {
            (Some(p), Some(w), Some(o), Some(pos)) => Ok(
                StateCommand::AddDoor(Door::new(p as u32, None, w, o as u32, pos)),
            ),
            _ => Err(LoadError::BadField),
        }
    } else if is_name(n, "ChangeDoorName") {
        match (get_u64(d, "door_id"), get_str(d, "name")) {
            (Some(i), Some(s)) => Ok(StateCommand::ChangeDoorName(i as u32, s)),
            _ => Err(LoadError::BadField),
        }
    } else if is_name(n, "ChangeDoorNotes") {
        match (get_u64(d, "door_id"), get_str(d, "notes")) {
            (Some(i), Some(s)) => Ok(StateCommand::ChangeDoorNotes(i as u32, s)),
            _ => Err(LoadError::BadField),
        }
    } else if is_name(n, "ChangeDoorLeadsTo") {
        match get_u64(d, "door_id") {
            Some(i) => Ok(StateCommand::ChangeDoorLeadsTo(i as u32, match get_u64(d, "chamber_id") { Some(x) => Some(x as u32), None => None })),
            None => Err(LoadError::BadField),
        }
    } else if is_name(n, "ChangeDoorHidden") {
        match (get_u64(d, "door_id"), get_bool(d, "hidden")) {
            (Some(i), Some(h)) => Ok(StateCommand::ChangeDoorHidden(i as u32, h)),
            _ => Err(LoadError::BadField),
        }
    } else if is_name(n, "DeleteDoor") {
        match get_u64(d, "door_id") {
            Some(i) => Ok(StateCommand::DeleteDoor(i as u32)),
            None => Err(LoadError::BadField),
        }
    } else if is_name(n, "AddObject") {
        match (get_i64(d, "x"), get_i64(d, "y")) {
            (Some(x), Some(y)) => Ok(
                StateCommand::AddObject(Vec2 { x: x as i32, y: y as i32 }, match get_u64(d, "part_of") { Some(i) => Some(i as u32), None => None }),
            ),
            _ => Err(LoadError::BadField),
        }
    } else if is_name(n, "ChangeDungeonName") {
        match get_str(d, "name") {
            Some(s) => Ok(StateCommand::ChangeDungeonName(s)),
            None => Err(LoadError::BadField),
        }
    } else if is_name(n, "ChangeDungeonNotes") {
        match get_str(d, "notes") {
            Some(s) => Ok(StateCommand::ChangeDungeonNotes(s)),
            None => Err(LoadError::BadField),
        }
    } else if is_name(n, "DeleteObject") {
        match get_u64(d, "object_id") {
            Some(i) => Ok(StateCommand::DeleteObject(i as u32)),
            None => Err(LoadError::BadField),
        }
    } else if is_name(n, "ChangeObjectName") {
        match (get_u64(d, "object_id"), get_str(d, "name")) {
            (Some(i), Some(s)) => Ok(StateCommand::ChangeObjectName(i as u32, s)),
            _ => Err(LoadError::BadField),
        }
    } else if is_name(n, "ChangeObjectNotes") {
        match (get_u64(d, "object_id"), get_str(d, "notes")) {
            (Some(i), Some(s)) => Ok(StateCommand::ChangeObjectNotes(i as u32, s)),
            _ => Err(LoadError::BadField),
        }
    } else if is_name(n, "ChangeObjectHidden") {
        match (get_u64(d, "object_id"), get_bool(d, "hidden")) {
            (Some(i), Some(h)) => Ok(StateCommand::ChangeObjectHidden(i as u32, h)),
            _ => Err(LoadError::BadField),
        }
    } else {
        match (get_u64(d, "object_id"), get_str(d, "style")) {
            (Some(i), Some(s)) => if style_known(&s) {
                Ok(StateCommand::ChangeObjectStyle(i as u32, ObjectStyle::from_str(s.as_str())))
            } else {
                Err(LoadError::UnknownStyle)
            },
            _ => Err(LoadError::BadField),
        }
    }
}

/// Reads back the command of a line of a save file, given its name and its
/// arguments (`None` when the arguments are not valid JSON).
pub fn command_from_record(name: &str, data: &Option<JsonDoc>) -> (r: Result<
    Option<StateCommand>,
    LoadError,
>)
    ensures
        r matches Ok(Some(c)) ==> parse_record(name@, opt_doc_view(*data)) == Ok::<
            Option<CommandView>,
            LoadError,
        >(Some(c@)),
        r matches Ok(None) ==> parse_record(name@, opt_doc_view(*data)) == Ok::<
            Option<CommandView>,
            LoadError,
        >(None),
        r matches Err(e) ==> parse_record(name@, opt_doc_view(*data)) == Err::<
            Option<CommandView>,
            LoadError,
        >(e),
{
    let n = name.to_owned();
    if is_name(&n, "AddChamber") {
        return Ok(Some(StateCommand::AddChamber));
    }
    if !command_known(&n) {
        return Ok(None);
    }
    match data {
        None => Err(LoadError::InvalidJson),
        Some(d) => match command_from_args(&n, d) {
            Ok(c) => Ok(Some(c)),
            Err(e) => Err(e),
        },
    }
}

/// The view of possibly unreadable arguments.
pub open spec fn opt_doc_view(d: Option<JsonDoc>) -> Option<JsonDocView> {
    match d {
        Some(d) => Some(d@),
        None => None,
    }
}

/// What serde_json reads from the text `text`: `None` when it is not valid
/// JSON, else the value, an object with its fields or any other value.
pub uninterp spec fn json_read(text: Seq<char>) -> Option<JsonDocView>;

/// Reads `text` as JSON with `serde_json::from_str` into a
/// `serde_json::Value`, and hands over what the commands read of it: the
/// fields of an object, each number by what `as_u64`, `as_i64` and `as_f64`
/// (by bit pattern) give, and arrays and objects only as nested values. The
/// contract claims only that the result is a function of the text, named
/// `json_read`.
#[verifier::external_body]
fn read_json(text: &str) -> (r: Option<JsonDoc>)
    ensures
        opt_doc_view(r) == json_read(text@),
{
    match serde_json::from_str::<Value>(text) {
        Ok(Value::Object(m)) => Some(JsonDoc::Object(m.into_iter().map(|(k, v)| (k, match v {
            Value::Null => JsonValue::Null,
            Value::Bool(b) => JsonValue::Bool(b),
            Value::Number(n) => JsonValue::Number(JsonNumber { as_u64: n.as_u64(), as_i64: n.as_i64(), f64_bits: n.as_f64().map(|x| x.to_bits()) }),
            Value::String(s) => JsonValue::Str(s),
            _ => JsonValue::Nested,
        })).collect())),
        Ok(_) => Some(JsonDoc::NotObject),
        Err(_) => None,
    }
}

/// The command that a line of a save file stands for: `None` for a line
/// without separator or with an unknown name, an error when the arguments,
/// as serde_json reads them, do not fit the name.
#[verifier::opaque]
pub open spec fn load_line(l: Seq<char>) -> Result<Option<CommandView>, LoadError> {
    match split_line(l) {
        None => Ok(None),
        Some((n, d)) => parse_record(n, json_read(d)),
    }
}

/// Reads a line of a save file back as a command: `None` for a line without
/// separator or with an unknown name. Arguments that are not valid JSON, or
/// that lack a field or give it the wrong type, are reported as an error
/// rather than by stopping the program; a caller that cannot go on without
/// the command stops there.
pub fn line_to_command(line: &str) -> (r: Result<Option<StateCommand>, LoadError>)
    ensures
        r matches Ok(Some(c)) ==> load_line(line@) == Ok::<Option<CommandView>, LoadError>(
            Some(c@),
        ),
        r matches Ok(None) ==> load_line(line@) == Ok::<Option<CommandView>, LoadError>(None),
        r matches Err(e) ==> load_line(line@) == Err::<Option<CommandView>, LoadError>(e),
{
    proof {
        reveal(load_line);
    }
    match split_record(line) {
        None => Ok(None),
        Some((name, data)) => {
            let doc = read_json(data.as_str());
            command_from_record(name.as_str(), &doc)
        },
    }
}

/// A JSON value written to a save file.
#[derive(Debug)]
pub enum JsonOut {
    Null,
    /// A non-negative integer.
    UInt(u64),
    /// A signed integer.
    Int(i64),
    /// A double, by bit pattern.
    Float(u64),
    Bool(bool),
    Str(String),
}

/// The mathematical content of a written JSON value.
pub enum JsonOutView {
    Null,
    UInt(u64),
    Int(i64),
    Float(u64),
    Bool(bool),
    Str(Seq<char>),
}

impl View for JsonOut {
    type V = JsonOutView;

    open spec fn view(&self) -> JsonOutView {
        match self {
            JsonOut::Null => JsonOutView::Null,
            JsonOut::UInt(u) => JsonOutView::UInt(*u),
            JsonOut::Int(i) => JsonOutView::Int(*i),
            JsonOut::Float(b) => JsonOutView::Float(*b),
            JsonOut::Bool(b) => JsonOutView::Bool(*b),
            JsonOut::Str(s) => JsonOutView::Str(s@),
        }
    }
}

/// The arguments of a command as written to a save file: JSON null, or an
/// object with the given fields.
#[derive(Debug)]
pub enum RecordData {
    Null,
    Object(Vec<(String, JsonOut)>),
}

/// The view of one written field.
pub open spec fn out_field_view(f: (String, JsonOut)) -> (Seq<char>, JsonOutView) {
    (f.0@, f.1@)
}

impl View for RecordData {
    type V = Option<Seq<(Seq<char>, JsonOutView)>>;

    open spec fn view(&self) -> Option<Seq<(Seq<char>, JsonOutView)>> {
        match self {
            RecordData::Null => None,
            RecordData::Object(fs) => Some(fs@.map_values(|f| out_field_view(f))),
        }
    }
}

/// An optional id, written as null or as the number.
pub open spec fn opt_id_out(id: Option<u32>) -> JsonOutView {
    match id {
        Some(x) => JsonOutView::UInt(x as u64),
        None => JsonOutView::Null,
    }
}

/// The name of the command `c` in a save file.
pub open spec fn record_name(c: CommandView) -> Seq<char> {
    match c {
        CommandView::AddChamber => "AddChamber"@,
        CommandView::ChangeMode(_) => "ChangeMode"@,
        CommandView::SelectChamber(_) => "SelectChamber"@,
        CommandView::AddVertexToChamber(_, _) => "AddVertexToChamber"@,
        CommandView::ChangeChamberName(_, _) => "ChangeChamberName"@,
        CommandView::ChangeChamberNotes(_, _) => "ChangeChamberNotes"@,
        CommandView::ChangeChamberHidden(_, _) => "ChangeChamberHidden"@,
        CommandView::SplitWall(_, _, _) => "SplitWall"@,
        CommandView::CollapseWall(_, _) => "CollapseWall"@,
        CommandView::DeleteChamber(_) => "DeleteChamber"@,
        CommandView::AddDoor(_) => "AddDoor"@,
        CommandView::SelectDoor(_) => "SelectDoor"@,
        CommandView::ChangeDoorName(_, _) => "ChangeDoorName"@,
        CommandView::ChangeDoorNotes(_, _) => "ChangeDoorNotes"@,
        CommandView::ChangeDoorLeadsTo(_, _) => "ChangeDoorLeadsTo"@,
        CommandView::ChangeDoorHidden(_, _) => "ChangeDoorHidden"@,
        CommandView::DeleteDoor(_) => "DeleteDoor"@,
        CommandView::ChangeDungeonName(_) => "ChangeDungeonName"@,
        CommandView::ChangeDungeonNotes(_) => "ChangeDungeonNotes"@,
        CommandView::AddObject(_, _) => "AddObject"@,
        CommandView::SelectObject(_) => "SelectObject"@,
        CommandView::DeleteObject(_) => "DeleteObject"@,
        CommandView::ChangeObjectName(_, _) => "ChangeObjectName"@,
        CommandView::ChangeObjectNotes(_, _) => "ChangeObjectNotes"@,
        CommandView::ChangeObjectHidden(_, _) => "ChangeObjectHidden"@,
        CommandView::ChangeObjectStyle(_, _) => "ChangeObjectStyle"@,
    }
}

/// The arguments of the command `c` in a save file.
pub open spec fn record_fields(c: CommandView) -> Option<Seq<(Seq<char>, JsonOutView)>> {
    match c {
        CommandView::AddChamber => None,
        CommandView::ChangeMode(m) => Some(seq![("mode"@, JsonOutView::Str(mode_name(m)))]),
        CommandView::SelectChamber(c) => Some(seq![("chamber_id"@, opt_id_out(c))]),
        CommandView::AddVertexToChamber(c, p) => Some(
            seq![
                ("chamber_id"@, JsonOutView::UInt(c as u64)),
                ("x"@, JsonOutView::Int(p.x as i64)),
                ("y"@, JsonOutView::Int(p.y as i64)),
            ],
        ),
        CommandView::ChangeChamberName(c, n) => Some(
            seq![("chamber_id"@, JsonOutView::UInt(c as u64)), ("name"@, JsonOutView::Str(n))],
        ),
        CommandView::ChangeChamberNotes(c, n) => Some(
            seq![("chamber_id"@, JsonOutView::UInt(c as u64)), ("notes"@, JsonOutView::Str(n))],
        ),
        CommandView::ChangeChamberHidden(c, h) => Some(
            seq![("chamber_id"@, JsonOutView::UInt(c as u64)), ("hidden"@, JsonOutView::Bool(h))],
        ),
        CommandView::SplitWall(c, w, p) => Some(
            seq![
                ("chamber_id"@, JsonOutView::UInt(c as u64)),
                ("wall_id"@, JsonOutView::UInt(w as u64)),
                ("x"@, JsonOutView::Int(p.x as i64)),
                ("y"@, JsonOutView::Int(p.y as i64)),
            ],
        ),
        CommandView::CollapseWall(c, w) => Some(
            seq![
                ("chamber_id"@, JsonOutView::UInt(c as u64)),
                ("wall_id"@, JsonOutView::UInt(w as u64)),
            ],
        ),
        CommandView::DeleteChamber(c) => Some(seq![("chamber_id"@, JsonOutView::UInt(c as u64))]),
        CommandView::AddDoor(d) => Some(
            seq![
                ("part_of"@, JsonOutView::UInt(d.part_of as u64)),
                ("width"@, JsonOutView::Float(d.width_bits)),
                ("on_wall"@, JsonOutView::UInt(d.on_wall as u64)),
                ("position"@, JsonOutView::Float(d.position_bits)),
            ],
        ),
        CommandView::SelectDoor(d) => Some(seq![("door_id"@, opt_id_out(d))]),
        CommandView::ChangeDoorName(d, n) => Some(
            seq![("door_id"@, JsonOutView::UInt(d as u64)), ("name"@, JsonOutView::Str(n))],
        ),
        CommandView::ChangeDoorNotes(d, n) => Some(
            seq![("door_id"@, JsonOutView::UInt(d as u64)), ("notes"@, JsonOutView::Str(n))],
        ),
        CommandView::ChangeDoorLeadsTo(d, c) => Some(
            seq![("door_id"@, JsonOutView::UInt(d as u64)), ("chamber_id"@, opt_id_out(c))],
        ),
        CommandView::ChangeDoorHidden(d, h) => Some(
            seq![("door_id"@, JsonOutView::UInt(d as u64)), ("hidden"@, JsonOutView::Bool(h))],
        ),
        CommandView::DeleteDoor(d) => Some(seq![("door_id"@, JsonOutView::UInt(d as u64))]),
        CommandView::ChangeDungeonName(n) => Some(seq![("name"@, JsonOutView::Str(n))]),
        CommandView::ChangeDungeonNotes(n) => Some(seq![("notes"@, JsonOutView::Str(n))]),
        CommandView::AddObject(p, part_of) => Some(
            seq![
                ("x"@, JsonOutView::Int(p.x as i64)),
                ("y"@, JsonOutView::Int(p.y as i64)),
                ("part_of"@, opt_id_out(part_of)),
            ],
        ),
        CommandView::SelectObject(o) => Some(seq![("object_id"@, opt_id_out(o))]),
        CommandView::DeleteObject(o) => Some(seq![("object_id"@, JsonOutView::UInt(o as u64))]),
        CommandView::ChangeObjectName(o, n) => Some(
            seq![("object_id"@, JsonOutView::UInt(o as u64)), ("name"@, JsonOutView::Str(n))],
        ),
        CommandView::ChangeObjectNotes(o, n) => Some(
            seq![("object_id"@, JsonOutView::UInt(o as u64)), ("notes"@, JsonOutView::Str(n))],
        ),
        CommandView::ChangeObjectHidden(o, h) => Some(
            seq![("object_id"@, JsonOutView::UInt(o as u64)), ("hidden"@, JsonOutView::Bool(h))],
        ),
        CommandView::ChangeObjectStyle(o, st) => Some(
            seq![
                ("object_id"@, JsonOutView::UInt(o as u64)),
                ("style"@, JsonOutView::Str(style_name(st))),
            ],
        ),
    }
}

/// An object with one field.
fn fields1(k1: &str, v1: JsonOut) -> (r: RecordData)
    ensures
        r@ == Some(seq![(k1@, v1@)]),
{
    let fs = vec![(k1.to_owned(), v1)];
    assert(fs@.map_values(|f| out_field_view(f)) =~= seq![(k1@, v1@)]);
    RecordData::Object(fs)
}

/// An object with two fields.
fn fields2(k1: &str, v1: JsonOut, k2: &str, v2: JsonOut) -> (r: RecordData)
    ensures
        r@ == Some(seq![(k1@, v1@), (k2@, v2@)]),
{
    let fs = vec![(k1.to_owned(), v1), (k2.to_owned(), v2)];
    assert(fs@.map_values(|f| out_field_view(f)) =~= seq![(k1@, v1@), (k2@, v2@)]);
    RecordData::Object(fs)
}

/// An object with three fields.
fn fields3(k1: &str, v1: JsonOut, k2: &str, v2: JsonOut, k3: &str, v3: JsonOut) -> (r: RecordData)
    ensures
        r@ == Some(seq![(k1@, v1@), (k2@, v2@), (k3@, v3@)]),
{
    let fs = vec![(k1.to_owned(), v1), (k2.to_owned(), v2), (k3.to_owned(), v3)];
    assert(fs@.map_values(|f| out_field_view(f)) =~= seq![(k1@, v1@), (k2@, v2@), (k3@, v3@)]);
    RecordData::Object(fs)
}

/// An object with four fields.
fn fields4(
    k1: &str,
    v1: JsonOut,
    k2: &str,
    v2: JsonOut,
    k3: &str,
    v3: JsonOut,
    k4: &str,
    v4: JsonOut,
) -> (r: RecordData)
    ensures
        r@ == Some(seq![(k1@, v1@), (k2@, v2@), (k3@, v3@), (k4@, v4@)]),
{
    let fs = vec![
        (k1.to_owned(), v1),
        (k2.to_owned(), v2),
        (k3.to_owned(), v3),
        (k4.to_owned(), v4),
    ];
    assert(fs@.map_values(|f| out_field_view(f)) =~= seq![
        (k1@, v1@),
        (k2@, v2@),
        (k3@, v3@),
        (k4@, v4@),
    ]);
    RecordData::Object(fs)
}

/// An optional id as written.
fn opt_id(id: Option<u32>) -> (r: JsonOut)
    ensures
        r@ == opt_id_out(id),
{
    match id {
        Some(x) => JsonOut::UInt(x as u64),
        None => JsonOut::Null,
    }
}

/// The name and the arguments under which a command is saved.
pub fn command_record(cmd: &StateCommand) -> (r: (String, RecordData))
    ensures
        r.0@ == record_name(cmd@),
        r.1@ == record_fields(cmd@),
{
    match cmd {
        StateCommand::AddChamber => ("AddChamber".to_owned(), RecordData::Null),
        StateCommand::ChangeMode(m) => (
            "ChangeMode".to_owned(),
            fields1("mode", JsonOut::Str(m.to_str())),
        ),
        StateCommand::SelectChamber(c) => (
            "SelectChamber".to_owned(),
            fields1("chamber_id", opt_id(*c)),
        ),
        StateCommand::AddVertexToChamber(c, p) => (
            "AddVertexToChamber".to_owned(),
            fields3(
                "chamber_id",
                JsonOut::UInt(*c as u64),
                "x",
                JsonOut::Int(p.x as i64),
                "y",
                JsonOut::Int(p.y as i64),
            ),
        ),
        StateCommand::ChangeChamberName(c, n) => (
            "ChangeChamberName".to_owned(),
            fields2("chamber_id", JsonOut::UInt(*c as u64), "name", JsonOut::Str(n.clone())),
        ),
        StateCommand::ChangeChamberNotes(c, n) => (
            "ChangeChamberNotes".to_owned(),
            fields2("chamber_id", JsonOut::UInt(*c as u64), "notes", JsonOut::Str(n.clone())),
        ),
        StateCommand::ChangeChamberHidden(c, h) => (
            "ChangeChamberHidden".to_owned(),
            fields2("chamber_id", JsonOut::UInt(*c as u64), "hidden", JsonOut::Bool(*h)),
        ),
        StateCommand::SplitWall(c, w, p) => (
            "SplitWall".to_owned(),
            fields4(
                "chamber_id",
                JsonOut::UInt(*c as u64),
                "wall_id",
                JsonOut::UInt(*w as u64),
                "x",
                JsonOut::Int(p.x as i64),
                "y",
                JsonOut::Int(p.y as i64),
            ),
        ),
        StateCommand::CollapseWall(c, w) => (
            "CollapseWall".to_owned(),
            fields2("chamber_id", JsonOut::UInt(*c as u64), "wall_id", JsonOut::UInt(*w as u64)),
        ),
        StateCommand::DeleteChamber(c) => (
            "DeleteChamber".to_owned(),
            fields1("chamber_id", JsonOut::UInt(*c as u64)),
        ),
        StateCommand::AddDoor(d) => (
            "AddDoor".to_owned(),
            fields4(
                "part_of",
                JsonOut::UInt(d.part_of as u64),
                "width",
                JsonOut::Float(d.width_bits),
                "on_wall",
                JsonOut::UInt(d.on_wall as u64),
                "position",
                JsonOut::Float(d.position_bits),
            ),
        ),
        StateCommand::SelectDoor(d) => ("SelectDoor".to_owned(), fields1("door_id", opt_id(*d))),
        StateCommand::ChangeDoorName(d, n) => (
            "ChangeDoorName".to_owned(),
            fields2("door_id", JsonOut::UInt(*d as u64), "name", JsonOut::Str(n.clone())),
        ),
        StateCommand::ChangeDoorNotes(d, n) => (
            "ChangeDoorNotes".to_owned(),
            fields2("door_id", JsonOut::UInt(*d as u64), "notes", JsonOut::Str(n.clone())),
        ),
        StateCommand::ChangeDoorLeadsTo(d, c) => (
            "ChangeDoorLeadsTo".to_owned(),
            fields2("door_id", JsonOut::UInt(*d as u64), "chamber_id", opt_id(*c)),
        ),
        StateCommand::ChangeDoorHidden(d, h) => (
            "ChangeDoorHidden".to_owned(),
            fields2("door_id", JsonOut::UInt(*d as u64), "hidden", JsonOut::Bool(*h)),
        ),
        StateCommand::DeleteDoor(d) => (
            "DeleteDoor".to_owned(),
            fields1("door_id", JsonOut::UInt(*d as u64)),
        ),
        StateCommand::ChangeDungeonName(n) => (
            "ChangeDungeonName".to_owned(),
            fields1("name", JsonOut::Str(n.clone())),
        ),
        StateCommand::ChangeDungeonNotes(n) => (
            "ChangeDungeonNotes".to_owned(),
            fields1("notes", JsonOut::Str(n.clone())),
        ),
        StateCommand::AddObject(p, part_of) => (
            "AddObject".to_owned(),
            fields3(
                "x",
                JsonOut::Int(p.x as i64),
                "y",
                JsonOut::Int(p.y as i64),
                "part_of",
                opt_id(*part_of),
            ),
        ),
        StateCommand::SelectObject(o) => (
            "SelectObject".to_owned(),
            fields1("object_id", opt_id(*o)),
        ),
        StateCommand::DeleteObject(o) => (
            "DeleteObject".to_owned(),
            fields1("object_id", JsonOut::UInt(*o as u64)),
        ),
        StateCommand::ChangeObjectName(o, n) => (
            "ChangeObjectName".to_owned(),
            fields2("object_id", JsonOut::UInt(*o as u64), "name", JsonOut::Str(n.clone())),
        ),
        StateCommand::ChangeObjectNotes(o, n) => (
            "ChangeObjectNotes".to_owned(),
            fields2("object_id", JsonOut::UInt(*o as u64), "notes", JsonOut::Str(n.clone())),
        ),
        StateCommand::ChangeObjectHidden(o, h) => (
            "ChangeObjectHidden".to_owned(),
            fields2("object_id", JsonOut::UInt(*o as u64), "hidden", JsonOut::Bool(*h)),
        ),
        StateCommand::ChangeObjectStyle(o, st) => (
            "ChangeObjectStyle".to_owned(),
            fields2("object_id", JsonOut::UInt(*o as u64), "style", JsonOut::Str(st.to_str())),
        ),
    }
}

/// No two written fields share a name.
pub open spec fn keys_distinct(fs: Seq<(Seq<char>, JsonOutView)>) -> bool {
    forall|i: int, j: int| 0 <= i < fs.len() && 0 <= j < fs.len() && i != j ==> fs[i].0 != fs[j].0
}

/// Written arguments without doubles.
pub open spec fn no_doubles(d: Option<Seq<(Seq<char>, JsonOutView)>>) -> bool {
    match d {
        None => true,
        Some(fs) => forall|i: int| #![trigger fs[i]] 0 <= i < fs.len() ==> !(fs[i].1 is Float),
    }
}

/// Written arguments that serde_json reads back field by field: an object
/// with distinct field names, or null.
pub open spec fn writable(d: Option<Seq<(Seq<char>, JsonOutView)>>) -> bool {
    match d {
        None => true,
        Some(fs) => keys_distinct(fs),
    }
}

/// No line feed and no carriage return in `t`.
pub open spec fn no_line_breaks(t: Seq<char>) -> bool {
    forall|i: int| 0 <= i < t.len() ==> t[i] != '\n' && t[i] != '\r'
}

/// serde_json reads the text `t` back as the written arguments `d`.
pub open spec fn text_reads_back(d: Option<Seq<(Seq<char>, JsonOutView)>>, t: Seq<char>) -> bool {
    json_read(t) matches Some(read) && reads_back(d, read)
}

/// The text that serde_json writes for the arguments `d`: `null`, or an
/// object with the given fields.
pub uninterp spec fn json_write(d: Option<Seq<(Seq<char>, JsonOutView)>>) -> Seq<char>;

/// Writes arguments without doubles as compact JSON with serde_json: builds
/// a `serde_json::Value` (null, or an object whose fields are inserted in
/// order) and calls its `to_string`. The contract claims that the text is a
/// function of the arguments (`json_write`); that it holds no line feed and
/// no carriage return, as the compact writer escapes control characters in
/// strings and adds no whitespace; and that `serde_json::from_str` reads it
/// back field by field when the field names are distinct (integers as the
/// same integers, texts and booleans as themselves, null as null).
#[verifier::external_body]
fn json_text(data: &RecordData) -> (r: String)
    requires
        no_doubles(data@),
    ensures
        r@ == json_write(data@),
        no_line_breaks(r@),
        writable(data@) ==> text_reads_back(data@, r@),
{
    let v = match data {
        RecordData::Null => Value::Null,
        RecordData::Object(fs) => Value::Object(fs.iter().map(|(k, v)| (k.clone(), match v {
            JsonOut::UInt(u) => Value::from(*u),
            JsonOut::Int(i) => Value::from(*i),
            JsonOut::Bool(b) => Value::Bool(*b),
            JsonOut::Str(t) => Value::String(t.clone()),
            JsonOut::Null | JsonOut::Float(_) => Value::Null,
        })).collect()),
    };
    v.to_string()
}

/// A line of a save file: the name, ` >> `, the written arguments and a line
/// break.
pub fn record_line(name: &str, data: &str) -> (r: String)
    ensures
        r@ == name@ + separator() + data@ + seq!['\n'],
{
    let mut line = name.to_owned();
    line.append(" >> ");
    line.append(data);
    line.append("\n");
    proof {
        reveal_strlit(" >> ");
        reveal_strlit("\n");
        assert(" >> "@ =~= separator());
        assert("\n"@ =~= seq!['\n']);
    }
    line
}

/// Holds for a written field named `key`.
pub open spec fn out_named(key: Seq<char>) -> spec_fn((Seq<char>, JsonOutView)) -> bool {
    |f: (Seq<char>, JsonOutView)| f.0 == key
}

/// The value written for field `key`, if any.
pub open spec fn out_lookup(fs: Seq<(Seq<char>, JsonOutView)>, key: Seq<char>) -> Option<
    JsonOutView,
> {
    let i = first_index(fs, out_named(key));
    if i >= 0 {
        Some(fs[i].1)
    } else {
        None
    }
}

/// A value read back agrees with the value written: integers are read as the
/// same integer, a double as some double (reading may round it), texts and
/// booleans as themselves, and an absent or null field as null.
pub open spec fn agrees(written: Option<JsonOutView>, read: JsonValueView) -> bool {
    match written {
        None => read == JsonValueView::Null,
        Some(JsonOutView::Null) => read == JsonValueView::Null,
        Some(JsonOutView::UInt(u)) => read matches JsonValueView::Number(n) && n.as_u64 == Some(u)
            && n.as_i64 == (if u <= i64::MAX {
            Some(u as i64)
        } else {
            None
        }),
        Some(JsonOutView::Int(i)) => read matches JsonValueView::Number(n) && n.as_i64 == Some(i)
            && n.as_u64 == (if i >= 0 {
            Some(i as u64)
        } else {
            None
        }),
        Some(JsonOutView::Float(_)) => read matches JsonValueView::Number(n) && n.f64_bits is Some,
        Some(JsonOutView::Bool(b)) => read == JsonValueView::Bool(b),
        Some(JsonOutView::Str(t)) => read == JsonValueView::Str(t),
    }
}

/// `read` is what reading back the written arguments `written` gives: every
/// field reads as what was written for it.
pub open spec fn reads_back(written: Option<Seq<(Seq<char>, JsonOutView)>>, read: JsonDocView) -> bool {
    match written {
        None => read == JsonDocView::NotObject,
        Some(fs) => forall|k: Seq<char>| #[trigger] agrees(out_lookup(fs, k), field_of(read, k)),
    }
}

/// `c2` is what the command `c` may become when it is saved and read back:
/// `c` itself, except that a new door keeps only its chamber and wall, and
/// its width and position as the doubles read back.
pub open spec fn reloads_as(c: CommandView, c2: CommandView) -> bool {
    match c {
        CommandView::AddDoor(d) => c2 matches CommandView::AddDoor(d2) && d2 == new_door_view(
            d.part_of,
            None,
            d2.width_bits,
            d.on_wall,
            d2.position_bits,
        ),
        _ => c2 == c,
    }
}

/// No space, line feed or carriage return in `s`.
pub open spec fn plain(s: Seq<char>) -> bool {
    forall|i: int| 0 <= i < s.len() ==> s[i] != ' ' && s[i] != '\n' && s[i] != '\r'
}

/// The lengths of the names of commands and arguments, the characters at
/// which names of equal length differ, and that command names are plain.
#[verifier::spinoff_prover]
#[verifier::rlimit(50)]
pub proof fn lemma_record_literals()
    ensures
        "AddChamber"@.len() == 10,
        "AddChamber"@[0] == 'A',
        "AddChamber"@[6] == 'm',
        "AddChamber"@[7] == 'b',
        "SelectChamber"@.len() == 13,
        "SelectChamber"@[0] == 'S',
        "SelectChamber"@[6] == 'C',
        "SelectChamber"@[7] == 'h',
        "SelectChamber"@[12] == 'r',
        "SelectDoor"@.len() == 10,
        "SelectDoor"@[0] == 'S',
        "SelectDoor"@[6] == 'D',
        "SelectDoor"@[7] == 'o',
        "SelectObject"@.len() == 12,
        "SelectObject"@[0] == 'S',
        "SelectObject"@[6] == 'O',
        "SelectObject"@[7] == 'b',
        "AddVertexToChamber"@.len() == 18,
        "AddVertexToChamber"@[0] == 'A',
        "AddVertexToChamber"@[6] == 't',
        "AddVertexToChamber"@[7] == 'e',
        "AddVertexToChamber"@[12] == 'h',
        "ChangeChamberName"@.len() == 17,
        "ChangeChamberName"@[0] == 'C',
        "ChangeChamberName"@[6] == 'C',
        "ChangeChamberName"@[7] == 'h',
        "ChangeChamberName"@[12] == 'r',
        "ChangeChamberNotes"@.len() == 18,
        "ChangeChamberNotes"@[0] == 'C',
        "ChangeChamberNotes"@[6] == 'C',
        "ChangeChamberNotes"@[7] == 'h',
        "ChangeChamberNotes"@[12] == 'r',
        "ChangeChamberHidden"@.len() == 19,
        "ChangeChamberHidden"@[0] == 'C',
        "ChangeChamberHidden"@[6] == 'C',
        "ChangeChamberHidden"@[7] == 'h',
        "ChangeChamberHidden"@[12] == 'r',
        "ChangeMode"@.len() == 10,
        "ChangeMode"@[0] == 'C',
        "ChangeMode"@[6] == 'M',
        "ChangeMode"@[7] == 'o',
        "SplitWall"@.len() == 9,
        "SplitWall"@[0] == 'S',
        "SplitWall"@[6] == 'a',
        "SplitWall"@[7] == 'l',
        "CollapseWall"@.len() == 12,
        "CollapseWall"@[0] == 'C',
        "CollapseWall"@[6] == 's',
        "CollapseWall"@[7] == 'e',
        "DeleteChamber"@.len() == 13,
        "DeleteChamber"@[0] == 'D',
        "DeleteChamber"@[6] == 'C',
        "DeleteChamber"@[7] == 'h',
        "DeleteChamber"@[12] == 'r',
        "AddDoor"@.len() == 7,
        "AddDoor"@[0] == 'A',
        "AddDoor"@[6] == 'r',
        "ChangeDoorName"@.len() == 14,
        "ChangeDoorName"@[0] == 'C',
        "ChangeDoorName"@[6] == 'D',
        "ChangeDoorName"@[7] == 'o',
        "ChangeDoorName"@[12] == 'm',
        "ChangeDoorNotes"@.len() == 15,
        "ChangeDoorNotes"@[0] == 'C',
        "ChangeDoorNotes"@[6] == 'D',
        "ChangeDoorNotes"@[7] == 'o',
        "ChangeDoorNotes"@[12] == 't',
        "ChangeDoorLeadsTo"@.len() == 17,
        "ChangeDoorLeadsTo"@[0] == 'C',
        "ChangeDoorLeadsTo"@[6] == 'D',
        "ChangeDoorLeadsTo"@[7] == 'o',
        "ChangeDoorLeadsTo"@[12] == 'a',
        "ChangeDoorHidden"@.len() == 16,
        "ChangeDoorHidden"@[0] == 'C',
        "ChangeDoorHidden"@[6] == 'D',
        "ChangeDoorHidden"@[7] == 'o',
        "ChangeDoorHidden"@[12] == 'd',
        "DeleteDoor"@.len() == 10,
        "DeleteDoor"@[0] == 'D',
        "DeleteDoor"@[6] == 'D',
        "DeleteDoor"@[7] == 'o',
        "AddObject"@.len() == 9,
        "AddObject"@[0] == 'A',
        "AddObject"@[6] == 'e',
        "AddObject"@[7] == 'c',
        "ChangeDungeonName"@.len() == 17,
        "ChangeDungeonName"@[0] == 'C',
        "ChangeDungeonName"@[6] == 'D',
        "ChangeDungeonName"@[7] == 'u',
        "ChangeDungeonName"@[12] == 'n',
        "ChangeDungeonNotes"@.len() == 18,
        "ChangeDungeonNotes"@[0] == 'C',
        "ChangeDungeonNotes"@[6] == 'D',
        "ChangeDungeonNotes"@[7] == 'u',
        "ChangeDungeonNotes"@[12] == 'n',
        "DeleteObject"@.len() == 12,
        "DeleteObject"@[0] == 'D',
        "DeleteObject"@[6] == 'O',
        "DeleteObject"@[7] == 'b',
        "ChangeObjectName"@.len() == 16,
        "ChangeObjectName"@[0] == 'C',
        "ChangeObjectName"@[6] == 'O',
        "ChangeObjectName"@[7] == 'b',
        "ChangeObjectName"@[12] == 'N',
        "ChangeObjectNotes"@.len() == 17,
        "ChangeObjectNotes"@[0] == 'C',
        "ChangeObjectNotes"@[6] == 'O',
        "ChangeObjectNotes"@[7] == 'b',
        "ChangeObjectNotes"@[12] == 'N',
        "ChangeObjectHidden"@.len() == 18,
        "ChangeObjectHidden"@[0] == 'C',
        "ChangeObjectHidden"@[6] == 'O',
        "ChangeObjectHidden"@[7] == 'b',
        "ChangeObjectHidden"@[12] == 'H',
        "ChangeObjectStyle"@.len() == 17,
        "ChangeObjectStyle"@[0] == 'C',
        "ChangeObjectStyle"@[6] == 'O',
        "ChangeObjectStyle"@[7] == 'b',
        "ChangeObjectStyle"@[12] == 'S',
        "chamber_id"@.len() == 10,
        "chamber_id"@[0] == 'c',
        "door_id"@.len() == 7,
        "door_id"@[0] == 'd',
        "object_id"@.len() == 9,
        "object_id"@[0] == 'o',
        "wall_id"@.len() == 7,
        "wall_id"@[0] == 'w',
        "part_of"@.len() == 7,
        "part_of"@[0] == 'p',
        "on_wall"@.len() == 7,
        "on_wall"@[0] == 'o',
        "width"@.len() == 5,
        "width"@[0] == 'w',
        "position"@.len() == 8,
        "position"@[0] == 'p',
        "x"@.len() == 1,
        "x"@[0] == 'x',
        "y"@.len() == 1,
        "y"@[0] == 'y',
        "name"@.len() == 4,
        "name"@[0] == 'n',
        "notes"@.len() == 5,
        "notes"@[0] == 'n',
        "hidden"@.len() == 6,
        "hidden"@[0] == 'h',
        "mode"@.len() == 4,
        "mode"@[0] == 'm',
        "style"@.len() == 5,
        "style"@[0] == 's',
        plain("AddChamber"@),
        plain("SelectChamber"@),
        plain("SelectDoor"@),
        plain("SelectObject"@),
        plain("AddVertexToChamber"@),
        plain("ChangeChamberName"@),
        plain("ChangeChamberNotes"@),
        plain("ChangeChamberHidden"@),
        plain("ChangeMode"@),
        plain("SplitWall"@),
        plain("CollapseWall"@),
        plain("DeleteChamber"@),
        plain("AddDoor"@),
        plain("ChangeDoorName"@),
        plain("ChangeDoorNotes"@),
        plain("ChangeDoorLeadsTo"@),
        plain("ChangeDoorHidden"@),
        plain("DeleteDoor"@),
        plain("AddObject"@),
        plain("ChangeDungeonName"@),
        plain("ChangeDungeonNotes"@),
        plain("DeleteObject"@),
        plain("ChangeObjectName"@),
        plain("ChangeObjectNotes"@),
        plain("ChangeObjectHidden"@),
        plain("ChangeObjectStyle"@),
{
    reveal_strlit("AddChamber");
    reveal_strlit("SelectChamber");
    reveal_strlit("SelectDoor");
    reveal_strlit("SelectObject");
    reveal_strlit("AddVertexToChamber");
    reveal_strlit("ChangeChamberName");
    reveal_strlit("ChangeChamberNotes");
    reveal_strlit("ChangeChamberHidden");
    reveal_strlit("ChangeMode");
    reveal_strlit("SplitWall");
    reveal_strlit("CollapseWall");
    reveal_strlit("DeleteChamber");
    reveal_strlit("AddDoor");
    reveal_strlit("ChangeDoorName");
    reveal_strlit("ChangeDoorNotes");
    reveal_strlit("ChangeDoorLeadsTo");
    reveal_strlit("ChangeDoorHidden");
    reveal_strlit("DeleteDoor");
    reveal_strlit("AddObject");
    reveal_strlit("ChangeDungeonName");
    reveal_strlit("ChangeDungeonNotes");
    reveal_strlit("DeleteObject");
    reveal_strlit("ChangeObjectName");
    reveal_strlit("ChangeObjectNotes");
    reveal_strlit("ChangeObjectHidden");
    reveal_strlit("ChangeObjectStyle");
    reveal_strlit("chamber_id");
    reveal_strlit("door_id");
    reveal_strlit("object_id");
    reveal_strlit("wall_id");
    reveal_strlit("part_of");
    reveal_strlit("on_wall");
    reveal_strlit("width");
    reveal_strlit("position");
    reveal_strlit("x");
    reveal_strlit("y");
    reveal_strlit("name");
    reveal_strlit("notes");
    reveal_strlit("hidden");
    reveal_strlit("mode");
    reveal_strlit("style");
}

/// `lemma_record_roundtrip` for the commands on chambers, the mode and new
/// or selected doors.
#[verifier::spinoff_prover]
#[verifier::rlimit(50)]
proof fn lemma_record_roundtrip_chambers(c: CommandView, read: JsonDocView)
    requires
        reads_back(record_fields(c), read),
        c is AddChamber || c is ChangeMode || c is SelectChamber || c is AddVertexToChamber
            || c is ChangeChamberName || c is ChangeChamberNotes || c is ChangeChamberHidden
            || c is SplitWall || c is CollapseWall || c is DeleteChamber || c is AddDoor
            || c is SelectDoor,
    ensures
        parse_record(record_name(c), Some(read)) matches Ok(Some(c2)) && reloads_as(c, c2),
{
    lemma_record_literals();
    reveal_with_fuel(first_index, 5);
    let fs = record_fields(c)->0;
    match c {
        CommandView::AddChamber => {
        },
        CommandView::ChangeMode(m) => {
            lemma_mode_name_roundtrip(m, m);
            assert(agrees(out_lookup(fs, "mode"@), field_of(read, "mode"@)));
        },
        CommandView::SelectChamber(_) => {
            assert(agrees(out_lookup(fs, "chamber_id"@), field_of(read, "chamber_id"@)));
        },
        CommandView::AddVertexToChamber(_, _) => {
            assert(agrees(out_lookup(fs, "chamber_id"@), field_of(read, "chamber_id"@)));
            assert(agrees(out_lookup(fs, "x"@), field_of(read, "x"@)));
            assert(agrees(out_lookup(fs, "y"@), field_of(read, "y"@)));
        },
        CommandView::ChangeChamberName(_, _) => {
            assert(agrees(out_lookup(fs, "chamber_id"@), field_of(read, "chamber_id"@)));
            assert(agrees(out_lookup(fs, "name"@), field_of(read, "name"@)));
        },
        CommandView::ChangeChamberNotes(_, _) => {
            assert(agrees(out_lookup(fs, "chamber_id"@), field_of(read, "chamber_id"@)));
            assert(agrees(out_lookup(fs, "notes"@), field_of(read, "notes"@)));
        },
        CommandView::ChangeChamberHidden(_, _) => {
            assert(agrees(out_lookup(fs, "chamber_id"@), field_of(read, "chamber_id"@)));
            assert(agrees(out_lookup(fs, "hidden"@), field_of(read, "hidden"@)));
        },
        CommandView::SplitWall(_, _, _) => {
            assert(agrees(out_lookup(fs, "chamber_id"@), field_of(read, "chamber_id"@)));
            assert(agrees(out_lookup(fs, "wall_id"@), field_of(read, "wall_id"@)));
            assert(agrees(out_lookup(fs, "x"@), field_of(read, "x"@)));
            assert(agrees(out_lookup(fs, "y"@), field_of(read, "y"@)));
        },
        CommandView::CollapseWall(_, _) => {
            assert(agrees(out_lookup(fs, "chamber_id"@), field_of(read, "chamber_id"@)));
            assert(agrees(out_lookup(fs, "wall_id"@), field_of(read, "wall_id"@)));
        },
        CommandView::DeleteChamber(_) => {
            assert(agrees(out_lookup(fs, "chamber_id"@), field_of(read, "chamber_id"@)));
        },
        CommandView::AddDoor(_) => {
            assert(agrees(out_lookup(fs, "part_of"@), field_of(read, "part_of"@)));
            assert(agrees(out_lookup(fs, "width"@), field_of(read, "width"@)));
            assert(agrees(out_lookup(fs, "on_wall"@), field_of(read, "on_wall"@)));
            assert(agrees(out_lookup(fs, "position"@), field_of(read, "position"@)));
        },
        CommandView::SelectDoor(_) => {
            assert(agrees(out_lookup(fs, "door_id"@), field_of(read, "door_id"@)));
        },
        _ => {},
    }
}

/// `lemma_record_roundtrip` for the other commands on doors, the dungeon and
/// objects.
#[verifier::spinoff_prover]
#[verifier::rlimit(50)]
proof fn lemma_record_roundtrip_others(c: CommandView, read: JsonDocView)
    requires
        reads_back(record_fields(c), read),
        c is ChangeDoorName || c is ChangeDoorNotes || c is ChangeDoorLeadsTo
            || c is ChangeDoorHidden || c is DeleteDoor || c is ChangeDungeonName
            || c is ChangeDungeonNotes || c is AddObject || c is SelectObject
            || c is DeleteObject || c is ChangeObjectName || c is ChangeObjectNotes
            || c is ChangeObjectHidden || c is ChangeObjectStyle,
    ensures
        parse_record(record_name(c), Some(read)) matches Ok(Some(c2)) && reloads_as(c, c2),
{
    lemma_record_literals();
    reveal_with_fuel(first_index, 5);
    let fs = record_fields(c)->0;
    match c {
        CommandView::ChangeDoorName(_, _) => {
            assert(agrees(out_lookup(fs, "door_id"@), field_of(read, "door_id"@)));
            assert(agrees(out_lookup(fs, "name"@), field_of(read, "name"@)));
        },
        CommandView::ChangeDoorNotes(_, _) => {
            assert(agrees(out_lookup(fs, "door_id"@), field_of(read, "door_id"@)));
            assert(agrees(out_lookup(fs, "notes"@), field_of(read, "notes"@)));
        },
        CommandView::ChangeDoorLeadsTo(_, _) => {
            assert(agrees(out_lookup(fs, "door_id"@), field_of(read, "door_id"@)));
            assert(agrees(out_lookup(fs, "chamber_id"@), field_of(read, "chamber_id"@)));
        },
        CommandView::ChangeDoorHidden(_, _) => {
            assert(agrees(out_lookup(fs, "door_id"@), field_of(read, "door_id"@)));
            assert(agrees(out_lookup(fs, "hidden"@), field_of(read, "hidden"@)));
        },
        CommandView::DeleteDoor(_) => {
            assert(agrees(out_lookup(fs, "door_id"@), field_of(read, "door_id"@)));
        },
        CommandView::ChangeDungeonName(_) => {
            assert(agrees(out_lookup(fs, "name"@), field_of(read, "name"@)));
        },
        CommandView::ChangeDungeonNotes(_) => {
            assert(agrees(out_lookup(fs, "notes"@), field_of(read, "notes"@)));
        },
        CommandView::AddObject(_, _) => {
            assert(agrees(out_lookup(fs, "x"@), field_of(read, "x"@)));
            assert(agrees(out_lookup(fs, "y"@), field_of(read, "y"@)));
            assert(agrees(out_lookup(fs, "part_of"@), field_of(read, "part_of"@)));
        },
        CommandView::SelectObject(_) => {
            assert(agrees(out_lookup(fs, "object_id"@), field_of(read, "object_id"@)));
        },
        CommandView::DeleteObject(_) => {
            assert(agrees(out_lookup(fs, "object_id"@), field_of(read, "object_id"@)));
        },
        CommandView::ChangeObjectName(_, _) => {
            assert(agrees(out_lookup(fs, "object_id"@), field_of(read, "object_id"@)));
            assert(agrees(out_lookup(fs, "name"@), field_of(read, "name"@)));
        },
        CommandView::ChangeObjectNotes(_, _) => {
            assert(agrees(out_lookup(fs, "object_id"@), field_of(read, "object_id"@)));
            assert(agrees(out_lookup(fs, "notes"@), field_of(read, "notes"@)));
        },
        CommandView::ChangeObjectHidden(_, _) => {
            assert(agrees(out_lookup(fs, "object_id"@), field_of(read, "object_id"@)));
            assert(agrees(out_lookup(fs, "hidden"@), field_of(read, "hidden"@)));
        },
        CommandView::ChangeObjectStyle(_, st) => {
            lemma_style_name_roundtrip(st, st);
            assert(agrees(out_lookup(fs, "object_id"@), field_of(read, "object_id"@)));
            assert(agrees(out_lookup(fs, "style"@), field_of(read, "style"@)));
        },
        _ => {},
    }
}

/// The value written for the field `key` of the command `c`.
pub open spec fn writes(c: CommandView, key: Seq<char>, v: JsonOutView) -> bool {
    record_fields(c) matches Some(fs) && out_lookup(fs, key) == Some(v)
}

/// Which field holds which part of a saved command: for instance a split
/// wall writes its chamber under "chamber_id", its wall under "wall_id" and
/// the new corner's coordinates under "x" and "y".
#[verifier::spinoff_prover]
#[verifier::rlimit(50)]
pub proof fn lemma_written_fields(cmd: CommandView)
    ensures
        match cmd {
            CommandView::AddChamber => record_fields(cmd) is None,
            CommandView::ChangeMode(m) => writes(cmd, "mode"@, JsonOutView::Str(mode_name(m))),
            CommandView::SelectChamber(c) => writes(cmd, "chamber_id"@, opt_id_out(c)),
            CommandView::AddVertexToChamber(c, p) => writes(cmd, "chamber_id"@, JsonOutView::UInt(c as u64)) && writes(cmd, "x"@, JsonOutView::Int(p.x as i64)) && writes(cmd, "y"@, JsonOutView::Int(p.y as i64)),
            CommandView::ChangeChamberName(c, t) => writes(cmd, "chamber_id"@, JsonOutView::UInt(c as u64)) && writes(cmd, "name"@, JsonOutView::Str(t)),
            CommandView::ChangeChamberNotes(c, t) => writes(cmd, "chamber_id"@, JsonOutView::UInt(c as u64)) && writes(cmd, "notes"@, JsonOutView::Str(t)),
            CommandView::ChangeChamberHidden(c, h) => writes(cmd, "chamber_id"@, JsonOutView::UInt(c as u64)) && writes(cmd, "hidden"@, JsonOutView::Bool(h)),
            CommandView::SplitWall(c, w, p) => writes(cmd, "chamber_id"@, JsonOutView::UInt(c as u64)) && writes(cmd, "wall_id"@, JsonOutView::UInt(w as u64)) && writes(cmd, "x"@, JsonOutView::Int(p.x as i64)) && writes(cmd, "y"@, JsonOutView::Int(p.y as i64)),
            CommandView::CollapseWall(c, w) => writes(cmd, "chamber_id"@, JsonOutView::UInt(c as u64)) && writes(cmd, "wall_id"@, JsonOutView::UInt(w as u64)),
            CommandView::DeleteChamber(c) => writes(cmd, "chamber_id"@, JsonOutView::UInt(c as u64)),
            CommandView::AddDoor(d) => writes(cmd, "part_of"@, JsonOutView::UInt(d.part_of as u64)) && writes(cmd, "width"@, JsonOutView::Float(d.width_bits)) && writes(cmd, "on_wall"@, JsonOutView::UInt(d.on_wall as u64)) && writes(cmd, "position"@, JsonOutView::Float(d.position_bits)),
            CommandView::SelectDoor(d) => writes(cmd, "door_id"@, opt_id_out(d)),
            CommandView::ChangeDoorName(d, t) => writes(cmd, "door_id"@, JsonOutView::UInt(d as u64)) && writes(cmd, "name"@, JsonOutView::Str(t)),
            CommandView::ChangeDoorNotes(d, t) => writes(cmd, "door_id"@, JsonOutView::UInt(d as u64)) && writes(cmd, "notes"@, JsonOutView::Str(t)),
            CommandView::ChangeDoorLeadsTo(d, c) => writes(cmd, "door_id"@, JsonOutView::UInt(d as u64)) && writes(cmd, "chamber_id"@, opt_id_out(c)),
            CommandView::ChangeDoorHidden(d, h) => writes(cmd, "door_id"@, JsonOutView::UInt(d as u64)) && writes(cmd, "hidden"@, JsonOutView::Bool(h)),
            CommandView::DeleteDoor(d) => writes(cmd, "door_id"@, JsonOutView::UInt(d as u64)),
            CommandView::ChangeDungeonName(t) => writes(cmd, "name"@, JsonOutView::Str(t)),
            CommandView::ChangeDungeonNotes(t) => writes(cmd, "notes"@, JsonOutView::Str(t)),
            CommandView::AddObject(p, part_of) => writes(cmd, "x"@, JsonOutView::Int(p.x as i64)) && writes(cmd, "y"@, JsonOutView::Int(p.y as i64)) && writes(cmd, "part_of"@, opt_id_out(part_of)),
            CommandView::SelectObject(o) => writes(cmd, "object_id"@, opt_id_out(o)),
            CommandView::DeleteObject(o) => writes(cmd, "object_id"@, JsonOutView::UInt(o as u64)),
            CommandView::ChangeObjectName(o, t) => writes(cmd, "object_id"@, JsonOutView::UInt(o as u64)) && writes(cmd, "name"@, JsonOutView::Str(t)),
            CommandView::ChangeObjectNotes(o, t) => writes(cmd, "object_id"@, JsonOutView::UInt(o as u64)) && writes(cmd, "notes"@, JsonOutView::Str(t)),
            CommandView::ChangeObjectHidden(o, h) => writes(cmd, "object_id"@, JsonOutView::UInt(o as u64)) && writes(cmd, "hidden"@, JsonOutView::Bool(h)),
            CommandView::ChangeObjectStyle(o, st) => writes(cmd, "object_id"@, JsonOutView::UInt(o as u64)) && writes(cmd, "style"@, JsonOutView::Str(style_name(st))),
        },
{
    lemma_record_literals();
    reveal_with_fuel(first_index, 5);
}

/// How a saved command on chambers or a new door is read from its fields,
/// whatever wrote them: each part comes from the field of its name (a split
/// wall's corner from "x" and "y"), and a missing field is an error.
#[verifier::spinoff_prover]
#[verifier::rlimit(50)]
pub proof fn lemma_read_fields_chambers(d: JsonDocView)
    ensures
        parse_record("SelectChamber"@, Some(d)) == Ok::<Option<CommandView>, LoadError>(Some(CommandView::SelectChamber(match u64_field(d, "chamber_id"@) { Some(x) => Some(x as u32), None => None }))),
        parse_record("SelectDoor"@, Some(d)) == Ok::<Option<CommandView>, LoadError>(Some(CommandView::SelectDoor(match u64_field(d, "door_id"@) { Some(x) => Some(x as u32), None => None }))),
        parse_record("SelectObject"@, Some(d)) == Ok::<Option<CommandView>, LoadError>(Some(CommandView::SelectObject(match u64_field(d, "object_id"@) { Some(x) => Some(x as u32), None => None }))),
        u64_field(d, "chamber_id"@) matches Some(c) ==> i64_field(d, "x"@) matches Some(x) ==> i64_field(d, "y"@) matches Some(y) ==> parse_record("AddVertexToChamber"@, Some(d)) == Ok::<Option<CommandView>, LoadError>(Some(CommandView::AddVertexToChamber(c as u32, Vec2 { x: x as i32, y: y as i32 }))),
        (u64_field(d, "chamber_id"@) is None || i64_field(d, "x"@) is None || i64_field(d, "y"@) is None) ==> parse_record("AddVertexToChamber"@, Some(d)) == Err::<Option<CommandView>, LoadError>(LoadError::BadField),
        u64_field(d, "chamber_id"@) matches Some(c) ==> str_field(d, "name"@) matches Some(t) ==> parse_record("ChangeChamberName"@, Some(d)) == Ok::<Option<CommandView>, LoadError>(Some(CommandView::ChangeChamberName(c as u32, t))),
        (u64_field(d, "chamber_id"@) is None || str_field(d, "name"@) is None) ==> parse_record("ChangeChamberName"@, Some(d)) == Err::<Option<CommandView>, LoadError>(LoadError::BadField),
        u64_field(d, "chamber_id"@) matches Some(c) ==> str_field(d, "notes"@) matches Some(t) ==> parse_record("ChangeChamberNotes"@, Some(d)) == Ok::<Option<CommandView>, LoadError>(Some(CommandView::ChangeChamberNotes(c as u32, t))),
        (u64_field(d, "chamber_id"@) is None || str_field(d, "notes"@) is None) ==> parse_record("ChangeChamberNotes"@, Some(d)) == Err::<Option<CommandView>, LoadError>(LoadError::BadField),
        u64_field(d, "chamber_id"@) matches Some(c) ==> bool_field(d, "hidden"@) matches Some(h) ==> parse_record("ChangeChamberHidden"@, Some(d)) == Ok::<Option<CommandView>, LoadError>(Some(CommandView::ChangeChamberHidden(c as u32, h))),
        (u64_field(d, "chamber_id"@) is None || bool_field(d, "hidden"@) is None) ==> parse_record("ChangeChamberHidden"@, Some(d)) == Err::<Option<CommandView>, LoadError>(LoadError::BadField),
        u64_field(d, "chamber_id"@) matches Some(c) ==> u64_field(d, "wall_id"@) matches Some(w) ==> i64_field(d, "x"@) matches Some(x) ==> i64_field(d, "y"@) matches Some(y) ==> parse_record("SplitWall"@, Some(d)) == Ok::<Option<CommandView>, LoadError>(Some(CommandView::SplitWall(c as u32, w as u32, Vec2 { x: x as i32, y: y as i32 }))),
        (u64_field(d, "chamber_id"@) is None || u64_field(d, "wall_id"@) is None || i64_field(d, "x"@) is None || i64_field(d, "y"@) is None) ==> parse_record("SplitWall"@, Some(d)) == Err::<Option<CommandView>, LoadError>(LoadError::BadField),
        u64_field(d, "chamber_id"@) matches Some(c) ==> u64_field(d, "wall_id"@) matches Some(w) ==> parse_record("CollapseWall"@, Some(d)) == Ok::<Option<CommandView>, LoadError>(Some(CommandView::CollapseWall(c as u32, w as u32))),
        (u64_field(d, "chamber_id"@) is None || u64_field(d, "wall_id"@) is None) ==> parse_record("CollapseWall"@, Some(d)) == Err::<Option<CommandView>, LoadError>(LoadError::BadField),
        u64_field(d, "chamber_id"@) matches Some(c) ==> parse_record("DeleteChamber"@, Some(d)) == Ok::<Option<CommandView>, LoadError>(Some(CommandView::DeleteChamber(c as u32))),
        (u64_field(d, "chamber_id"@) is None) ==> parse_record("DeleteChamber"@, Some(d)) == Err::<Option<CommandView>, LoadError>(LoadError::BadField),
        u64_field(d, "part_of"@) matches Some(p) ==> f64_field(d, "width"@) matches Some(w) ==> u64_field(d, "on_wall"@) matches Some(o) ==> f64_field(d, "position"@) matches Some(q) ==> parse_record("AddDoor"@, Some(d)) == Ok::<Option<CommandView>, LoadError>(Some(CommandView::AddDoor(DoorView { id: 1, name: Seq::empty(), notes: Seq::empty(), hidden: false, part_of: p as u32, leads_to: None, width_bits: w, on_wall: o as u32, position_bits: q }))),
        (u64_field(d, "part_of"@) is None || f64_field(d, "width"@) is None || u64_field(d, "on_wall"@) is None || f64_field(d, "position"@) is None) ==> parse_record("AddDoor"@, Some(d)) == Err::<Option<CommandView>, LoadError>(LoadError::BadField),
{
    lemma_record_literals();
}

/// How the other saved commands are read from their fields, whatever wrote
/// them: each part comes from the field of its name, and a missing field is
/// an error.
#[verifier::spinoff_prover]
#[verifier::rlimit(50)]
pub proof fn lemma_read_fields_others(d: JsonDocView)
    ensures
        u64_field(d, "door_id"@) matches Some(i) ==> str_field(d, "name"@) matches Some(t) ==> parse_record("ChangeDoorName"@, Some(d)) == Ok::<Option<CommandView>, LoadError>(Some(CommandView::ChangeDoorName(i as u32, t))),
        (u64_field(d, "door_id"@) is None || str_field(d, "name"@) is None) ==> parse_record("ChangeDoorName"@, Some(d)) == Err::<Option<CommandView>, LoadError>(LoadError::BadField),
        u64_field(d, "door_id"@) matches Some(i) ==> str_field(d, "notes"@) matches Some(t) ==> parse_record("ChangeDoorNotes"@, Some(d)) == Ok::<Option<CommandView>, LoadError>(Some(CommandView::ChangeDoorNotes(i as u32, t))),
        (u64_field(d, "door_id"@) is None || str_field(d, "notes"@) is None) ==> parse_record("ChangeDoorNotes"@, Some(d)) == Err::<Option<CommandView>, LoadError>(LoadError::BadField),
        u64_field(d, "door_id"@) matches Some(i) ==> parse_record("ChangeDoorLeadsTo"@, Some(d)) == Ok::<Option<CommandView>, LoadError>(Some(CommandView::ChangeDoorLeadsTo(i as u32, match u64_field(d, "chamber_id"@) { Some(x) => Some(x as u32), None => None }))),
        (u64_field(d, "door_id"@) is None) ==> parse_record("ChangeDoorLeadsTo"@, Some(d)) == Err::<Option<CommandView>, LoadError>(LoadError::BadField),
        u64_field(d, "door_id"@) matches Some(i) ==> bool_field(d, "hidden"@) matches Some(h) ==> parse_record("ChangeDoorHidden"@, Some(d)) == Ok::<Option<CommandView>, LoadError>(Some(CommandView::ChangeDoorHidden(i as u32, h))),
        (u64_field(d, "door_id"@) is None || bool_field(d, "hidden"@) is None) ==> parse_record("ChangeDoorHidden"@, Some(d)) == Err::<Option<CommandView>, LoadError>(LoadError::BadField),
        u64_field(d, "door_id"@) matches Some(i) ==> parse_record("DeleteDoor"@, Some(d)) == Ok::<Option<CommandView>, LoadError>(Some(CommandView::DeleteDoor(i as u32))),
        (u64_field(d, "door_id"@) is None) ==> parse_record("DeleteDoor"@, Some(d)) == Err::<Option<CommandView>, LoadError>(LoadError::BadField),
        i64_field(d, "x"@) matches Some(x) ==> i64_field(d, "y"@) matches Some(y) ==> parse_record("AddObject"@, Some(d)) == Ok::<Option<CommandView>, LoadError>(Some(CommandView::AddObject(Vec2 { x: x as i32, y: y as i32 }, match u64_field(d, "part_of"@) { Some(c) => Some(c as u32), None => None }))),
        (i64_field(d, "x"@) is None || i64_field(d, "y"@) is None) ==> parse_record("AddObject"@, Some(d)) == Err::<Option<CommandView>, LoadError>(LoadError::BadField),
        str_field(d, "name"@) matches Some(t) ==> parse_record("ChangeDungeonName"@, Some(d)) == Ok::<Option<CommandView>, LoadError>(Some(CommandView::ChangeDungeonName(t))),
        (str_field(d, "name"@) is None) ==> parse_record("ChangeDungeonName"@, Some(d)) == Err::<Option<CommandView>, LoadError>(LoadError::BadField),
        str_field(d, "notes"@) matches Some(t) ==> parse_record("ChangeDungeonNotes"@, Some(d)) == Ok::<Option<CommandView>, LoadError>(Some(CommandView::ChangeDungeonNotes(t))),
        (str_field(d, "notes"@) is None) ==> parse_record("ChangeDungeonNotes"@, Some(d)) == Err::<Option<CommandView>, LoadError>(LoadError::BadField),
        u64_field(d, "object_id"@) matches Some(i) ==> parse_record("DeleteObject"@, Some(d)) == Ok::<Option<CommandView>, LoadError>(Some(CommandView::DeleteObject(i as u32))),
        (u64_field(d, "object_id"@) is None) ==> parse_record("DeleteObject"@, Some(d)) == Err::<Option<CommandView>, LoadError>(LoadError::BadField),
        u64_field(d, "object_id"@) matches Some(i) ==> str_field(d, "name"@) matches Some(t) ==> parse_record("ChangeObjectName"@, Some(d)) == Ok::<Option<CommandView>, LoadError>(Some(CommandView::ChangeObjectName(i as u32, t))),
        (u64_field(d, "object_id"@) is None || str_field(d, "name"@) is None) ==> parse_record("ChangeObjectName"@, Some(d)) == Err::<Option<CommandView>, LoadError>(LoadError::BadField),
        u64_field(d, "object_id"@) matches Some(i) ==> str_field(d, "notes"@) matches Some(t) ==> parse_record("ChangeObjectNotes"@, Some(d)) == Ok::<Option<CommandView>, LoadError>(Some(CommandView::ChangeObjectNotes(i as u32, t))),
        (u64_field(d, "object_id"@) is None || str_field(d, "notes"@) is None) ==> parse_record("ChangeObjectNotes"@, Some(d)) == Err::<Option<CommandView>, LoadError>(LoadError::BadField),
        u64_field(d, "object_id"@) matches Some(i) ==> bool_field(d, "hidden"@) matches Some(h) ==> parse_record("ChangeObjectHidden"@, Some(d)) == Ok::<Option<CommandView>, LoadError>(Some(CommandView::ChangeObjectHidden(i as u32, h))),
        (u64_field(d, "object_id"@) is None || bool_field(d, "hidden"@) is None) ==> parse_record("ChangeObjectHidden"@, Some(d)) == Err::<Option<CommandView>, LoadError>(LoadError::BadField),
{
    lemma_record_literals();
}

/// Reading back the arguments of a saved command gives the command again
/// (a new door reduced to what is saved of it).
pub proof fn lemma_record_roundtrip(c: CommandView, read: JsonDocView)
    requires
        reads_back(record_fields(c), read),
    ensures
        parse_record(record_name(c), Some(read)) matches Ok(Some(c2)) && reloads_as(c, c2),
{
    match c {
        CommandView::AddChamber | CommandView::ChangeMode(..) | CommandView::SelectChamber(..)
        | CommandView::AddVertexToChamber(..) | CommandView::ChangeChamberName(..)
        | CommandView::ChangeChamberNotes(..) | CommandView::ChangeChamberHidden(..)
        | CommandView::SplitWall(..) | CommandView::CollapseWall(..)
        | CommandView::DeleteChamber(..) | CommandView::AddDoor(..)
        | CommandView::SelectDoor(..) => {
            lemma_record_roundtrip_chambers(c, read)
        },
        _ => lemma_record_roundtrip_others(c, read),
    }
}

/// A name without spaces, the separator and any arguments split back into
/// that name and those arguments.
#[verifier::spinoff_prover]
pub proof fn lemma_split_line_roundtrip(name: Seq<char>, data: Seq<char>)
    requires
        forall|i: int| 0 <= i < name.len() ==> name[i] != ' ',
    ensures
        split_line(name + separator() + data) == Some((name, data)),
{
    let l = name + separator() + data;
    let n = name.len() as int;
    assert(l.subrange(n, n + 4) =~= separator());
    assert(separator_at(l, n));
    assert forall|j: int| 0 <= j < n implies !separator_at(l, j) by {
        lemma_no_separator_in_name(name, data, j);
    }
    lemma_first_separator(l, n);
    let k = choose|k: int| separator_at(l, k) && forall|j: int| 0 <= j < k ==> !separator_at(l, j);
    assert(k == n) by {
        if k < n {
            lemma_no_separator_in_name(name, data, k);
        }
        if k > n {
            assert(!separator_at(l, n));
        }
    }
    assert(l.take(n) =~= name);
    assert(l.skip(n + 4) =~= data);
}

/// The separator does not start inside a name without spaces.
proof fn lemma_no_separator_in_name(name: Seq<char>, data: Seq<char>, j: int)
    requires
        forall|i: int| 0 <= i < name.len() ==> name[i] != ' ',
        0 <= j < name.len(),
    ensures
        !separator_at(name + separator() + data, j),
{
    let l = name + separator() + data;
    if separator_at(l, j) {
        assert(l.subrange(j, j + 4)[0] == l[j]);
        assert(l[j] == name[j]);
        assert(separator()[0] == ' ');
    }
}

/// The names of all commands are free of spaces and line breaks.
pub proof fn lemma_record_names_plain(c: CommandView)
    ensures
        plain(record_name(c)),
{
    lemma_record_literals();
}

/// A saved line reads back as its command: the line written for a command,
/// with arguments `written_args` that serde_json reads back as the fields
/// that were written, is read back as what the command becomes on reloading.
#[verifier::spinoff_prover]
pub proof fn lemma_save_load_roundtrip(c: CommandView, written_args: Seq<char>)
    requires
        json_read(written_args) matches Some(read) && reads_back(record_fields(c), read),
    ensures
        load_line(record_name(c) + separator() + written_args) matches Ok(Some(c2)) && reloads_as(
            c,
            c2,
        ),
{
    reveal(load_line);
    let read = json_read(written_args)->0;
    lemma_record_names_plain(c);
    lemma_split_line_roundtrip(record_name(c), written_args);
    lemma_record_roundtrip(c, read);
}

/// Holds for a line feed.
pub open spec fn is_line_feed() -> spec_fn(char) -> bool {
    |c: char| c == '\n'
}

/// A line without the carriage return that ends it, if any.
pub open spec fn without_cr(l: Seq<char>) -> Seq<char> {
    if l.len() > 0 && l.last() == '\r' {
        l.drop_last()
    } else {
        l
    }
}

/// The lines of a text as `str::lines` gives them: split at each line feed,
/// a carriage return right before a line feed dropped, and no empty line
/// after a final line feed.
pub open spec fn text_lines(t: Seq<char>) -> Seq<Seq<char>>
    decreases t.len(),
{
    if t.len() == 0 {
        Seq::empty()
    } else {
        let i = first_index(t, is_line_feed());
        if i < 0 {
            seq![t]
        } else {
            proof {
                lemma_first_index(t, is_line_feed());
            }
            seq![without_cr(t.take(i))] + text_lines(t.skip(i + 1))
        }
    }
}

/// The commands that the lines `ls` of a save file stand for, in order:
/// lines that name no command are skipped, and the first line whose
/// arguments do not fit gives its error.
pub open spec fn loaded(ls: Seq<Seq<char>>) -> Result<Seq<CommandView>, LoadError>
    decreases ls.len(),
{
    if ls.len() == 0 {
        Ok(Seq::empty())
    } else {
        match loaded(ls.drop_last()) {
            Err(e) => Err(e),
            Ok(cs) => match load_line(ls.last()) {
                Err(e) => Err(e),
                Ok(None) => Ok(cs),
                Ok(Some(c)) => Ok(cs.push(c)),
            },
        }
    }
}

/// The lines of a text that ends with a line feed, followed by more text,
/// are the lines of the one followed by those of the other.
pub proof fn lemma_text_lines_append(a: Seq<char>, b: Seq<char>)
    requires
        a.len() == 0 || a.last() == '\n',
    ensures
        text_lines(a + b) == text_lines(a) + text_lines(b),
    decreases a.len(),
{
    if a.len() == 0 {
        assert(a + b =~= b);
        assert(text_lines(a) + text_lines(b) =~= text_lines(b));
    } else {
        let p = is_line_feed();
        lemma_first_index(a, p);
        assert(p(a[a.len() - 1]));
        let i = first_index(a, p);
        assert(i >= 0);
        let ab = a + b;
        assert(ab[i] == a[i]);
        assert forall|j: int| 0 <= j < i implies !p(ab[j]) by {
            assert(ab[j] == a[j]);
        }
        lemma_first_index_at(ab, p, i);
        assert(ab.take(i) =~= a.take(i));
        let rest = a.skip(i + 1);
        assert(ab.skip(i + 1) =~= rest + b);
        if rest.len() > 0 {
            assert(rest.last() == a.last());
        }
        lemma_text_lines_append(rest, b);
        assert(text_lines(ab) =~= text_lines(a) + text_lines(b));
    }
}

/// A line without line breaks, followed by a line feed, is one line.
pub proof fn lemma_text_lines_line(x: Seq<char>)
    requires
        no_line_breaks(x),
    ensures
        text_lines(x + seq!['\n']) == seq![x],
{
    let t = x + seq!['\n'];
    let p = is_line_feed();
    let n = x.len() as int;
    assert(p(t[n]));
    assert forall|j: int| 0 <= j < n implies !p(t[j]) by {
        assert(t[j] == x[j]);
    }
    lemma_first_index_at(t, p, n);
    assert(t.take(n) =~= x);
    assert(t.skip(n + 1) =~= Seq::<char>::empty());
    if n > 0 {
        assert(x.last() != '\r');
    }
    assert(without_cr(x) == x);
    assert(text_lines(Seq::<char>::empty()) == Seq::<Seq<char>>::empty());
    assert(text_lines(t) =~= seq![x]);
}

/// Once a line fails, lines after it change nothing.
pub proof fn lemma_loaded_err_extends(a: Seq<Seq<char>>, b: Seq<Seq<char>>)
    requires
        loaded(a) is Err,
    ensures
        loaded(a + b) == loaded(a),
    decreases b.len(),
{
    if b.len() == 0 {
        assert(a + b =~= a);
    } else {
        let ab = a + b;
        assert(ab.drop_last() =~= a + b.drop_last());
        lemma_loaded_err_extends(a, b.drop_last());
        assert(loaded(ab.drop_last()) is Err);
    }
}

/// The saved fields of a command have distinct names, and only a new door
/// saves doubles.
#[verifier::spinoff_prover]
#[verifier::rlimit(50)]
pub proof fn lemma_record_fields_writable(c: CommandView)
    ensures
        writable(record_fields(c)),
        !(c is AddDoor) ==> no_doubles(record_fields(c)),
{
    lemma_record_literals();
}

/// The arguments of a command as serde_json writes them, for every command
/// but a new door, whose arguments hold doubles; `None` for a new door.
pub fn args_text(cmd: &StateCommand) -> (r: Option<String>)
    ensures
        r is None <==> cmd@ is AddDoor,
        r matches Some(t) ==> {
            &&& t@ == json_write(record_fields(cmd@))
            &&& no_line_breaks(t@)
            &&& text_reads_back(record_fields(cmd@), t@)
        },
{
    if let StateCommand::AddDoor(_) = cmd {
        return None;
    }
    let (_, data) = command_record(cmd);
    proof {
        lemma_record_fields_writable(cmd@);
    }
    Some(json_text(&data))
}

/// A saved line without its line break: the command's name, the separator
/// and the written arguments.
pub open spec fn saved_line(c: CommandView, args: Seq<char>) -> Seq<char> {
    record_name(c) + separator() + args
}

/// The text saved for the first `n` commands of `cmds`, whose arguments are
/// written as `args`: one line per command, in order, each ended by a line
/// feed.
pub open spec fn saved_prefix(cmds: Seq<StateCommand>, args: Seq<String>, n: int) -> Seq<char>
    decreases n,
{
    if n <= 0 {
        Seq::empty()
    } else {
        saved_prefix(cmds, args, n - 1) + saved_line(cmds[n - 1]@, args[n - 1]@) + seq!['\n']
    }
}

/// The text of a save file for the commands `cmds` with arguments written
/// as `args`.
pub open spec fn saved_text(cmds: Seq<StateCommand>, args: Seq<String>) -> Seq<char> {
    saved_prefix(cmds, args, cmds.len() as int)
}

/// The written arguments of the first `n` commands have no line breaks and
/// serde_json reads each back as the fields that were written.
pub open spec fn args_read_back(cmds: Seq<StateCommand>, args: Seq<String>, n: int) -> bool {
    forall|i: int|
        #![trigger args[i]]
        0 <= i < n ==> no_line_breaks(args[i]@) && text_reads_back(record_fields(cmds[i]@), args[i]@)
}

/// `cs` is what the commands `cmds` become when saved and read back, one for
/// one and in order.
pub open spec fn reloads_all(cmds: Seq<StateCommand>, cs: Seq<CommandView>) -> bool {
    &&& cs.len() == cmds.len()
    &&& forall|i: int| 0 <= i < cs.len() ==> reloads_as(cmds[i]@, #[trigger] cs[i])
}

/// A plain name, the separator and arguments without line breaks make a line
/// without line breaks.
proof fn lemma_saved_line_unbroken(c: CommandView, args: Seq<char>)
    requires
        no_line_breaks(args),
    ensures
        no_line_breaks(saved_line(c, args)),
{
    lemma_record_names_plain(c);
    let l = saved_line(c, args);
    let n = record_name(c).len() as int;
    assert forall|i: int| 0 <= i < l.len() implies l[i] != '\n' && l[i] != '\r' by {
        if i < n {
            assert(l[i] == record_name(c)[i]);
        } else if i < n + 4 {
            assert(l[i] == separator()[i - n]);
        } else {
            assert(l[i] == args[i - n - 4]);
        }
    }
}

/// Saving one more command keeps the saved text read back as the commands
/// saved so far.
#[verifier::spinoff_prover]
#[verifier::rlimit(50)]
proof fn lemma_save_step(cmds: Seq<StateCommand>, args: Seq<String>, i: int)
    requires
        0 <= i < cmds.len(),
        args.len() == cmds.len(),
        saved_prefix(cmds, args, i).len() == 0 || saved_prefix(cmds, args, i).last() == '\n',
        args_read_back(cmds, args, i) ==> (loaded(text_lines(saved_prefix(cmds, args, i))) matches Ok(
            cs,
        ) && reloads_all(cmds.take(i), cs)),
    ensures
        saved_prefix(cmds, args, i + 1).last() == '\n',
        args_read_back(cmds, args, i + 1) ==> (loaded(text_lines(saved_prefix(cmds, args, i + 1)))
            matches Ok(cs) && reloads_all(cmds.take(i + 1), cs)),
{
    let before = saved_prefix(cmds, args, i);
    let c = cmds[i]@;
    let a = args[i]@;
    let x = saved_line(c, a);
    let after = saved_prefix(cmds, args, i + 1);
    assert(after == before + x + seq!['\n']);
    assert(before + x + seq!['\n'] =~= before + (x + seq!['\n']));
    if args_read_back(cmds, args, i + 1) {
        assert(args_read_back(cmds, args, i));
        assert(no_line_breaks(args[i]@) && text_reads_back(record_fields(c), a));
        let cs = loaded(text_lines(before))->Ok_0;
        lemma_text_lines_append(before, x + seq!['\n']);
        lemma_saved_line_unbroken(c, a);
        lemma_text_lines_line(x);
        let ls = text_lines(before).push(x);
        assert(text_lines(after) =~= ls);
        lemma_save_load_roundtrip(c, a);
        let c2 = load_line(x)->Ok_0->0;
        assert(ls.drop_last() =~= text_lines(before));
        assert(loaded(ls) == Ok::<Seq<CommandView>, LoadError>(cs.push(c2)));
        assert(cmds.take(i + 1) =~= cmds.take(i).push(cmds[i]));
        assert(reloads_all(cmds.take(i + 1), cs.push(c2)));
    }
}

/// The text of a save file: for each command, its name, ` >> `, its written
/// arguments `args[i]` and a line feed. When serde_json reads every written
/// argument text back as the fields that were written, reading the text
/// back line by line gives the commands again, one for one and in order, a
/// new door reduced to its chamber, wall, width and position.
pub fn save_text(cmds: &Vec<StateCommand>, args: &Vec<String>) -> (r: String)
    requires
        args@.len() == cmds@.len(),
    ensures
        r@ == saved_text(cmds@, args@),
        args_read_back(cmds@, args@, cmds@.len() as int) ==> (loaded(text_lines(r@)) matches Ok(
            cs,
        ) && reloads_all(cmds@, cs)),
{
    let mut text = String::new();
    let mut i: usize = 0;
    while i < cmds.len()
        invariant
            i <= cmds@.len(),
            args@.len() == cmds@.len(),
            text@ == saved_prefix(cmds@, args@, i as int),
            text@.len() == 0 || text@.last() == '\n',
            args_read_back(cmds@, args@, i as int) ==> (loaded(text_lines(text@)) matches Ok(cs)
                && reloads_all(cmds@.take(i as int), cs)),
        decreases cmds@.len() - i,
    {
        let (name, _) = command_record(&cmds[i]);
        let line = record_line(name.as_str(), args[i].as_str());
        text.append(line.as_str());
        proof {
            assert(line@ =~= saved_line(cmds@[i as int]@, args@[i as int]@) + seq!['\n']);
            assert(text@ =~= saved_prefix(cmds@, args@, i + 1));
            lemma_save_step(cmds@, args@, i as int);
        }
        i += 1;
    }
    assert(cmds@.take(i as int) =~= cmds@);
    text
}

/// The characters of `text`.
fn chars_of(text: &str) -> (r: Vec<char>)
    ensures
        r@ == text@,
{
    broadcast use vstd::string::axiom_spec_iter, vstd::string::next_postcondition;

    let mut r: Vec<char> = Vec::new();
    let mut it = text.chars();
    loop
        invariant
            r@ + it.remaining() == text@,
            it.obeys_prophetic_iter_laws(),
        ensures
            r@ == text@,
        decreases text@.len() - r@.len(),
    {
        match it.next() {
            Some(ch) => {
                assert(r@.push(ch) + it.remaining() =~= text@);
                r.push(ch);
            },
            None => {
                assert(r@ =~= text@);
                break;
            },
        }
    }
    r
}

/// The line of `t` that starts at `start` and ends at `end`, a line feed or
/// the end of the text, and where the lines after it start.
pub open spec fn line_at(t: Seq<char>, start: int, end: int) -> (Seq<char>, int) {
    if end < t.len() {
        (without_cr(t.subrange(start, end)), end + 1)
    } else {
        (t.subrange(start, end), t.len() as int)
    }
}

/// The lines of the text from `start` on are the line that ends at the next
/// line feed (or at the end of the text), then the lines after it.
proof fn lemma_lines_step(t: Seq<char>, start: int, end: int)
    requires
        0 <= start < t.len(),
        start <= end <= t.len(),
        forall|k: int| start <= k < end ==> t[k] != '\n',
        end < t.len() ==> t[end] == '\n',
    ensures
        text_lines(t.skip(start)) == seq![line_at(t, start, end).0] + text_lines(
            t.skip(line_at(t, start, end).1),
        ),
{
    let u = t.skip(start);
    let p = is_line_feed();
    let e = end - start;
    assert forall|k: int| 0 <= k < e implies !p(u[k]) by {
        assert(u[k] == t[start + k]);
    }
    if end < t.len() {
        assert(p(u[e]));
        lemma_first_index_at(u, p, e);
        assert(u.take(e) =~= t.subrange(start, end));
        assert(u.skip(e + 1) =~= t.skip(end + 1));
    } else {
        lemma_first_index(u, p);
        assert(u =~= t.subrange(start, end));
        assert(t.skip(t.len() as int) =~= Seq::<char>::empty());
        assert(text_lines(Seq::<char>::empty()) == Seq::<Seq<char>>::empty());
        assert(seq![u] + Seq::<Seq<char>>::empty() =~= seq![u]);
    }
}

/// Reads the text of a save file back as commands: each line as
/// `line_to_command` reads it, in order; lines that name no command are
/// skipped, and the first line whose arguments do not fit gives its error.
pub fn load_text(text: &str) -> (r: Result<Vec<StateCommand>, LoadError>)
    ensures
        r matches Ok(v) ==> loaded(text_lines(text@)) == Ok::<Seq<CommandView>, LoadError>(
            v@.map_values(|c: StateCommand| c@),
        ),
        r matches Err(e) ==> loaded(text_lines(text@)) == Err::<Seq<CommandView>, LoadError>(e),
{
    let chars = chars_of(text);
    let n = chars.len();
    let mut cmds: Vec<StateCommand> = Vec::new();
    let mut start: usize = 0;
    let ghost mut done: Seq<Seq<char>> = Seq::empty();
    assert(text@.skip(0) =~= text@);
    assert(loaded(done) == Ok::<Seq<CommandView>, LoadError>(Seq::empty()));
    assert(cmds@.map_values(|c: StateCommand| c@) =~= Seq::<CommandView>::empty());
    while start < n
        invariant
            start <= n,
            n == text@.len(),
            chars@ == text@,
            text_lines(text@) == done + text_lines(text@.skip(start as int)),
            loaded(done) == Ok::<Seq<CommandView>, LoadError>(
                cmds@.map_values(|c: StateCommand| c@),
            ),
        decreases n - start,
    {
        let mut end = start;
        while end < n && chars[end] != '\n'
            invariant
                start <= end <= n,
                n == chars@.len(),
                forall|k: int| start <= k < end ==> chars@[k] != '\n',
            decreases n - end,
        {
            end += 1;
        }
        let stop = if end < n && end > start && chars[end - 1] == '\r' {
            end - 1
        } else {
            end
        };
        let line = text.substring_char(start, stop);
        let next = if end < n {
            end + 1
        } else {
            n
        };
        proof {
            lemma_lines_step(text@, start as int, end as int);
            assert(line@ =~= line_at(text@, start as int, end as int).0);
            assert(next == line_at(text@, start as int, end as int).1);
            assert(done + (seq![line@] + text_lines(text@.skip(next as int))) =~= done.push(line@)
                + text_lines(text@.skip(next as int)));
            let old_done = done;
            done = done.push(line@);
            assert(done.drop_last() =~= old_done);
            assert(done.last() == line@);
        }
        let ghost prev = cmds@.map_values(|c: StateCommand| c@);
        match line_to_command(line) {
            Ok(Some(c)) => {
                let ghost cv = c@;
                cmds.push(c);
                assert(cmds@.map_values(|c: StateCommand| c@) =~= prev.push(cv));
                assert(loaded(done) == Ok::<Seq<CommandView>, LoadError>(prev.push(cv)));
            },
            Ok(None) => {
                assert(loaded(done) == Ok::<Seq<CommandView>, LoadError>(prev));
            },
            Err(e) => {
                proof {
                    assert(loaded(done) == Err::<Seq<CommandView>, LoadError>(e));
                    lemma_loaded_err_extends(done, text_lines(text@.skip(next as int)));
                }
                return Err(e);
            },
        }
        start = next;
    }
    assert(text@.skip(n as int) =~= Seq::<char>::empty());
    assert(done + Seq::<Seq<char>>::empty() =~= done);
    Ok(cmds)
}

} // verus!
