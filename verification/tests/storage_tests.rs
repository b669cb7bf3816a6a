use dungeon_planner::common::Vec2;
use dungeon_planner::door::Door;
use dungeon_planner::object::ObjectStyle;
use dungeon_planner::state::edit_mode::EditMode;
use dungeon_planner::state::StateCommand;
use dungeon_planner::storage::{
    command_from_record, command_record, get_bool, get_f64_bits, get_i64, get_str, get_u64,
    args_text, line_to_command, load_text, record_line, save_text, split_record, JsonDoc, JsonNumber,
    JsonOut, JsonValue, LoadError, RecordData,
};

/// Writes the arguments of a new door as serde_json writes them (they hold
/// doubles).
fn door_args(data: &RecordData) -> String {
    match data {
        RecordData::Null => serde_json::Value::Null.to_string(),
        RecordData::Object(fields) => {
            let mut m = serde_json::Map::new();
            for (k, v) in fields {
                let value = match v {
                    JsonOut::Null => serde_json::Value::Null,
                    JsonOut::UInt(u) => serde_json::Value::from(*u),
                    JsonOut::Int(i) => serde_json::Value::from(*i),
                    JsonOut::Float(b) => serde_json::Value::from(f64::from_bits(*b)),
                    JsonOut::Bool(b) => serde_json::Value::Bool(*b),
                    JsonOut::Str(s) => serde_json::Value::String(s.clone()),
                };
                m.insert(k.clone(), value);
            }
            serde_json::Value::Object(m).to_string()
        }
    }
}

fn write_args(cmd: &StateCommand) -> String {
    match args_text(cmd) {
        Some(t) => t,
        None => door_args(&command_record(cmd).1),
    }
}

fn save_file(cmds: &Vec<StateCommand>) -> String {
    let args: Vec<String> = cmds.iter().map(write_args).collect();
    save_text(cmds, &args)
}

fn save_line(cmd: &StateCommand) -> String {
    let (name, _) = command_record(cmd);
    record_line(&name, &write_args(cmd))
}

fn reload(cmd: &StateCommand) -> String {
    let line = save_line(cmd);
    let text = line.strip_suffix('\n').unwrap();
    format!("{:?}", line_to_command(text).unwrap().unwrap())
}

fn all_commands() -> Vec<StateCommand> {
    vec![
        StateCommand::AddChamber,
        StateCommand::ChangeMode(EditMode::RemoveVertex),
        StateCommand::SelectChamber(Some(3)),
        StateCommand::SelectChamber(None),
        StateCommand::AddVertexToChamber(2, Vec2 { x: -40, y: 75 }),
        StateCommand::ChangeChamberName(2, "Great Hall".to_owned()),
        StateCommand::ChangeChamberNotes(2, "Smells of \"old\" cheese\nand » dust".to_owned()),
        StateCommand::ChangeChamberHidden(2, true),
        StateCommand::SplitWall(2, 7, Vec2 { x: 10, y: -20 }),
        StateCommand::CollapseWall(2, 7),
        StateCommand::DeleteChamber(4),
        StateCommand::SelectDoor(Some(9)),
        StateCommand::SelectDoor(None),
        StateCommand::ChangeDoorName(9, "Gate".to_owned()),
        StateCommand::ChangeDoorNotes(9, "locked".to_owned()),
        StateCommand::ChangeDoorLeadsTo(9, Some(1)),
        StateCommand::ChangeDoorLeadsTo(9, None),
        StateCommand::ChangeDoorHidden(9, false),
        StateCommand::DeleteDoor(9),
        StateCommand::ChangeDungeonName("Crypt".to_owned()),
        StateCommand::ChangeDungeonNotes("".to_owned()),
        StateCommand::AddObject(Vec2 { x: 5, y: 6 }, Some(2)),
        StateCommand::AddObject(Vec2 { x: -5, y: 0 }, None),
        StateCommand::SelectObject(Some(1)),
        StateCommand::SelectObject(None),
        StateCommand::DeleteObject(1),
        StateCommand::ChangeObjectName(1, "Chest".to_owned()),
        StateCommand::ChangeObjectNotes(1, "gold".to_owned()),
        StateCommand::ChangeObjectHidden(1, true),
        StateCommand::ChangeObjectStyle(1, ObjectStyle::Stairs),
    ]
}

#[test]
fn every_command_reloads_as_itself() {
    for cmd in all_commands() {
        assert_eq!(reload(&cmd), format!("{:?}", cmd));
    }
}

#[test]
fn a_new_door_reloads_with_its_placement_only() {
    let mut door = Door::new(2, Some(3), (1.5f64).to_bits(), 4, (0.25f64).to_bits());
    door.id = 8;
    door.name = "Gate".to_owned();
    let reloaded = reload(&StateCommand::AddDoor(door));
    let expected = StateCommand::AddDoor(Door::new(2, None, (1.5f64).to_bits(), 4, (0.25f64).to_bits()));
    assert_eq!(reloaded, format!("{:?}", expected));
}

#[test]
fn saved_lines_have_name_separator_and_arguments() {
    assert_eq!(save_line(&StateCommand::AddChamber), "AddChamber >> null\n");
    assert_eq!(
        save_line(&StateCommand::SelectChamber(Some(3))),
        "SelectChamber >> {\"chamber_id\":3}\n"
    );
    assert_eq!(
        save_line(&StateCommand::ChangeMode(EditMode::AddDoor)),
        "ChangeMode >> {\"mode\":\"AddDoor\"}\n"
    );
    assert_eq!(
        save_line(&StateCommand::AddVertexToChamber(1, Vec2 { x: -2, y: 3 })),
        "AddVertexToChamber >> {\"chamber_id\":1,\"x\":-2,\"y\":3}\n"
    );
    assert_eq!(record_line("A", "b"), "A >> b\n");
}

#[test]
fn record_names_and_fields() {
    let (name, data) = command_record(&StateCommand::ChangeObjectStyle(4, ObjectStyle::Round));
    assert_eq!(name, "ChangeObjectStyle");
    match data {
        RecordData::Object(fs) => {
            assert_eq!(fs.len(), 2);
            assert_eq!(fs[0].0, "object_id");
            assert!(matches!(fs[0].1, JsonOut::UInt(4)));
            assert_eq!(fs[1].0, "style");
            assert!(matches!(&fs[1].1, JsonOut::Str(s) if s == "Round"));
        }
        RecordData::Null => panic!("arguments expected"),
    }
    let (name, data) = command_record(&StateCommand::SelectDoor(None));
    assert_eq!(name, "SelectDoor");
    match data {
        RecordData::Object(fs) => {
            assert_eq!(fs.len(), 1);
            assert!(matches!(fs[0].1, JsonOut::Null));
        }
        RecordData::Null => panic!("arguments expected"),
    }
    let (_, data) = command_record(&StateCommand::AddChamber);
    assert!(matches!(data, RecordData::Null));
}

#[test]
fn split_record_at_first_separator() {
    assert_eq!(split_record("A >> b >> c"), Some(("A".to_owned(), "b >> c".to_owned())));
    assert_eq!(split_record(" >> "), Some(("".to_owned(), "".to_owned())));
    assert_eq!(split_record("AddChamber>>null"), None);
    assert_eq!(split_record(""), None);
    assert_eq!(split_record("Änderung >> {}"), Some(("Änderung".to_owned(), "{}".to_owned())));
}

#[test]
fn lines_read_back() {
    assert_eq!(
        format!("{:?}", line_to_command("SelectChamber >> {\"chamber_id\": 12}")),
        format!("{:?}", Ok::<_, LoadError>(Some(StateCommand::SelectChamber(Some(12)))))
    );
    assert_eq!(
        format!("{:?}", line_to_command("SelectDoor >> {}")),
        format!("{:?}", Ok::<_, LoadError>(Some(StateCommand::SelectDoor(None))))
    );
    assert_eq!(
        format!("{:?}", line_to_command("ChangeMode >> {\"mode\": \"Select\"}")),
        format!("{:?}", Ok::<_, LoadError>(Some(StateCommand::ChangeMode(EditMode::Select))))
    );
    assert_eq!(
        format!("{:?}", line_to_command("AddChamber >> not json")),
        format!("{:?}", Ok::<_, LoadError>(Some(StateCommand::AddChamber)))
    );
    assert_eq!(
        format!(
            "{:?}",
            line_to_command("AddObject >> {\"x\": 1, \"y\": -1, \"part_of\": null}")
        ),
        format!(
            "{:?}",
            Ok::<_, LoadError>(Some(StateCommand::AddObject(Vec2 { x: 1, y: -1 }, None)))
        )
    );
}

#[test]
fn unknown_lines_are_skipped() {
    assert!(matches!(line_to_command("no separator here"), Ok(None)));
    assert!(matches!(line_to_command("Teleport >> {\"x\": 1}"), Ok(None)));
    assert!(matches!(line_to_command(""), Ok(None)));
}

#[test]
fn each_load_error() {
    assert!(matches!(line_to_command("DeleteDoor >> {broken"), Err(LoadError::InvalidJson)));
    assert!(matches!(line_to_command("DeleteDoor >> {}"), Err(LoadError::BadField)));
    assert!(matches!(line_to_command("DeleteDoor >> [1]"), Err(LoadError::BadField)));
    assert!(matches!(
        line_to_command("ChangeDoorHidden >> {\"door_id\": 1, \"hidden\": \"yes\"}"),
        Err(LoadError::BadField)
    ));
    assert!(matches!(
        line_to_command("DeleteChamber >> {\"chamber_id\": -1}"),
        Err(LoadError::BadField)
    ));
    assert!(matches!(
        line_to_command("ChangeMode >> {\"mode\": \"Fly\"}"),
        Err(LoadError::UnknownMode)
    ));
    assert!(matches!(
        line_to_command("ChangeObjectStyle >> {\"object_id\": 1, \"style\": \"Lamp\"}"),
        Err(LoadError::UnknownStyle)
    ));
}

#[test]
fn numbers_as_serde_reads_them() {
    let line = "AddDoor >> {\"part_of\": 1, \"width\": 2, \"on_wall\": 3, \"position\": 0.5}";
    let expected = StateCommand::AddDoor(Door::new(1, None, (2.0f64).to_bits(), 3, (0.5f64).to_bits()));
    assert_eq!(
        format!("{:?}", line_to_command(line)),
        format!("{:?}", Ok::<_, LoadError>(Some(expected)))
    );
    // a wall id given as a double is no wall id
    let line = "CollapseWall >> {\"chamber_id\": 1, \"wall_id\": 2.0}";
    assert!(matches!(line_to_command(line), Err(LoadError::BadField)));
}

#[test]
fn command_from_record_without_json() {
    assert!(matches!(command_from_record("SelectChamber", &None), Err(LoadError::InvalidJson)));
    assert!(matches!(command_from_record("AddChamber", &None), Ok(Some(StateCommand::AddChamber))));
    assert!(matches!(command_from_record("Unknown", &None), Ok(None)));
    let doc = JsonDoc::Object(vec![(
        "chamber_id".to_owned(),
        JsonValue::Number(JsonNumber { as_u64: Some(7), as_i64: Some(7), f64_bits: Some((7.0f64).to_bits()) }),
    )]);
    assert!(matches!(
        command_from_record("DeleteChamber", &Some(doc)),
        Ok(Some(StateCommand::DeleteChamber(7)))
    ));
    assert!(matches!(
        command_from_record("DeleteChamber", &Some(JsonDoc::NotObject)),
        Err(LoadError::BadField)
    ));
}

#[test]
fn field_getters_take_the_first_field() {
    let doc = JsonDoc::Object(vec![
        ("a".to_owned(), JsonValue::Bool(true)),
        ("a".to_owned(), JsonValue::Bool(false)),
        ("s".to_owned(), JsonValue::Str("x".to_owned())),
        (
            "n".to_owned(),
            JsonValue::Number(JsonNumber { as_u64: None, as_i64: Some(-3), f64_bits: Some((-3.0f64).to_bits()) }),
        ),
        ("z".to_owned(), JsonValue::Nested),
    ]);
    assert_eq!(get_bool(&doc, "a"), Some(true));
    assert_eq!(get_str(&doc, "s"), Some("x".to_owned()));
    assert_eq!(get_str(&doc, "a"), None);
    assert_eq!(get_i64(&doc, "n"), Some(-3));
    assert_eq!(get_u64(&doc, "n"), None);
    assert_eq!(get_f64_bits(&doc, "n"), Some((-3.0f64).to_bits()));
    assert_eq!(get_u64(&doc, "z"), None);
    assert_eq!(get_u64(&doc, "missing"), None);
    assert_eq!(get_bool(&JsonDoc::NotObject, "a"), None);
}

#[test]
fn save_text_writes_one_line_per_command() {
    let cmds = vec![
        StateCommand::AddChamber,
        StateCommand::SelectChamber(None),
        StateCommand::ChangeMode(EditMode::SplitEdge),
    ];
    assert_eq!(
        save_file(&cmds),
        "AddChamber >> null\nSelectChamber >> {\"chamber_id\":null}\nChangeMode >> {\"mode\":\"SplitEdge\"}\n"
    );
    assert_eq!(save_file(&vec![]), "");
    let notes = StateCommand::ChangeChamberNotes(1, "two\nlines\r".to_owned());
    let text = save_file(&vec![notes.clone(), StateCommand::AddChamber]);
    assert_eq!(text.lines().count(), 2);
}

#[test]
fn a_saved_file_loads_back() {
    let cmds = all_commands();
    let text = save_file(&cmds);
    let loaded = load_text(&text).unwrap();
    let shown: Vec<String> = loaded.iter().map(|c| format!("{:?}", c)).collect();
    let expected: Vec<String> = cmds.iter().map(|c| format!("{:?}", c)).collect();
    assert_eq!(shown, expected);
}

#[test]
fn load_text_reads_lines_as_str_lines_does() {
    let text = "AddChamber >> null\r\njunk\n\nSelectDoor >> {\"door_id\": 4}";
    let shown: Vec<String> = load_text(text).unwrap().iter().map(|c| format!("{:?}", c)).collect();
    assert_eq!(
        shown,
        vec![
            format!("{:?}", StateCommand::AddChamber),
            format!("{:?}", StateCommand::SelectDoor(Some(4)))
        ]
    );
    assert!(load_text("").unwrap().is_empty());
    assert!(matches!(
        load_text("AddChamber >> null\nDeleteDoor >> {}\nChangeMode >> {\"mode\": \"Fly\"}\n"),
        Err(LoadError::BadField)
    ));
}
