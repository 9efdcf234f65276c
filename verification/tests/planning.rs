use pidpro::controller::pid::PidController;
use pidpro::controller::pmode::PModeController;
use pidpro::controller::ControllerSchema;
use pidpro::database::backend::{RawValue, SqlParam};
use pidpro::database::cleanup::{orphan_tables, plan_cleanup, schema_has_table};
use pidpro::database::composer::{compose, is_consistent, locate};
use pidpro::database::migration::{
    check_columns, decide_column, decide_startup, find_rename_target, fits, has_distinct_names,
    is_inspected, needs_repair, plan_additions, plan_rename, plan_repairs, plan_table,
    readable_rows, rename_is_due, text_of, version_of, ColumnAction, Startup,
};
use pidpro::database::sql::{
    bind_value, default_schema, read_outcome, read_plan, resolve, write_outcome, write_plan,
    SettingValue, StoreError,
};
use pidpro::database::sql_schema::{
    renames, static_schema, Column, ColumnType, Rename, Table, SCHEMA_VERSION,
};
use pidpro::database::statements::{
    add_column_text, column_definition_text, column_definitions_text, copy_column_text,
    create_table_text, drop_table_text, insert_row_text, plan_creation, reset_text, select_text,
    table_info_text, update_text,
};

fn pmode() -> Table {
    Table {
        name: "pmode_settings",
        columns: vec![
            Column { name: "p_mode", data_type: ColumnType::Integer, default_value: "4" },
            Column { name: "cycle_time", data_type: ColumnType::Integer, default_value: "15" },
        ],
    }
}

fn live(columns: &[(&str, &str)]) -> Vec<(String, String)> {
    columns.iter().map(|(n, t)| (n.to_string(), t.to_string())).collect()
}

fn names(tables: &Vec<Table>) -> Vec<&'static str> {
    tables.iter().map(|t| t.name).collect()
}

#[test]
fn statement_texts() {
    let column = Column { name: "Pb", data_type: ColumnType::Real, default_value: "65.0" };
    assert_eq!(column_definition_text(&column), "Pb REAL DEFAULT 65.0");
    assert_eq!(column_definitions_text(&vec![]), "");
    assert_eq!(column_definitions_text(&vec![column]), "Pb REAL DEFAULT 65.0");
    assert_eq!(column_definitions_text(&pmode().columns), "p_mode INTEGER DEFAULT 4, cycle_time INTEGER DEFAULT 15");
    assert_eq!(
        create_table_text(&pmode()),
        "CREATE TABLE pmode_settings (id INTEGER PRIMARY KEY, p_mode INTEGER DEFAULT 4, cycle_time INTEGER DEFAULT 15);"
    );
    assert_eq!(insert_row_text("pmode_settings"), "INSERT INTO pmode_settings (id) VALUES (1);");
    assert_eq!(add_column_text("pid_settings", &column), "ALTER TABLE pid_settings ADD COLUMN Pb REAL DEFAULT 65.0");
    assert_eq!(reset_text("pid_settings", &column), "UPDATE pid_settings SET Pb = 65.0 WHERE id = 1");
    assert_eq!(copy_column_text("t", "new_name", "old_name"), "UPDATE t SET new_name = old_name");
    assert_eq!(select_text("t", "k"), "SELECT k FROM t WHERE id = 1");
    assert_eq!(update_text("t", "k"), "UPDATE t SET k = ?1 WHERE id = 1");
    assert_eq!(table_info_text("mqtt_config"), "PRAGMA table_info(mqtt_config)");
    assert_eq!(drop_table_text("old_settings"), "DROP TABLE IF EXISTS old_settings");
    let flag = Column { name: "enabled", data_type: ColumnType::Boolean, default_value: "0" };
    let label = Column { name: "device_name", data_type: ColumnType::Text, default_value: "'PIDPro'" };
    assert_eq!(column_definition_text(&flag), "enabled BOOLEAN DEFAULT 0");
    assert_eq!(column_definition_text(&label), "device_name TEXT DEFAULT 'PIDPro'");
}

#[test]
fn creation_statements_come_table_by_table() {
    let schema = vec![
        pmode(),
        Table { name: "empty", columns: vec![] },
    ];
    assert_eq!(
        plan_creation(&schema),
        vec![
            "CREATE TABLE pmode_settings (id INTEGER PRIMARY KEY, p_mode INTEGER DEFAULT 4, cycle_time INTEGER DEFAULT 15);",
            "INSERT INTO pmode_settings (id) VALUES (1);",
            "CREATE TABLE empty (id INTEGER PRIMARY KEY, );",
            "INSERT INTO empty (id) VALUES (1);",
        ]
    );
    assert_eq!(plan_creation(&vec![]), Vec::<String>::new());
}

#[test]
fn the_declared_layout() {
    assert_eq!(SCHEMA_VERSION, 6);
    assert_eq!(renames().len(), 0);
    let base = static_schema();
    assert_eq!(names(&base), vec!["device_config", "safety_config", "mqtt_config", "operational_settings"]);
    assert_eq!(base[0].columns.len(), 4);
    assert_eq!(base[1].columns.len(), 4);
    assert_eq!(base[2].columns.len(), 6);
    assert_eq!(base[3].columns.len(), 5);
    assert_eq!(base[2].columns[0].name, "enabled");
    assert_eq!(base[2].columns[0].data_type, ColumnType::Boolean);
    assert_eq!(base[2].columns[1].default_value, "'mqtt://localhost'");
    assert_eq!(names(&PModeController::controller_tables()), vec!["pmode_settings"]);
    let pid = PidController::controller_tables();
    assert_eq!(names(&pid), vec!["pid_settings"]);
    assert_eq!(pid[0].columns[0].name, "Pb");
    assert_eq!(pid[0].columns[0].data_type, ColumnType::Real);
    assert_eq!(pid[0].columns[1].default_value, "180.0");
    assert_eq!(pid[0].columns[3].name, "cycle_time");
    assert_eq!(
        names(&default_schema()),
        vec!["device_config", "safety_config", "mqtt_config", "operational_settings", "pmode_settings", "pid_settings"]
    );
    assert_eq!(ColumnType::Integer.sql_name(), "INTEGER");
    assert_eq!(ColumnType::Real.sql_name(), "REAL");
    assert_eq!(ColumnType::Text.sql_name(), "TEXT");
    assert_eq!(ColumnType::Boolean.sql_name(), "BOOLEAN");
}

#[test]
fn composing_keeps_order_and_checks_nothing() {
    let base = vec![pmode()];
    let fragments = vec![vec![], vec![pmode(), Table { name: "b", columns: vec![] }], vec![Table { name: "c", columns: vec![] }]];
    let all = compose(&base, &fragments);
    assert_eq!(names(&all), vec!["pmode_settings", "pmode_settings", "b", "c"]);
    assert_eq!(all[1].columns.len(), 2);
    assert_eq!(all[1].columns[1].name, "cycle_time");
    assert_eq!(names(&compose(&vec![], &vec![])), Vec::<&str>::new());
    assert_eq!(names(&compose(&base, &vec![])), vec!["pmode_settings"]);
}

#[test]
fn the_first_table_that_declares_a_name_owns_it() {
    let schema = default_schema();
    assert_eq!(locate(&schema, "device_name"), Some((0, 0)));
    assert_eq!(locate(&schema, "p_mode"), Some((3, 0)));
    assert_eq!(locate(&schema, "cycle_time"), Some((4, 1)));
    assert_eq!(locate(&schema, "Pb"), Some((5, 0)));
    assert_eq!(locate(&schema, "pb"), None);
    assert_eq!(locate(&schema, "setpoint"), None);
    assert_eq!(locate(&schema, ""), None);
    assert_eq!(locate(&vec![], "x"), None);
    let (table, column) = resolve(&schema, "cycle_time").unwrap();
    assert_eq!(table, "pmode_settings");
    assert_eq!(column.default_value, "15");
    assert_eq!(resolve(&schema, "nothing").err(), Some(StoreError::NotFound));
    let twice = vec![Table {
        name: "t",
        columns: vec![
            Column { name: "k", data_type: ColumnType::Integer, default_value: "1" },
            Column { name: "k", data_type: ColumnType::Text, default_value: "'2'" },
        ],
    }];
    assert_eq!(locate(&twice, "k"), Some((0, 0)));
}

#[test]
fn a_layout_is_consistent_when_names_go_with_one_type() {
    assert!(is_consistent(&default_schema()));
    assert!(is_consistent(&vec![]));
    assert!(is_consistent(&vec![pmode()]));
    assert!(!is_consistent(&vec![pmode(), pmode()]));
    let clash = vec![
        pmode(),
        Table {
            name: "other_settings",
            columns: vec![Column { name: "cycle_time", data_type: ColumnType::Real, default_value: "15.0" }],
        },
    ];
    assert!(!is_consistent(&clash));
    let within = vec![Table {
        name: "t",
        columns: vec![
            Column { name: "k", data_type: ColumnType::Integer, default_value: "1" },
            Column { name: "k", data_type: ColumnType::Text, default_value: "'2'" },
        ],
    }];
    assert!(!is_consistent(&within));
    let shared = vec![
        pmode(),
        Table {
            name: "other_settings",
            columns: vec![Column { name: "cycle_time", data_type: ColumnType::Integer, default_value: "30" }],
        },
    ];
    assert!(is_consistent(&shared));
}

#[test]
fn read_and_write_plans() {
    let schema = default_schema();
    let (sql, t) = read_plan(&schema, "enabled").unwrap();
    assert_eq!(sql, "SELECT enabled FROM mqtt_config WHERE id = 1");
    assert_eq!(t, ColumnType::Boolean);
    assert_eq!(read_plan(&schema, "missing").err(), Some(StoreError::NotFound));
    let (sql, param) = write_plan(&schema, "cycle_time", "25").unwrap();
    assert_eq!(sql, "UPDATE pmode_settings SET cycle_time = ?1 WHERE id = 1");
    assert!(matches!(param, SqlParam::Integer(25)));
    let (sql, param) = write_plan(&schema, "Pb", "70.0").unwrap();
    assert_eq!(sql, "UPDATE pid_settings SET Pb = ?1 WHERE id = 1");
    assert!(matches!(param, SqlParam::Real(ref t) if t == "70.0"));
    let (_, param) = write_plan(&schema, "enabled", "True").unwrap();
    assert!(matches!(param, SqlParam::Integer(1)));
    let (_, param) = write_plan(&schema, "enabled", "false").unwrap();
    assert!(matches!(param, SqlParam::Integer(0)));
    let (_, param) = write_plan(&schema, "device_name", "Grill 1").unwrap();
    assert!(matches!(param, SqlParam::Text(ref t) if t == "Grill 1"));
    assert_eq!(write_plan(&schema, "cycle_time", "soon").err(), Some(StoreError::InvalidValue));
    assert_eq!(write_plan(&schema, "Pb", "wide").err(), Some(StoreError::InvalidValue));
    assert_eq!(write_plan(&schema, "enabled", "on").err(), Some(StoreError::InvalidValue));
    assert_eq!(write_plan(&schema, "missing", "1").err(), Some(StoreError::NotFound));
    assert!(bind_value(ColumnType::Integer, "1.5").is_none());
    assert!(matches!(bind_value(ColumnType::Integer, "-3"), Some(SqlParam::Integer(-3))));
}

#[test]
fn stored_cells_are_read_by_the_declared_type() {
    assert!(matches!(SettingValue::decode(ColumnType::Boolean, RawValue::Integer(1)), SettingValue::Boolean(true)));
    assert!(matches!(SettingValue::decode(ColumnType::Boolean, RawValue::Integer(7)), SettingValue::Boolean(true)));
    assert!(matches!(SettingValue::decode(ColumnType::Boolean, RawValue::Integer(0)), SettingValue::Boolean(false)));
    assert!(matches!(SettingValue::decode(ColumnType::Boolean, RawValue::Text("true".to_string())), SettingValue::Boolean(false)));
    assert!(matches!(SettingValue::decode(ColumnType::Boolean, RawValue::Null), SettingValue::Boolean(false)));
    assert!(matches!(SettingValue::decode(ColumnType::Integer, RawValue::Integer(1)), SettingValue::Integer(1)));
    assert!(matches!(SettingValue::decode(ColumnType::Text, RawValue::Integer(1)), SettingValue::Integer(1)));
    assert_eq!(SettingValue::decode(ColumnType::Real, RawValue::Real("65".to_string())).to_string(), "65");
    assert_eq!(SettingValue::decode(ColumnType::Integer, RawValue::Text("abc".to_string())).to_string(), "abc");
    assert_eq!(SettingValue::from(RawValue::Blob).to_string(), "Binary Data");
    assert_eq!(SettingValue::from(RawValue::Null).to_string(), "NULL");
    assert_eq!(SettingValue::Integer(-40).to_string(), "-40");
    assert_eq!(SettingValue::Boolean(true).to_string(), "true");
    assert_eq!(SettingValue::Boolean(false).to_string(), "false");
    assert_eq!(SettingValue::Text("as is".to_string()).to_string(), "as is");
}

#[test]
fn what_the_store_answers_decides_the_outcome() {
    assert_eq!(read_outcome(ColumnType::Integer, Some(RawValue::Integer(15))).unwrap().to_string(), "15");
    assert!(matches!(
        read_outcome(ColumnType::Boolean, Some(RawValue::Integer(1))),
        Ok(SettingValue::Boolean(true))
    ));
    assert_eq!(read_outcome(ColumnType::Integer, None).err(), Some(StoreError::StoreIO));
    assert_eq!(write_outcome(Some(1)), Ok(()));
    assert_eq!(write_outcome(Some(0)), Ok(()));
    assert_eq!(write_outcome(None), Err(StoreError::StoreIO));
}

#[test]
fn what_to_do_about_a_column() {
    let declared = Column { name: "cycle_time", data_type: ColumnType::Integer, default_value: "15" };
    assert_eq!(decide_column(&declared, &live(&[])), ColumnAction::Add);
    assert_eq!(decide_column(&declared, &live(&[("id", "INTEGER"), ("p_mode", "INTEGER")])), ColumnAction::Add);
    assert_eq!(decide_column(&declared, &live(&[("id", "INTEGER"), ("cycle_time", "INTEGER")])), ColumnAction::Keep);
    assert_eq!(decide_column(&declared, &live(&[("cycle_time", "integer")])), ColumnAction::Keep);
    assert_eq!(decide_column(&declared, &live(&[("cycle_time", "TEXT")])), ColumnAction::Inspect);
    assert_eq!(decide_column(&declared, &live(&[("cycle_time", "")])), ColumnAction::Inspect);
    assert_eq!(decide_column(&declared, &live(&[("cycle_time", "INT")])), ColumnAction::Inspect);
    assert_eq!(decide_column(&declared, &live(&[("Cycle_Time", "INTEGER")])), ColumnAction::Add);
    assert_eq!(decide_column(&declared, &live(&[("cycle_time", "TEXT"), ("cycle_time", "INTEGER")])), ColumnAction::Inspect);
}

#[test]
fn when_a_value_goes_back_to_the_default() {
    assert!(needs_repair(ColumnType::Integer, &Some("abc".to_string())));
    assert!(!needs_repair(ColumnType::Integer, &Some("42".to_string())));
    assert!(needs_repair(ColumnType::Integer, &Some("4.2".to_string())));
    assert!(needs_repair(ColumnType::Integer, &Some("".to_string())));
    assert!(!needs_repair(ColumnType::Integer, &None));
    assert!(needs_repair(ColumnType::Real, &Some("abc".to_string())));
    assert!(!needs_repair(ColumnType::Real, &Some("4.2".to_string())));
    assert!(!needs_repair(ColumnType::Real, &None));
    assert!(needs_repair(ColumnType::Boolean, &Some("2".to_string())));
    assert!(!needs_repair(ColumnType::Boolean, &Some("FALSE".to_string())));
    assert!(!needs_repair(ColumnType::Boolean, &Some("1".to_string())));
    assert!(!needs_repair(ColumnType::Boolean, &None));
    assert!(!needs_repair(ColumnType::Text, &Some("anything".to_string())));
    assert!(!needs_repair(ColumnType::Text, &None));
    assert!(fits(ColumnType::Text, ""));
    assert!(!fits(ColumnType::Integer, ""));
    assert_eq!(text_of(RawValue::Text("abc".to_string())), Some("abc".to_string()));
    assert_eq!(text_of(RawValue::Integer(42)), Some("42".to_string()));
    assert_eq!(text_of(RawValue::Integer(-7)), Some("-7".to_string()));
    assert_eq!(text_of(RawValue::Real("4.2".to_string())), Some("4.2".to_string()));
    assert!(needs_repair(ColumnType::Integer, &text_of(RawValue::Real("65.5".to_string()))));
    assert!(!needs_repair(ColumnType::Integer, &text_of(RawValue::Real("65".to_string()))));
    assert!(!needs_repair(ColumnType::Real, &text_of(RawValue::Integer(12))));
    assert!(needs_repair(ColumnType::Boolean, &text_of(RawValue::Integer(12))));
    assert!(!needs_repair(ColumnType::Boolean, &text_of(RawValue::Integer(1))));
    assert!(!needs_repair(ColumnType::Integer, &text_of(RawValue::Blob)));
    assert!(!needs_repair(ColumnType::Integer, &text_of(RawValue::Null)));
    assert_eq!(text_of(RawValue::Null), None);
    assert_eq!(text_of(RawValue::Blob), None);
}

#[test]
fn the_statements_for_a_table() {
    let table = Table {
        name: "t",
        columns: vec![
            Column { name: "changed", data_type: ColumnType::Integer, default_value: "7" },
            Column { name: "missing", data_type: ColumnType::Text, default_value: "'x'" },
            Column { name: "kept", data_type: ColumnType::Real, default_value: "1.5" },
            Column { name: "fitting", data_type: ColumnType::Integer, default_value: "8" },
            Column { name: "late", data_type: ColumnType::Boolean, default_value: "0" },
        ],
    };
    let reported = live(&[("id", "INTEGER"), ("changed", "TEXT"), ("kept", "real"), ("fitting", "TEXT")]);
    let stored = vec![Some("abc".to_string()), Some("ignored".to_string()), Some("ignored".to_string()), Some("42".to_string()), None];
    assert_eq!(
        plan_additions(&table, &reported),
        vec!["ALTER TABLE t ADD COLUMN missing TEXT DEFAULT 'x'", "ALTER TABLE t ADD COLUMN late BOOLEAN DEFAULT 0"]
    );
    assert_eq!(plan_repairs(&table, &reported, &stored), vec!["UPDATE t SET changed = 7 WHERE id = 1"]);
    assert_eq!(
        plan_table(&table, &reported, &stored),
        vec![
            "ALTER TABLE t ADD COLUMN missing TEXT DEFAULT 'x'",
            "ALTER TABLE t ADD COLUMN late BOOLEAN DEFAULT 0",
            "UPDATE t SET changed = 7 WHERE id = 1",
        ]
    );
    let nothing_read = vec![None, None, None, None, None];
    assert_eq!(plan_repairs(&table, &reported, &nothing_read), Vec::<String>::new());
    assert!(is_inspected(&table.columns[0], &reported));
    assert!(!is_inspected(&table.columns[1], &reported));
    assert!(!is_inspected(&table.columns[2], &reported));
    assert!(is_inspected(&table.columns[3], &reported));
    let gone = live(&[]);
    assert_eq!(plan_additions(&table, &gone).len(), 5);
    assert_eq!(plan_repairs(&table, &gone, &stored), Vec::<String>::new());
    let empty = Table { name: "e", columns: vec![] };
    assert_eq!(plan_table(&empty, &reported, &vec![]), Vec::<String>::new());
}

#[test]
fn a_report_with_a_name_twice_is_refused() {
    assert!(has_distinct_names(&live(&[])));
    assert!(has_distinct_names(&live(&[("a", "TEXT"), ("b", "TEXT"), ("A", "TEXT")])));
    assert!(!has_distinct_names(&live(&[("a", "TEXT"), ("b", "TEXT"), ("a", "INTEGER")])));
    assert_eq!(check_columns(&live(&[("a", "TEXT"), ("b", "TEXT")])), Ok(()));
    assert_eq!(check_columns(&live(&[("a", "TEXT"), ("a", "TEXT")])), Err(StoreError::SchemaIntegrity));
}

#[test]
fn rows_that_could_not_be_read_are_left_out() {
    let rows = vec![
        Some((RawValue::Text("a".to_string()), RawValue::Text("TEXT".to_string()))),
        None,
        Some((RawValue::Text("b".to_string()), RawValue::Text("".to_string()))),
        Some((RawValue::Integer(1), RawValue::Text("TEXT".to_string()))),
        Some((RawValue::Text("c".to_string()), RawValue::Null)),
        Some((RawValue::Real("1.5".to_string()), RawValue::Blob)),
        None,
    ];
    assert_eq!(readable_rows(&rows), live(&[("a", "TEXT"), ("b", "")]));
    assert_eq!(readable_rows(&vec![None, None]), live(&[]));
    assert_eq!(readable_rows(&vec![]), live(&[]));
}

#[test]
fn a_rename_is_carried_out_where_it_is_due() {
    let schema = vec![Table {
        name: "operational_settings",
        columns: vec![
            Column { name: "p_mode_value", data_type: ColumnType::Integer, default_value: "4" },
            Column { name: "other", data_type: ColumnType::Text, default_value: "''" },
        ],
    }];
    let rename = Rename { table: "operational_settings", old_column: "p_mode", new_column: "p_mode_value" };
    assert!(rename_is_due(&live(&[("id", ""), ("p_mode", "")]), &rename));
    assert!(!rename_is_due(&live(&[("id", ""), ("p_mode", ""), ("p_mode_value", "")]), &rename));
    assert!(!rename_is_due(&live(&[("id", "")]), &rename));
    assert!(!rename_is_due(&live(&[("p_mode_value", "")]), &rename));
    assert_eq!(find_rename_target(&schema, &rename).map(|c| c.name), Some("p_mode_value"));
    let elsewhere = Rename { table: "missing", old_column: "p_mode", new_column: "p_mode_value" };
    assert!(find_rename_target(&schema, &elsewhere).is_none());
    let undeclared = Rename { table: "operational_settings", old_column: "p_mode", new_column: "gone" };
    assert!(find_rename_target(&schema, &undeclared).is_none());
    assert_eq!(
        plan_rename(&schema, &rename, &live(&[("p_mode", "")])),
        vec![
            "ALTER TABLE operational_settings ADD COLUMN p_mode_value INTEGER DEFAULT 4",
            "UPDATE operational_settings SET p_mode_value = p_mode",
        ]
    );
    let none: Vec<String> = vec![];
    assert_eq!(plan_rename(&schema, &rename, &live(&[("p_mode_value", "")])), none);
    assert_eq!(plan_rename(&schema, &undeclared, &live(&[("p_mode", "")])), none);
    assert_eq!(plan_rename(&schema, &elsewhere, &live(&[("p_mode", "")])), none);
}

#[test]
fn how_a_store_is_brought_up() {
    assert_eq!(decide_startup(false, 0, 6), Startup::Initialize);
    assert_eq!(decide_startup(false, 9, 6), Startup::Initialize);
    assert_eq!(decide_startup(true, 0, 6), Startup::Migrate);
    assert_eq!(decide_startup(true, 5, 6), Startup::Migrate);
    assert_eq!(decide_startup(true, 6, 6), Startup::UpToDate);
    assert_eq!(decide_startup(true, 7, 6), Startup::UpToDate);
    assert_eq!(decide_startup(true, 0, 0), Startup::UpToDate);
    assert_eq!(version_of(&Some(RawValue::Integer(6))), 6);
    assert_eq!(version_of(&Some(RawValue::Integer(0))), 0);
    assert_eq!(version_of(&Some(RawValue::Integer(4294967295))), 4294967295);
    assert_eq!(version_of(&Some(RawValue::Integer(4294967296))), 0);
    assert_eq!(version_of(&Some(RawValue::Integer(-1))), 0);
    assert_eq!(version_of(&Some(RawValue::Text("6".to_string()))), 0);
    assert_eq!(version_of(&Some(RawValue::Null)), 0);
    assert_eq!(version_of(&None), 0);
}

#[test]
fn orphans() {
    let schema = vec![pmode(), Table { name: "device_config", columns: vec![] }];
    let live: Vec<String> = ["meta", "old_settings", "pmode_settings", "legacy", "device_config", "_settings", "x_settings_", "pid_settings"]
        .iter()
        .map(|s| s.to_string())
        .collect();
    assert_eq!(orphan_tables(&schema, &live), vec!["old_settings", "_settings", "pid_settings"]);
    assert_eq!(
        plan_cleanup(&schema, &live),
        vec!["DROP TABLE IF EXISTS old_settings", "DROP TABLE IF EXISTS _settings", "DROP TABLE IF EXISTS pid_settings"]
    );
    assert_eq!(orphan_tables(&schema, &vec![]), Vec::<String>::new());
    assert_eq!(orphan_tables(&vec![], &live).len(), 4);
    assert!(schema_has_table(&schema, "pmode_settings"));
    assert!(!schema_has_table(&schema, "pmode_setting"));
    assert!(!schema_has_table(&vec![], "pmode_settings"));
}
