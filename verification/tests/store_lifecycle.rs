use pidpro::database::sql::{SettingValue, SqlDbManager, StoreError};
use pidpro::database::sql_schema::{Column, ColumnType, Rename, Table};
use rusqlite::Connection;

fn shared(name: &str) -> Connection {
    Connection::open(format!("file:{}?mode=memory&cache=shared", name)).unwrap()
}

fn table_names(conn: &Connection) -> Vec<String> {
    let mut statement = conn.prepare("SELECT name FROM sqlite_master WHERE type='table' ORDER BY name").unwrap();
    let rows = statement.query_map([], |row| row.get::<_, String>(0)).unwrap();
    rows.map(|r| r.unwrap()).collect()
}

fn text_cell(conn: &Connection, sql: &str) -> String {
    conn.query_row(sql, [], |row| row.get::<_, rusqlite::types::Value>(0))
        .map(|v| match v {
            rusqlite::types::Value::Integer(i) => i.to_string(),
            rusqlite::types::Value::Text(t) => t,
            rusqlite::types::Value::Real(x) => x.to_string(),
            rusqlite::types::Value::Null => "NULL".to_string(),
            rusqlite::types::Value::Blob(_) => "BLOB".to_string(),
        })
        .unwrap()
}

fn controller_schema() -> Vec<Table> {
    vec![
        Table {
            name: "pmode_settings",
            columns: vec![
                Column { name: "p_mode", data_type: ColumnType::Integer, default_value: "4" },
                Column { name: "cycle_time", data_type: ColumnType::Integer, default_value: "15" },
            ],
        },
        Table {
            name: "pid_settings",
            columns: vec![
                Column { name: "Pb", data_type: ColumnType::Real, default_value: "65.0" },
                Column { name: "cycle_time", data_type: ColumnType::Integer, default_value: "15" },
            ],
        },
    ]
}

fn shown(groups: &Vec<(&'static str, Vec<(String, SettingValue)>)>) -> Vec<(String, Vec<(String, String)>)> {
    groups
        .iter()
        .map(|(table, settings)| {
            (table.to_string(), settings.iter().map(|(k, v)| (k.clone(), v.to_string())).collect())
        })
        .collect()
}

#[test]
fn test_controller_schema_access() {
    let mut db = SqlDbManager::new(":memory:").expect("Failed to create database");
    let device_name = db.get_setting("device_name").expect("Failed to get device_name");
    println!("Device name: {}", device_name.to_string());
    let p_mode = db.get_setting("p_mode").expect("Failed to get p_mode from controller schema");
    println!("P-mode: {}", p_mode.to_string());
    let pb = db.get_setting("Pb").expect("Failed to get Pb from controller schema");
    println!("Pb: {}", pb.to_string());
    let grouped = db.get_all_settings_grouped().expect("Failed to get grouped settings");
    let table_names: Vec<&str> = grouped.iter().map(|(name, _)| *name).collect();
    println!("Tables found: {:?}", table_names);
    assert!(table_names.contains(&"pmode_settings"), "pmode_settings table should be included");
    assert!(table_names.contains(&"pid_settings"), "pid_settings table should be included");
    assert!(table_names.contains(&"device_config"), "device_config table should be included");
}

#[test]
fn test_controller_cycle_time() {
    let mut db = SqlDbManager::new(":memory:").expect("Failed to create database");
    let pmode_cycle_time = db.get_setting("cycle_time").expect("Failed to get cycle_time");
    println!("Default cycle_time: {}", pmode_cycle_time.to_string());
    assert_eq!(pmode_cycle_time.to_string(), "15");
    db.set_setting("cycle_time", "20").expect("Failed to set cycle_time");
    let updated_cycle_time = db.get_setting("cycle_time").expect("Failed to get updated cycle_time");
    assert_eq!(updated_cycle_time.to_string(), "20");
    let grouped = db.get_all_settings_grouped().expect("Failed to get grouped settings");
    let tables_with_cycle_time: Vec<&str> = grouped
        .iter()
        .filter(|(_, settings)| settings.iter().any(|(key, _)| key == "cycle_time"))
        .map(|(table_name, _)| *table_name)
        .collect();
    println!("Tables with cycle_time: {:?}", tables_with_cycle_time);
    assert!(tables_with_cycle_time.contains(&"pmode_settings"), "pmode_settings should have cycle_time");
    assert!(tables_with_cycle_time.contains(&"pid_settings"), "pid_settings should have cycle_time");
}

#[test]
fn test_pid_parameters() {
    let mut db = SqlDbManager::new(":memory:").expect("Failed to create database");
    let pb = db.get_setting("Pb").expect("Failed to get Pb");
    let ti = db.get_setting("Ti").expect("Failed to get Ti");
    let td = db.get_setting("Td").expect("Failed to get Td");
    println!("PID Parameters - Pb: {}, Ti: {}, Td: {}", pb.to_string(), ti.to_string(), td.to_string());
    assert_eq!(pb.to_string(), "65");
    assert_eq!(ti.to_string(), "180");
    assert_eq!(td.to_string(), "45");
    db.set_setting("Pb", "70.0").expect("Failed to set Pb");
    db.set_setting("Ti", "200.0").expect("Failed to set Ti");
    db.set_setting("Td", "50.0").expect("Failed to set Td");
    let updated_pb = db.get_setting("Pb").expect("Failed to get updated Pb");
    let updated_ti = db.get_setting("Ti").expect("Failed to get updated Ti");
    let updated_td = db.get_setting("Td").expect("Failed to get updated Td");
    println!(
        "Updated PID Parameters - Pb: {}, Ti: {}, Td: {}",
        updated_pb.to_string(),
        updated_ti.to_string(),
        updated_td.to_string()
    );
    assert_eq!(updated_pb.to_string(), "70");
    assert_eq!(updated_ti.to_string(), "200");
    assert_eq!(updated_td.to_string(), "50");
}

#[test]
fn test_setpoint_not_in_database() {
    let mut db = SqlDbManager::new(":memory:").expect("Failed to create database");
    let setpoint_result = db.get_setting("setpoint");
    assert!(setpoint_result.is_err(), "setpoint should not be in database schema");
    assert_eq!(setpoint_result.unwrap_err(), StoreError::NotFound);
    let pb = db.get_setting("Pb").expect("Pb should be available");
    let ti = db.get_setting("Ti").expect("Ti should be available");
    let td = db.get_setting("Td").expect("Td should be available");
    let cycle_time = db.get_setting("cycle_time").expect("cycle_time should be available");
    println!(
        "Available PID settings - Pb: {}, Ti: {}, Td: {}, cycle_time: {}",
        pb.to_string(),
        ti.to_string(),
        td.to_string(),
        cycle_time.to_string()
    );
}

#[test]
fn fresh_store_holds_both_tables_and_takes_a_write() {
    let conn = Connection::open_in_memory().unwrap();
    let mut db = SqlDbManager::open_or_create(conn, false, controller_schema(), 1, &vec![]).unwrap();
    let grouped = db.get_all_settings_grouped().unwrap();
    assert_eq!(
        shown(&grouped),
        vec![
            (
                "pmode_settings".to_string(),
                vec![("p_mode".to_string(), "4".to_string()), ("cycle_time".to_string(), "15".to_string())]
            ),
            (
                "pid_settings".to_string(),
                vec![("Pb".to_string(), "65".to_string()), ("cycle_time".to_string(), "15".to_string())]
            ),
        ]
    );
    assert_eq!(db.get_setting("cycle_time").unwrap().to_string(), "15");
    db.set_setting("cycle_time", "25").unwrap();
    assert_eq!(db.get_setting("cycle_time").unwrap().to_string(), "25");
    assert!(matches!(db.get_setting("cycle_time").unwrap(), SettingValue::Integer(25)));
}

#[test]
fn a_name_declared_twice_is_read_from_the_first_table_everywhere() {
    let keeper = shared("grouped_masking");
    let mut db = SqlDbManager::open_or_create(shared("grouped_masking"), false, controller_schema(), 1, &vec![])
        .unwrap();
    keeper.execute("UPDATE pid_settings SET cycle_time = 99 WHERE id = 1", []).unwrap();
    let grouped = db.get_all_settings_grouped().unwrap();
    assert_eq!(grouped[1].0, "pid_settings");
    assert_eq!(grouped[1].1[1].0, "cycle_time");
    assert_eq!(grouped[1].1[1].1.to_string(), "15");
}

#[test]
fn opening_twice_at_one_version_reads_the_same() {
    let _keeper = shared("idempotent");
    let mut first = SqlDbManager::open_or_create(shared("idempotent"), false, controller_schema(), 3, &vec![])
        .unwrap();
    let before = shown(&first.get_all_settings_grouped().unwrap());
    let mut second = SqlDbManager::open_or_create(shared("idempotent"), true, controller_schema(), 3, &vec![])
        .unwrap();
    let after = shown(&second.get_all_settings_grouped().unwrap());
    assert_eq!(before, after);
    assert_eq!(second.schema_version(), 3);
}

#[test]
fn two_new_stores_read_the_same() {
    let mut a = SqlDbManager::open_or_create(Connection::open_in_memory().unwrap(), false, controller_schema(), 3, &vec![])
        .unwrap();
    let mut b = SqlDbManager::open_or_create(Connection::open_in_memory().unwrap(), false, controller_schema(), 3, &vec![])
        .unwrap();
    assert_eq!(shown(&a.get_all_settings_grouped().unwrap()), shown(&b.get_all_settings_grouped().unwrap()));
}

#[test]
fn a_write_is_kept_when_the_store_is_opened_again() {
    let _keeper = shared("kept_write");
    let mut first = SqlDbManager::open_or_create(shared("kept_write"), false, controller_schema(), 3, &vec![])
        .unwrap();
    first.set_setting("p_mode", "9").unwrap();
    let mut second = SqlDbManager::open_or_create(shared("kept_write"), true, controller_schema(), 3, &vec![])
        .unwrap();
    assert_eq!(second.get_setting("p_mode").unwrap().to_string(), "9");
}

#[test]
fn the_version_on_record_is_the_larger_one() {
    let _keeper = shared("versions");
    let mut created = SqlDbManager::open_or_create(shared("versions"), false, controller_schema(), 2, &vec![])
        .unwrap();
    assert_eq!(created.schema_version(), 2);
    let mut newer = SqlDbManager::open_or_create(shared("versions"), true, controller_schema(), 5, &vec![])
        .unwrap();
    assert_eq!(newer.schema_version(), 5);
    let mut older = SqlDbManager::open_or_create(shared("versions"), true, controller_schema(), 4, &vec![])
        .unwrap();
    assert_eq!(older.schema_version(), 5);
    let mut same = SqlDbManager::open_or_create(shared("versions"), true, controller_schema(), 5, &vec![])
        .unwrap();
    assert_eq!(same.schema_version(), 5);
}

#[test]
fn a_store_without_a_version_counts_as_version_zero() {
    let keeper = shared("no_version");
    keeper
        .execute_batch(
            "CREATE TABLE pmode_settings (id INTEGER PRIMARY KEY, p_mode INTEGER DEFAULT 4);
             INSERT INTO pmode_settings (id) VALUES (1);
             CREATE TABLE pid_settings (id INTEGER PRIMARY KEY, Pb REAL DEFAULT 65.0, cycle_time INTEGER DEFAULT 15);
             INSERT INTO pid_settings (id) VALUES (1);",
        )
        .unwrap();
    let mut db = SqlDbManager::open_or_create(shared("no_version"), true, controller_schema(), 1, &vec![]).unwrap();
    assert_eq!(db.schema_version(), 1);
    assert_eq!(text_cell(&keeper, "SELECT cycle_time FROM pmode_settings WHERE id = 1"), "15");
}

#[test]
fn the_static_table_masks_the_provider_table() {
    let base = vec![Table {
        name: "app",
        columns: vec![Column { name: "x", data_type: ColumnType::Integer, default_value: "1" }],
    }];
    let provided = vec![vec![Table {
        name: "ctl_settings",
        columns: vec![Column { name: "x", data_type: ColumnType::Integer, default_value: "2" }],
    }]];
    let schema = pidpro::database::composer::compose(&base, &provided);
    let keeper = shared("masking");
    let mut db = SqlDbManager::open_or_create(shared("masking"), false, schema, 1, &vec![]).unwrap();
    assert_eq!(db.get_setting("x").unwrap().to_string(), "1");
    keeper.execute("UPDATE ctl_settings SET x = 99 WHERE id = 1", []).unwrap();
    assert_eq!(db.get_setting("x").unwrap().to_string(), "1");
    db.set_setting("x", "5").unwrap();
    assert_eq!(db.get_setting("x").unwrap().to_string(), "5");
    assert_eq!(text_cell(&keeper, "SELECT x FROM app WHERE id = 1"), "5");
    assert_eq!(text_cell(&keeper, "SELECT x FROM ctl_settings WHERE id = 1"), "99");
    let (table, column) = db.find_table_and_column("x").unwrap();
    assert_eq!(table, "app");
    assert_eq!(column.default_value, "1");
}

#[test]
fn migration_adds_the_missing_column_and_keeps_the_rest() {
    let keeper = shared("adds");
    keeper
        .execute_batch(
            "CREATE TABLE pmode_settings (id INTEGER PRIMARY KEY, p_mode INTEGER DEFAULT 4);
             INSERT INTO pmode_settings (id, p_mode) VALUES (1, 7);
             CREATE TABLE pid_settings (id INTEGER PRIMARY KEY, Pb REAL DEFAULT 65.0, cycle_time INTEGER DEFAULT 15);
             INSERT INTO pid_settings (id, Pb, cycle_time) VALUES (1, 80.5, 30);
             CREATE TABLE meta (id INTEGER PRIMARY KEY, version INTEGER);
             INSERT INTO meta (id, version) VALUES (1, 1);",
        )
        .unwrap();
    let mut db = SqlDbManager::open_or_create(shared("adds"), true, controller_schema(), 2, &vec![]).unwrap();
    assert_eq!(db.get_setting("cycle_time").unwrap().to_string(), "15");
    assert_eq!(db.get_setting("p_mode").unwrap().to_string(), "7");
    assert_eq!(db.get_setting("Pb").unwrap().to_string(), "80.5");
    assert_eq!(text_cell(&keeper, "SELECT cycle_time FROM pid_settings WHERE id = 1"), "30");
    assert_eq!(db.schema_version(), 2);
}

#[test]
fn a_store_at_the_declared_version_is_not_migrated() {
    let keeper = shared("not_migrated");
    keeper
        .execute_batch(
            "CREATE TABLE pmode_settings (id INTEGER PRIMARY KEY, p_mode INTEGER DEFAULT 4);
             INSERT INTO pmode_settings (id, p_mode) VALUES (1, 7);
             CREATE TABLE meta (id INTEGER PRIMARY KEY, version INTEGER);
             INSERT INTO meta (id, version) VALUES (1, 2);",
        )
        .unwrap();
    let mut db = SqlDbManager::open_or_create(shared("not_migrated"), true, controller_schema(), 2, &vec![]).unwrap();
    assert_eq!(db.get_setting("p_mode").unwrap().to_string(), "7");
    assert_eq!(db.get_setting("cycle_time").unwrap_err(), StoreError::StoreIO);
}

#[test]
fn a_value_that_no_longer_fits_goes_back_to_the_default() {
    let keeper = shared("repair");
    keeper
        .execute_batch(
            "CREATE TABLE levels (id INTEGER PRIMARY KEY, a TEXT, b TEXT, c TEXT, d TEXT, e TEXT, f INTEGER);
             INSERT INTO levels (id, a, b, c, d, e, f) VALUES (1, 'abc', '42', 'maybe', 'TRUE', '1.5x', 12);
             CREATE TABLE meta (id INTEGER PRIMARY KEY, version INTEGER);
             INSERT INTO meta (id, version) VALUES (1, 1);",
        )
        .unwrap();
    let schema = vec![Table {
        name: "levels",
        columns: vec![
            Column { name: "a", data_type: ColumnType::Integer, default_value: "5" },
            Column { name: "b", data_type: ColumnType::Integer, default_value: "6" },
            Column { name: "c", data_type: ColumnType::Boolean, default_value: "0" },
            Column { name: "d", data_type: ColumnType::Boolean, default_value: "0" },
            Column { name: "e", data_type: ColumnType::Real, default_value: "2.5" },
            Column { name: "f", data_type: ColumnType::Text, default_value: "'none'" },
        ],
    }];
    let mut db = SqlDbManager::open_or_create(shared("repair"), true, schema, 2, &vec![]).unwrap();
    assert_eq!(text_cell(&keeper, "SELECT a FROM levels WHERE id = 1"), "5");
    assert_eq!(text_cell(&keeper, "SELECT b FROM levels WHERE id = 1"), "42");
    assert_eq!(text_cell(&keeper, "SELECT c FROM levels WHERE id = 1"), "0");
    assert_eq!(text_cell(&keeper, "SELECT d FROM levels WHERE id = 1"), "TRUE");
    assert_eq!(text_cell(&keeper, "SELECT e FROM levels WHERE id = 1"), "2.5");
    assert_eq!(text_cell(&keeper, "SELECT f FROM levels WHERE id = 1"), "12");
    assert_eq!(db.get_setting("a").unwrap().to_string(), "5");
    assert_eq!(db.get_setting("b").unwrap().to_string(), "42");
}

#[test]
fn a_rename_whose_new_column_is_declared_copies_nothing_and_leaves_the_old_column() {
    let keeper = shared("rename");
    keeper
        .execute_batch(
            "CREATE TABLE operational_settings (id INTEGER PRIMARY KEY, p_mode INTEGER DEFAULT 4);
             INSERT INTO operational_settings (id, p_mode) VALUES (1, 8);
             CREATE TABLE meta (id INTEGER PRIMARY KEY, version INTEGER);
             INSERT INTO meta (id, version) VALUES (1, 1);",
        )
        .unwrap();
    let schema = vec![Table {
        name: "operational_settings",
        columns: vec![Column { name: "p_mode", data_type: ColumnType::Integer, default_value: "4" }],
    }];
    let renames = vec![
        Rename { table: "operational_settings", old_column: "p_mode", new_column: "p_mode_value" },
        Rename { table: "operational_settings", old_column: "p_mode", new_column: "p_mode" },
    ];
    let mut undeclared = SqlDbManager::open_or_create(shared("rename"), true, schema, 2, &renames).unwrap();
    assert_eq!(undeclared.get_setting("p_mode").unwrap().to_string(), "8");
    assert!(keeper.prepare("SELECT p_mode_value FROM operational_settings").is_err());

    let schema = vec![Table {
        name: "operational_settings",
        columns: vec![Column { name: "p_mode_value", data_type: ColumnType::Integer, default_value: "4" }],
    }];
    let keeper = shared("rename_declared");
    keeper
        .execute_batch(
            "CREATE TABLE operational_settings (id INTEGER PRIMARY KEY, p_mode INTEGER DEFAULT 4);
             INSERT INTO operational_settings (id, p_mode) VALUES (1, 8);
             CREATE TABLE meta (id INTEGER PRIMARY KEY, version INTEGER);
             INSERT INTO meta (id, version) VALUES (1, 1);",
        )
        .unwrap();
    let renames = vec![Rename { table: "operational_settings", old_column: "p_mode", new_column: "p_mode_value" }];
    let mut db = SqlDbManager::open_or_create(shared("rename_declared"), true, schema, 2, &renames).unwrap();
    assert_eq!(db.get_setting("p_mode_value").unwrap().to_string(), "4");
    assert_eq!(text_cell(&keeper, "SELECT p_mode FROM operational_settings WHERE id = 1"), "8");
}

#[test]
fn a_cell_that_is_no_text_is_judged_by_its_text() {
    let keeper = shared("repair_kinds");
    keeper
        .execute_batch(
            "CREATE TABLE t_settings (id INTEGER PRIMARY KEY, a REAL, b REAL, c INTEGER, d INTEGER, e BLOB, f TEXT);
             INSERT INTO t_settings (id, a, b, c, d, e, f) VALUES (1, 65.5, 65.0, 12, 1, x'00ff', NULL);
             CREATE TABLE meta (id INTEGER PRIMARY KEY, version INTEGER);
             INSERT INTO meta (id, version) VALUES (1, 0);",
        )
        .unwrap();
    let schema = vec![Table {
        name: "t_settings",
        columns: vec![
            Column { name: "a", data_type: ColumnType::Integer, default_value: "7" },
            Column { name: "b", data_type: ColumnType::Integer, default_value: "8" },
            Column { name: "c", data_type: ColumnType::Boolean, default_value: "0" },
            Column { name: "d", data_type: ColumnType::Boolean, default_value: "0" },
            Column { name: "e", data_type: ColumnType::Integer, default_value: "9" },
            Column { name: "f", data_type: ColumnType::Integer, default_value: "10" },
        ],
    }];
    let mut db = SqlDbManager::open_or_create(shared("repair_kinds"), true, schema, 1, &vec![]).unwrap();
    assert_eq!(text_cell(&keeper, "SELECT a FROM t_settings WHERE id = 1"), "7");
    assert_eq!(text_cell(&keeper, "SELECT b FROM t_settings WHERE id = 1"), "65");
    assert_eq!(text_cell(&keeper, "SELECT c FROM t_settings WHERE id = 1"), "0");
    assert_eq!(text_cell(&keeper, "SELECT d FROM t_settings WHERE id = 1"), "1");
    assert_eq!(text_cell(&keeper, "SELECT e FROM t_settings WHERE id = 1"), "BLOB");
    assert_eq!(text_cell(&keeper, "SELECT f FROM t_settings WHERE id = 1"), "NULL");
    assert_eq!(db.get_setting("a").unwrap().to_string(), "7");
    let notes: Vec<(String, bool)> = db.migration_notes().into_iter().map(|n| (n.statement, n.taken)).collect();
    assert_eq!(
        notes,
        vec![
            ("UPDATE t_settings SET a = 7 WHERE id = 1".to_string(), true),
            ("UPDATE t_settings SET c = 0 WHERE id = 1".to_string(), true),
        ]
    );
}

#[test]
fn a_refused_addition_is_passed_over_and_noted() {
    let keeper = shared("refused_addition");
    keeper
        .execute_batch(
            "CREATE TABLE s_settings (id INTEGER PRIMARY KEY, kept INTEGER DEFAULT 1);
             INSERT INTO s_settings (id, kept) VALUES (1, 5);",
        )
        .unwrap();
    let schema = vec![Table {
        name: "s_settings",
        columns: vec![
            Column { name: "kept", data_type: ColumnType::Integer, default_value: "1" },
            Column { name: "broken", data_type: ColumnType::Integer, default_value: "((" },
            Column { name: "added", data_type: ColumnType::Integer, default_value: "3" },
        ],
    }];
    let mut db = SqlDbManager::open_or_create(shared("refused_addition"), true, schema, 1, &vec![]).unwrap();
    assert_eq!(db.get_setting("kept").unwrap().to_string(), "5");
    assert_eq!(db.get_setting("added").unwrap().to_string(), "3");
    assert_eq!(db.get_setting("broken").unwrap_err(), StoreError::StoreIO);
    assert_eq!(db.schema_version(), 1);
    let notes: Vec<(String, bool)> = db.migration_notes().into_iter().map(|n| (n.statement, n.taken)).collect();
    assert_eq!(
        notes,
        vec![
            ("ALTER TABLE s_settings ADD COLUMN broken INTEGER DEFAULT ((".to_string(), false),
            ("ALTER TABLE s_settings ADD COLUMN added INTEGER DEFAULT 3".to_string(), true),
        ]
    );
    let fresh = SqlDbManager::open_or_create(Connection::open_in_memory().unwrap(), false, controller_schema(), 1, &vec![]).unwrap();
    assert_eq!(fresh.migration_notes().len(), 0);
}

#[test]
fn orphans_are_dropped_and_other_tables_stay() {
    let keeper = shared("orphans");
    keeper
        .execute_batch(
            "CREATE TABLE old_settings (id INTEGER PRIMARY KEY, k INTEGER);
             CREATE TABLE legacy (id INTEGER PRIMARY KEY, k INTEGER);
             CREATE TABLE pmode_settings (id INTEGER PRIMARY KEY, p_mode INTEGER DEFAULT 4, cycle_time INTEGER DEFAULT 15);
             INSERT INTO pmode_settings (id) VALUES (1);
             CREATE TABLE pid_settings (id INTEGER PRIMARY KEY, Pb REAL DEFAULT 65.0, cycle_time INTEGER DEFAULT 15);
             INSERT INTO pid_settings (id) VALUES (1);
             CREATE TABLE meta (id INTEGER PRIMARY KEY, version INTEGER);
             INSERT INTO meta (id, version) VALUES (1, 2);",
        )
        .unwrap();
    let mut _db = SqlDbManager::open_or_create(shared("orphans"), true, controller_schema(), 2, &vec![]).unwrap();
    assert_eq!(table_names(&keeper), vec!["legacy", "meta", "pid_settings", "pmode_settings"]);
}

#[test]
fn a_new_store_is_created_whole_or_not_at_all() {
    let keeper = shared("atomic");
    let schema = vec![
        Table {
            name: "good",
            columns: vec![Column { name: "a", data_type: ColumnType::Integer, default_value: "1" }],
        },
        Table {
            name: "bad",
            columns: vec![Column { name: "b", data_type: ColumnType::Integer, default_value: "(" }],
        },
    ];
    let mut failed = SqlDbManager::open_or_create(shared("atomic"), false, schema, 1, &vec![]);
    assert_eq!(failed.err(), Some(StoreError::StoreIO));
    assert_eq!(table_names(&keeper), Vec::<String>::new());
}

#[test]
fn an_opening_that_returns_its_exchanges_ends_as_the_plain_one() {
    let keeper = shared("recorded");
    let bad = vec![Table {
        name: "bad",
        columns: vec![Column { name: "b", data_type: ColumnType::Integer, default_value: "((" }],
    }];
    let (failed, _) = SqlDbManager::open_recorded(shared("recorded"), false, bad, 1, &vec![]);
    assert_eq!(failed.err(), Some(StoreError::StoreIO));
    assert_eq!(table_names(&keeper), Vec::<String>::new());
    let (opened, _) = SqlDbManager::open_recorded(shared("recorded"), false, controller_schema(), 1, &vec![]);
    let mut db = opened.unwrap();
    assert_eq!(db.get_setting("p_mode").unwrap().to_string(), "4");
    assert_eq!(table_names(&keeper), vec!["meta", "pid_settings", "pmode_settings"]);
}

#[test]
fn a_store_that_cannot_be_opened_is_an_io_error() {
    let mut failed = SqlDbManager::new("/nonexistent-directory/for/sure/settings.db");
    assert_eq!(failed.err(), Some(StoreError::StoreIO));
}

#[test]
fn writes_are_checked_against_the_declared_type() {
    let schema = vec![Table {
        name: "mixed",
        columns: vec![
            Column { name: "count", data_type: ColumnType::Integer, default_value: "1" },
            Column { name: "ratio", data_type: ColumnType::Real, default_value: "0.5" },
            Column { name: "label", data_type: ColumnType::Text, default_value: "'x'" },
            Column { name: "enabled", data_type: ColumnType::Boolean, default_value: "0" },
        ],
    }];
    let mut db = SqlDbManager::open_or_create(Connection::open_in_memory().unwrap(), false, schema, 1, &vec![]).unwrap();
    assert_eq!(db.set_setting("count", "abc"), Err(StoreError::InvalidValue));
    assert_eq!(db.set_setting("count", "3000000000"), Err(StoreError::InvalidValue));
    assert_eq!(db.set_setting("count", ""), Err(StoreError::InvalidValue));
    assert_eq!(db.set_setting("count", "-12"), Ok(()));
    assert!(matches!(db.get_setting("count").unwrap(), SettingValue::Integer(-12)));
    assert_eq!(db.set_setting("ratio", "fast"), Err(StoreError::InvalidValue));
    assert_eq!(db.set_setting("ratio", "2.25"), Ok(()));
    assert_eq!(db.get_setting("ratio").unwrap().to_string(), "2.25");
    assert_eq!(db.set_setting("ratio", "1e2"), Ok(()));
    assert_eq!(db.get_setting("ratio").unwrap().to_string(), "100");
    assert_eq!(db.set_setting("label", "anything at all"), Ok(()));
    assert_eq!(db.get_setting("label").unwrap().to_string(), "anything at all");
    assert_eq!(db.set_setting("label", "'; DROP TABLE mixed; --"), Ok(()));
    assert_eq!(db.get_setting("label").unwrap().to_string(), "'; DROP TABLE mixed; --");
    assert_eq!(db.set_setting("enabled", "yes"), Err(StoreError::InvalidValue));
    assert!(matches!(db.get_setting("enabled").unwrap(), SettingValue::Boolean(false)));
    assert_eq!(db.set_setting("enabled", "TRUE"), Ok(()));
    assert!(matches!(db.get_setting("enabled").unwrap(), SettingValue::Boolean(true)));
    assert_eq!(db.get_setting("enabled").unwrap().to_string(), "true");
    assert_eq!(db.set_setting("enabled", "0"), Ok(()));
    assert_eq!(db.get_setting("enabled").unwrap().to_string(), "false");
    assert_eq!(db.set_setting("missing", "1"), Err(StoreError::NotFound));
    assert_eq!(db.get_setting("missing").unwrap_err(), StoreError::NotFound);
}

#[test]
fn a_failed_read_aborts_the_grouped_read() {
    let keeper = shared("grouped_failure");
    let mut db = SqlDbManager::open_or_create(shared("grouped_failure"), false, controller_schema(), 1, &vec![])
        .unwrap();
    keeper.execute("DROP TABLE pid_settings", []).unwrap();
    assert_eq!(db.get_setting("p_mode").unwrap().to_string(), "4");
    assert_eq!(db.get_all_settings_grouped().err(), Some(StoreError::StoreIO));
}
