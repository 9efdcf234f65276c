//! The declared layout of the settings store: its tables, their columns
//! with type and default, the version of that layout, and the column
//! renames that a migration carries out.

use vstd::prelude::*;

verus! {

/// Version of the layout declared here. It grows whenever the layout changes.
pub const SCHEMA_VERSION: u32 = 6;

/// The declared type of a column.
#[derive(Clone, Copy, Debug, PartialEq, Eq, Structural)]
pub enum ColumnType {
    Integer,
    Real,
    Text,
    Boolean,
}

/// One setting: a column of a table's single row.
#[derive(Clone, Copy, Debug)]
pub struct Column {
    pub name: &'static str,
    pub data_type: ColumnType,
    /// A literal of the store's own language: a quoted string, a bare
    /// number, or `0` / `1` for a boolean.
    pub default_value: &'static str,
}

/// A group of settings that the store keeps in one row.
#[derive(Debug)]
pub struct Table {
    pub name: &'static str,
    pub columns: Vec<Column>,
}

/// A column as contracts see it.
#[verifier::ext_equal]
pub struct ColumnSpec {
    pub name: Seq<char>,
    pub data_type: ColumnType,
    pub default_value: Seq<char>,
}

/// A table as contracts see it.
#[verifier::ext_equal]
pub struct TableSpec {
    pub name: Seq<char>,
    pub columns: Seq<ColumnSpec>,
}

impl View for Column {
    type V = ColumnSpec;

    open spec fn view(&self) -> ColumnSpec {
        ColumnSpec {
            name: self.name@,
            data_type: self.data_type,
            default_value: self.default_value@,
        }
    }
}

impl View for Table {
    type V = TableSpec;

    open spec fn view(&self) -> TableSpec {
        TableSpec { name: self.name@, columns: columns_view(self.columns@) }
    }
}

/// The columns of a table as contracts see them.
pub open spec fn columns_view(columns: Seq<Column>) -> Seq<ColumnSpec> {
    columns.map_values(|c: Column| c@)
}

/// A list of tables as contracts see it.
pub open spec fn tables_view(tables: Seq<Table>) -> Seq<TableSpec> {
    tables.map_values(|t: Table| t@)
}

impl ColumnType {
    /// The name under which the store knows this type.
    pub open spec fn spec_sql_name(self) -> Seq<char> {
        match self {
            ColumnType::Integer => "INTEGER"@,
            ColumnType::Real => "REAL"@,
            ColumnType::Text => "TEXT"@,
            ColumnType::Boolean => "BOOLEAN"@,
        }
    }

    /// The name under which the store knows this type.
    pub fn sql_name(self) -> (r: &'static str)
        ensures
            r@ == self.spec_sql_name(),
    {
        match self {
            ColumnType::Integer => "INTEGER",
            ColumnType::Real => "REAL",
            ColumnType::Text => "TEXT",
            ColumnType::Boolean => "BOOLEAN",
        }
    }
}

impl Clone for Table {
    fn clone(&self) -> (r: Self)
        ensures
            r@ == self@,
    {
        let mut columns: Vec<Column> = Vec::new();
        let mut i: usize = 0;
        while i < self.columns.len()
            invariant
                i <= self.columns.len(),
                columns@ == self.columns@.take(i as int),
            decreases self.columns.len() - i,
        {
            columns.push(self.columns[i]);
            assert(columns@ =~= self.columns@.take(i + 1));
            i += 1;
        }
        assert(columns@ =~= self.columns@);
        Table { name: self.name, columns }
    }
}

/// A column rename: in `table`, what `old_column` held moves to `new_column`.
#[derive(Clone, Copy, Debug)]
pub struct Rename {
    pub table: &'static str,
    pub old_column: &'static str,
    pub new_column: &'static str,
}

/// A rename as contracts see it.
#[verifier::ext_equal]
pub struct RenameSpec {
    pub table: Seq<char>,
    pub old_column: Seq<char>,
    pub new_column: Seq<char>,
}

impl View for Rename {
    type V = RenameSpec;

    open spec fn view(&self) -> RenameSpec {
        RenameSpec {
            table: self.table@,
            old_column: self.old_column@,
            new_column: self.new_column@,
        }
    }
}

/// A list of renames as contracts see it.
pub open spec fn renames_view(renames: Seq<Rename>) -> Seq<RenameSpec> {
    renames.map_values(|r: Rename| r@)
}

/// The tables that the application itself declares, as contracts see them.
pub open spec fn static_tables() -> Seq<TableSpec> {
    seq![
        TableSpec {
            name: "device_config"@,
            columns: seq![
                ColumnSpec { name: "device_name"@, data_type: ColumnType::Text, default_value: "'PIDPro'"@ },
                ColumnSpec { name: "device_id"@, data_type: ColumnType::Text, default_value: "'default-id'"@ },
                ColumnSpec { name: "version"@, data_type: ColumnType::Integer, default_value: "1"@ },
                ColumnSpec { name: "board_type"@, data_type: ColumnType::Text, default_value: "'pfpwm'"@ },
            ],
        },
        TableSpec {
            name: "safety_config"@,
            columns: seq![
                ColumnSpec { name: "max_grill_temp"@, data_type: ColumnType::Integer, default_value: "550"@ },
                ColumnSpec { name: "flameout_window"@, data_type: ColumnType::Integer, default_value: "15"@ },
                ColumnSpec { name: "flameout_auger_timeout"@, data_type: ColumnType::Integer, default_value: "300"@ },
                ColumnSpec { name: "min_startup_temp_delta"@, data_type: ColumnType::Integer, default_value: "20"@ },
            ],
        },
        TableSpec {
            name: "mqtt_config"@,
            columns: seq![
                ColumnSpec { name: "enabled"@, data_type: ColumnType::Boolean, default_value: "0"@ },
                ColumnSpec { name: "mqtt_broker"@, data_type: ColumnType::Text, default_value: "'mqtt://localhost'"@ },
                ColumnSpec { name: "mqtt_port"@, data_type: ColumnType::Integer, default_value: "1883"@ },
                ColumnSpec { name: "mqtt_username"@, data_type: ColumnType::Text, default_value: "''"@ },
                ColumnSpec { name: "mqtt_password"@, data_type: ColumnType::Text, default_value: "''"@ },
                ColumnSpec { name: "mqtt_topic_prefix"@, data_type: ColumnType::Text, default_value: "'pidpro'"@ },
            ],
        },
        TableSpec {
            name: "operational_settings"@,
            columns: seq![
                ColumnSpec { name: "p_mode"@, data_type: ColumnType::Integer, default_value: "4"@ },
                ColumnSpec { name: "pid_pb"@, data_type: ColumnType::Integer, default_value: "65"@ },
                ColumnSpec { name: "pid_ti"@, data_type: ColumnType::Integer, default_value: "180"@ },
                ColumnSpec { name: "pid_td"@, data_type: ColumnType::Integer, default_value: "45"@ },
                ColumnSpec { name: "primary_setpoint"@, data_type: ColumnType::Integer, default_value: "225"@ },
            ],
        },
    ]
}

/// The tables that the application itself declares: configuration that
/// changes seldom, then the operational settings.
pub fn static_schema() -> (r: Vec<Table>)
    ensures
        tables_view(r@) == static_tables(),
{
    let r = vec![
        Table {
            name: "device_config",
            columns: vec![
                Column { name: "device_name", data_type: ColumnType::Text, default_value: "'PIDPro'" },
                Column { name: "device_id", data_type: ColumnType::Text, default_value: "'default-id'" },
                Column { name: "version", data_type: ColumnType::Integer, default_value: "1" },
                Column { name: "board_type", data_type: ColumnType::Text, default_value: "'pfpwm'" },
            ],
        },
        Table {
            name: "safety_config",
            columns: vec![
                Column { name: "max_grill_temp", data_type: ColumnType::Integer, default_value: "550" },
                Column { name: "flameout_window", data_type: ColumnType::Integer, default_value: "15" },
                Column { name: "flameout_auger_timeout", data_type: ColumnType::Integer, default_value: "300" },
                Column { name: "min_startup_temp_delta", data_type: ColumnType::Integer, default_value: "20" },
            ],
        },
        Table {
            name: "mqtt_config",
            columns: vec![
                Column { name: "enabled", data_type: ColumnType::Boolean, default_value: "0" },
                Column { name: "mqtt_broker", data_type: ColumnType::Text, default_value: "'mqtt://localhost'" },
                Column { name: "mqtt_port", data_type: ColumnType::Integer, default_value: "1883" },
                Column { name: "mqtt_username", data_type: ColumnType::Text, default_value: "''" },
                Column { name: "mqtt_password", data_type: ColumnType::Text, default_value: "''" },
                Column { name: "mqtt_topic_prefix", data_type: ColumnType::Text, default_value: "'pidpro'" },
            ],
        },
        Table {
            name: "operational_settings",
            columns: vec![
                Column { name: "p_mode", data_type: ColumnType::Integer, default_value: "4" },
                Column { name: "pid_pb", data_type: ColumnType::Integer, default_value: "65" },
                Column { name: "pid_ti", data_type: ColumnType::Integer, default_value: "180" },
                Column { name: "pid_td", data_type: ColumnType::Integer, default_value: "45" },
                Column { name: "primary_setpoint", data_type: ColumnType::Integer, default_value: "225" },
            ],
        },
    ];
    assert(tables_view(r@) =~~= static_tables());
    r
}

/// The renames that a migration carries out. None is declared at present.
pub fn renames() -> (r: Vec<Rename>)
    ensures
        r@.len() == 0,
{
    Vec::new()
}

} // verus!
