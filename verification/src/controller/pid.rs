//! The PID control law: proportional band, integral time and derivative
//! time, kept as settings. The law itself is not computed here.

use vstd::prelude::*;
use crate::controller::ControllerSchema;
use crate::database::sql_schema::{Column, ColumnSpec, ColumnType, Table, TableSpec, tables_view};

verus! {

/// The PID control law.
pub struct PidController {}

impl PidController {
    pub fn new() -> (r: Self) {
        Self {  }
    }
}

impl ControllerSchema for PidController {
    open spec fn declared_tables() -> Seq<TableSpec> {
        seq![
            TableSpec {
                name: "pid_settings"@,
                columns: seq![
                    ColumnSpec { name: "Pb"@, data_type: ColumnType::Real, default_value: "65.0"@ },
                    ColumnSpec { name: "Ti"@, data_type: ColumnType::Real, default_value: "180.0"@ },
                    ColumnSpec { name: "Td"@, data_type: ColumnType::Real, default_value: "45.0"@ },
                    ColumnSpec { name: "cycle_time"@, data_type: ColumnType::Integer, default_value: "15"@ },
                ],
            },
        ]
    }

    fn controller_tables() -> (r: Vec<Table>) {
        let r = vec![
            Table {
                name: "pid_settings",
                columns: vec![
                    Column { name: "Pb", data_type: ColumnType::Real, default_value: "65.0" },
                    Column { name: "Ti", data_type: ColumnType::Real, default_value: "180.0" },
                    Column { name: "Td", data_type: ColumnType::Real, default_value: "45.0" },
                    Column { name: "cycle_time", data_type: ColumnType::Integer, default_value: "15" },
                ],
            },
        ];
        assert(tables_view(r@) =~~= Self::declared_tables());
        r
    }
}

} // verus!
