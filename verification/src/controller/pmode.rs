//! Timed mode: the auger runs for one cycle length, then rests for the
//! cycle length and ten seconds more for each step of the mode.

use vstd::prelude::*;
use crate::controller::ControllerSchema;
use crate::database::sql_schema::{Column, ColumnSpec, ColumnType, Table, TableSpec, tables_view};

verus! {

/// The timed control law.
pub struct PModeController {
    pub p_mode: u32,
}

/// Seconds on and seconds off of one auger cycle in timed mode.
pub open spec fn on_off_times(p_mode: u32, cycle_length: u64) -> (int, int) {
    (cycle_length as int, cycle_length + p_mode * 10)
}

impl PModeController {
    pub fn new(p_mode: u32) -> (r: Self)
        ensures
            r.p_mode == p_mode,
    {
        Self { p_mode }
    }

    /// Seconds on and seconds off for this mode and `cycle_length`. The off
    /// time must fit in 64 bits.
    pub fn get_on_off_times(&self, cycle_length: u64) -> (r: (u64, u64))
        requires
            cycle_length + self.p_mode * 10 <= u64::MAX,
        ensures
            (r.0 as int, r.1 as int) == on_off_times(self.p_mode, cycle_length),
    {
        let on_time = cycle_length;
        let off_time = cycle_length + (self.p_mode as u64) * 10;
        (on_time, off_time)
    }

    /// As `get_on_off_times`, or `None` where the off time does not fit in
    /// 64 bits.
    pub fn checked_on_off_times(&self, cycle_length: u64) -> (r: Option<(u64, u64)>)
        ensures
            match r {
                Some(t) => (t.0 as int, t.1 as int) == on_off_times(self.p_mode, cycle_length),
                None => cycle_length + self.p_mode * 10 > u64::MAX,
            },
    {
        let rest = (self.p_mode as u64) * 10;
        if cycle_length <= u64::MAX - rest {
            Some(self.get_on_off_times(cycle_length))
        } else {
            None
        }
    }
}

impl ControllerSchema for PModeController {
    open spec fn declared_tables() -> Seq<TableSpec> {
        seq![
            TableSpec {
                name: "pmode_settings"@,
                columns: seq![
                    ColumnSpec { name: "p_mode"@, data_type: ColumnType::Integer, default_value: "4"@ },
                    ColumnSpec { name: "cycle_time"@, data_type: ColumnType::Integer, default_value: "15"@ },
                ],
            },
        ]
    }

    fn controller_tables() -> (r: Vec<Table>) {
        let r = vec![
            Table {
                name: "pmode_settings",
                columns: vec![
                    Column { name: "p_mode", data_type: ColumnType::Integer, default_value: "4" },
                    Column { name: "cycle_time", data_type: ColumnType::Integer, default_value: "15" },
                ],
            },
        ];
        assert(tables_view(r@) =~~= Self::declared_tables());
        r
    }
}

} // verus!
