//! The control laws that drive the auger, and what each of them adds to
//! the settings store.

pub mod document;
pub mod pid;
pub mod pmode;
pub mod schedule;
pub mod tuning;

use vstd::prelude::*;
use crate::database::sql_schema::{Table, TableSpec, tables_view};

verus! {

/// The control law in use.
pub enum ControllerType {
    PMode(pmode::PModeController),
    PID(pid::PidController),
}

/// What a control law contributes to the layout of the settings store.
/// The tables must stay the same for a given version of the controller.
pub trait ControllerSchema {
    /// The contributed tables as contracts see them.
    spec fn declared_tables() -> Seq<TableSpec>;

    /// The tables in which this controller keeps its settings.
    fn controller_tables() -> (r: Vec<Table>)
        ensures
            tables_view(r@) == Self::declared_tables(),
    ;
}

} // verus!
