//! The settings and the boards of a pellet grill controller.
//!
//! The settings live in a store whose layout is put together at startup
//! from the application's own tables and from what each control law adds.
//! The store is created on first use, migrated when the declared layout
//! has moved on, and read and written by the name of a setting.

pub mod boards;
pub mod controller;
pub mod database;
pub mod literal;
pub mod text;

pub use controller::pid::PidController;
pub use controller::pmode::PModeController;
pub use controller::ControllerSchema;
pub use database::sql::SqlDbManager;
