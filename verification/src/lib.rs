//! Verified state and rule logic of the xgpui desktop UI components: the
//! single-choice `Select`, the `DataTable`, the `DateTimePicker` and the
//! `Button`. Rendering and event plumbing live outside this crate; everything
//! that decides what a component shows or changes is here, with its contract.

pub mod text;
pub mod field_style;
pub mod decimal;
pub mod select;
pub mod data_table;
pub mod button;
pub mod date_time_picker;
