//! The logic behind a browser for systemd units: unit records, the actions that
//! a unit's state allows, the collection that backs the table, the search
//! filter, the column sort, and what a selection binds to the controls.

pub mod text;
pub mod unit;
pub mod policy;
pub mod filter;
pub mod table;
pub mod sort;
pub mod collection;
pub mod selection;
pub mod source;
