//! Sv39 translation: table entries, tables, and the manager that owns the
//! tables of one address space.

pub mod dump;
pub mod entry;
pub mod manager;
pub mod range;
pub mod table;
