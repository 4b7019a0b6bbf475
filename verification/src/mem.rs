//! Memory: addresses, the regions that back them, the per-task address map
//! and the page tables.

pub mod address;
pub mod address_map;
pub mod paging;
pub mod region;
