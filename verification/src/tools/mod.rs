//! Parameters of the service's tools, with their defaults.

pub mod code_scan;
pub mod context;
pub mod memory_forget;
pub mod memory_inspect;
pub mod memory_save;
pub mod memory_search;
pub mod memory_session;
pub mod memory_update;
pub mod recall;
