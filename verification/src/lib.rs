//! Verified core of a persistent code-memory service: the rules by which it
//! scans code, reads git history, plans memory searches and keeps its records.

pub mod code_intel;
pub mod error;
pub mod server;
pub mod storage;
pub mod text;
pub mod tools;
