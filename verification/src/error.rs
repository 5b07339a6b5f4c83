//! The library's error type.

use vstd::prelude::*;
use crate::text::string_of;

verus! {

/// Errors of the service, each with its message.
#[derive(Debug)]
pub enum ContextForgeError {
    Server(String),
    Tool(String),
    Io(String),
    Other(String),
    Git(String),
    Parse(String),
    Embedding(String),
    Database(String),
    Storage(String),
}

/// The text shown for an error: a prefix naming its kind, then its message.
pub open spec fn error_text(e: ContextForgeError) -> Seq<char> {
    match e {
        ContextForgeError::Server(m) => "MCP server error: "@ + m@,
        ContextForgeError::Tool(m) => "Tool error: "@ + m@,
        ContextForgeError::Io(m) => "IO error: "@ + m@,
        ContextForgeError::Other(m) => m@,
        ContextForgeError::Git(m) => "Git error: "@ + m@,
        ContextForgeError::Parse(m) => "Parse error: "@ + m@,
        ContextForgeError::Embedding(m) => "Embedding error: "@ + m@,
        ContextForgeError::Database(m) => "Database error: "@ + m@,
        ContextForgeError::Storage(m) => "Storage error: "@ + m@,
    }
}

impl ContextForgeError {
    /// The text shown for this error (see [`error_text`]).
    pub fn message(&self) -> (res: String)
        ensures
            res@ == error_text(*self),
    {
        match self {
            ContextForgeError::Server(m) => string_of("MCP server error: ").concat(m.as_str()),
            ContextForgeError::Tool(m) => string_of("Tool error: ").concat(m.as_str()),
            ContextForgeError::Io(m) => string_of("IO error: ").concat(m.as_str()),
            ContextForgeError::Other(m) => m.clone(),
            ContextForgeError::Git(m) => string_of("Git error: ").concat(m.as_str()),
            ContextForgeError::Parse(m) => string_of("Parse error: ").concat(m.as_str()),
            ContextForgeError::Embedding(m) => string_of("Embedding error: ").concat(m.as_str()),
            ContextForgeError::Database(m) => string_of("Database error: ").concat(m.as_str()),
            ContextForgeError::Storage(m) => string_of("Storage error: ").concat(m.as_str()),
        }
    }
}

} // verus!
