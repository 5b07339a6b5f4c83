//! The decisions of the service's tools, apart from the protocol that carries them.

use vstd::prelude::*;
use crate::storage::SearchMode;
use crate::text::string_of;

verus! {

/// The search mode of a recall: hybrid when the query could be embedded,
/// keyword search otherwise.
pub fn recall_mode(has_embedding: bool) -> (res: SearchMode)
    ensures
        res == if has_embedding {
            SearchMode::Hybrid
        } else {
            SearchMode::Keyword
        },
{
    if has_embedding {
        SearchMode::Hybrid
    } else {
        SearchMode::Keyword
    }
}

/// The reply of a recall that found nothing.
pub fn no_memories_reply() -> (res: String)
    ensures
        res@ == "No memories found matching your query."@,
{
    string_of("No memories found matching your query.")
}

/// The focus of a context request: the one given, else `general`.
pub open spec fn context_focus(focus: Option<Seq<char>>) -> Seq<char> {
    match focus {
        Some(f) => f,
        None => "general"@,
    }
}

/// The reply of the (not yet implemented) context tool.
pub fn context_reply(focus: Option<&str>) -> (res: String)
    ensures
        res@ == "[stub] Would provide context for: "@ + context_focus(
            match focus {
                Some(f) => Some(f@),
                None => None,
            },
        ),
{
    let f = match focus {
        Some(f) => f,
        None => "general",
    };
    string_of("[stub] Would provide context for: ").concat(f)
}

/// The directory a scan starts from: the one given, else the current one (`.`).
pub fn scan_root(path: Option<&str>) -> (res: String)
    ensures
        res@ == match path {
            Some(p) => p@,
            None => "."@,
        },
{
    match path {
        Some(p) => string_of(p),
        None => string_of("."),
    }
}

} // verus!
