//! Memory storage: how searches are planned and what is stored of a memory.

pub mod local;

use vstd::prelude::*;
use crate::storage::local::{lemma_sanitize_empty_iff_blank, sanitize_fts_query, sanitized_query};
use crate::text::is_white_space;

verus! {

/// How to search memories.
#[derive(Clone, Copy, Debug, PartialEq, Eq, Structural)]
pub enum SearchMode {
    /// FTS5 keyword search only
    Keyword,
    /// Vector similarity search only (requires a query embedding)
    Vector,
    /// Hybrid: FTS5 + vector similarity, merged (requires a query embedding)
    Hybrid,
}

impl Default for SearchMode {
    fn default() -> (res: Self)
        ensures
            res == SearchMode::Keyword,
    {
        SearchMode::Keyword
    }
}

/// Search filters (the query embedding, if any, travels beside them).
pub struct SearchFilter {
    pub category: Option<String>,
    pub limit: u32,
    pub mode: SearchMode,
}

/// The searches to run for a query.
pub enum SearchPlan {
    /// Nothing can match: the result is empty.
    Nothing,
    /// Full-text search with this MATCH expression, for at most `limit` rows.
    Keyword { fts_query: String, limit: u32 },
    /// Vector similarity search, for at most `limit` rows.
    Vector { limit: u32 },
    /// Full-text search (when the MATCH expression is not empty) and vector
    /// search, each for at most `candidates` rows, merged into at most `limit` results.
    Hybrid { keyword_query: Option<String>, candidates: u32, limit: u32 },
}

/// The result limit used for a requested limit: 10 when none (0) is given.
pub open spec fn effective_limit(limit: u32) -> u32 {
    if limit == 0 {
        10
    } else {
        limit
    }
}

/// A requested limit is kept as it is; only a request for no limit (0) falls
/// back to 10 results.
pub proof fn lemma_requested_limit_is_kept(limit: u32)
    ensures
        limit > 0 ==> effective_limit(limit) == limit,
        limit == 0 ==> effective_limit(limit) == 10,
        effective_limit(limit) > 0,
{
}

/// The result limit used for a requested limit: 10 when none (0) is given.
pub fn effective_limit_of(limit: u32) -> (res: u32)
    ensures
        res == effective_limit(limit),
{
    if limit == 0 {
        10
    } else {
        limit
    }
}

/// The full-text part of a search: nothing when the sanitised query is empty.
pub open spec fn keyword_part(query: Seq<char>) -> Option<Seq<char>> {
    if sanitized_query(query).len() == 0 {
        None
    } else {
        Some(sanitized_query(query))
    }
}

/// A keyword search runs exactly when the query holds a non-blank character:
/// a blank query makes the full-text part find nothing.
pub proof fn lemma_keyword_part_iff_not_blank(query: Seq<char>)
    ensures
        (keyword_part(query) is None) <==> (forall|i: int|
            0 <= i < query.len() ==> is_white_space(#[trigger] query[i])),
{
    lemma_sanitize_empty_iff_blank(query);
}

/// Plan the searches for `query` under `mode`, knowing whether a query embedding
/// is at hand: keyword mode (and hybrid mode without an embedding) runs the
/// full-text search; vector mode runs the vector search, or nothing without an
/// embedding; hybrid mode with an embedding runs both for three times the limit
/// and merges them. An empty sanitised query makes the full-text part find nothing.
pub fn plan_search(query: &str, limit: u32, mode: SearchMode, has_embedding: bool) -> (res:
    SearchPlan)
    requires
        mode == SearchMode::Hybrid && has_embedding ==> effective_limit(limit) * 3 <= u32::MAX,
    ensures
        match res {
            SearchPlan::Nothing => {
                ||| mode == SearchMode::Vector && !has_embedding
                ||| mode != SearchMode::Vector && !(mode == SearchMode::Hybrid && has_embedding)
                    && keyword_part(query@) is None
            },
            SearchPlan::Keyword { fts_query, limit: l } => {
                &&& mode != SearchMode::Vector && !(mode == SearchMode::Hybrid && has_embedding)
                &&& keyword_part(query@) == Some(fts_query@)
                &&& l == effective_limit(limit)
            },
            SearchPlan::Vector { limit: l } => {
                &&& mode == SearchMode::Vector && has_embedding
                &&& l == effective_limit(limit)
            },
            SearchPlan::Hybrid { keyword_query, candidates, limit: l } => {
                &&& mode == SearchMode::Hybrid && has_embedding
                &&& keyword_query.deep_view() == keyword_part(query@)
                &&& candidates == effective_limit(limit) * 3
                &&& l == effective_limit(limit)
            },
        },
{
    let l = effective_limit_of(limit);
    match mode {
        SearchMode::Vector => {
            if has_embedding {
                SearchPlan::Vector { limit: l }
            } else {
                SearchPlan::Nothing
            }
        },
        SearchMode::Hybrid if has_embedding => {
            let fts = sanitize_fts_query(query);
            let keyword_query = if fts.as_str().is_empty() {
                None
            } else {
                Some(fts)
            };
            SearchPlan::Hybrid { keyword_query, candidates: l * 3, limit: l }
        },
        _ => {
            let fts = sanitize_fts_query(query);
            if fts.as_str().is_empty() {
                SearchPlan::Nothing
            } else {
                SearchPlan::Keyword { fts_query: fts, limit: l }
            }
        },
    }
}

} // verus!
