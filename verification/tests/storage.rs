use contextforge::storage::local::{
    created_at_of, decode_string_list, encode_string_list, memory_count, merge_candidates,
    sanitize_fts_query,
    MemorySource,
};
use contextforge::storage::{plan_search, SearchMode, SearchPlan};

#[test]
fn test_sanitize_fts_empty() {
    assert_eq!(sanitize_fts_query(""), "");
    assert_eq!(sanitize_fts_query("   "), "");
}

#[test]
fn test_sanitize_fts_simple() {
    assert_eq!(sanitize_fts_query("hello world"), "\"hello\" \"world\"");
}

#[test]
fn test_sanitize_fts_operators() {
    assert_eq!(
        sanitize_fts_query("AND OR NOT NEAR"),
        "\"AND\" \"OR\" \"NOT\" \"NEAR\""
    );
}

#[test]
fn test_sanitize_fts_existing_quotes() {
    assert_eq!(sanitize_fts_query("\"hello\" world"), "\"hello\" \"world\"");
}

#[test]
fn test_sanitize_fts_single_token() {
    assert_eq!(sanitize_fts_query("auth"), "\"auth\"");
}

fn reference_sanitize(query: &str) -> String {
    query
        .split_whitespace()
        .map(|token| {
            let clean = token.replace('"', "");
            format!("\"{clean}\"")
        })
        .collect::<Vec<_>>()
        .join(" ")
}

#[test]
fn sanitize_agrees_with_split_whitespace_on_samples() {
    let samples = [
        "",
        " ",
        "\t\n a\u{00A0}b\u{2003}c \u{3000}",
        "\"\"",
        "a\"b\"c  \" d",
        "  leading and trailing  ",
        "x\u{200B}y",
        "\u{1680}only\u{205F}blanks\u{85}",
        "NEAR(a b) OR c*",
    ];
    for s in samples {
        assert_eq!(sanitize_fts_query(s), reference_sanitize(s), "sample {s:?}");
    }
}

#[test]
fn sanitize_is_idempotent_on_samples() {
    for s in ["hello world", "\" a \"\" b", "  x  ", "", "\u{2028}q\u{2029}"] {
        let once = sanitize_fts_query(s);
        assert_eq!(sanitize_fts_query(&once), once);
    }
}

#[test]
fn sanitize_quote_only_word_becomes_empty_literal() {
    assert_eq!(sanitize_fts_query("\" a"), "\"\" \"a\"");
}

#[test]
fn plan_keyword_defaults_limit() {
    match plan_search("auth flow", 0, SearchMode::Keyword, false) {
        SearchPlan::Keyword { fts_query, limit } => {
            assert_eq!(fts_query, "\"auth\" \"flow\"");
            assert_eq!(limit, 10);
        }
        _ => panic!("expected a keyword plan"),
    }
}

#[test]
fn plan_blank_query_finds_nothing() {
    assert!(matches!(plan_search("  ", 5, SearchMode::Keyword, true), SearchPlan::Nothing));
}

#[test]
fn plan_vector_needs_embedding() {
    assert!(matches!(plan_search("q", 5, SearchMode::Vector, false), SearchPlan::Nothing));
    assert!(matches!(
        plan_search("q", 5, SearchMode::Vector, true),
        SearchPlan::Vector { limit: 5 }
    ));
}

#[test]
fn plan_hybrid_triples_candidates() {
    match plan_search("jwt", 4, SearchMode::Hybrid, true) {
        SearchPlan::Hybrid { keyword_query, candidates, limit } => {
            assert_eq!(keyword_query.as_deref(), Some("\"jwt\""));
            assert_eq!(candidates, 12);
            assert_eq!(limit, 4);
        }
        _ => panic!("expected a hybrid plan"),
    }
    match plan_search("", 0, SearchMode::Hybrid, true) {
        SearchPlan::Hybrid { keyword_query, candidates, limit } => {
            assert!(keyword_query.is_none());
            assert_eq!(candidates, 30);
            assert_eq!(limit, 10);
        }
        _ => panic!("expected a hybrid plan"),
    }
}

#[test]
fn plan_hybrid_without_embedding_is_keyword() {
    assert!(matches!(
        plan_search("x", 2, SearchMode::Hybrid, false),
        SearchPlan::Keyword { limit: 2, .. }
    ));
}

#[test]
fn string_list_round_trip() {
    let items = vec!["src/main.rs".to_string(), "a \"quoted\" name".to_string(), "ünï".to_string()];
    let text = encode_string_list(&items);
    assert_eq!(text, serde_json::to_string(&items).unwrap());
    assert_eq!(decode_string_list(Some(&text)), items);
    assert_eq!(encode_string_list(&Vec::new()), "[]");
}

#[test]
fn decode_falls_back_to_empty() {
    assert!(decode_string_list(None).is_empty());
    assert!(decode_string_list(Some("not json")).is_empty());
    assert!(decode_string_list(Some("[1, 2]")).is_empty());
    assert_eq!(decode_string_list(Some("[\"a\"]")), vec!["a".to_string()]);
}

#[test]
fn count_of_rows() {
    assert_eq!(memory_count(None), 0);
    assert_eq!(memory_count(Some(7)), 7);
    assert_eq!(memory_count(Some(-1)), u64::MAX);
}

fn ids(xs: &[&str]) -> Vec<String> {
    xs.iter().map(|s| s.to_string()).collect()
}

#[test]
fn merge_lists_each_memory_once() {
    let kw = ids(&["a", "b", "a"]);
    let vec = ids(&["c", "b", "c", "d"]);
    let cands = merge_candidates(&kw, &vec);
    let got: Vec<&str> = cands.iter().map(|c| c.id.as_str()).collect();
    assert_eq!(got, vec!["a", "b", "c", "d"]);
    assert_eq!(cands[0].keyword, Some(2));
    assert_eq!(cands[0].vector, None);
    assert_eq!(cands[0].memory, MemorySource::Keyword(2));
    assert_eq!(cands[1].keyword, Some(1));
    assert_eq!(cands[1].vector, Some(1));
    assert_eq!(cands[1].memory, MemorySource::Keyword(1));
    assert_eq!(cands[2].keyword, None);
    assert_eq!(cands[2].vector, Some(2));
    assert_eq!(cands[2].memory, MemorySource::Vector(0));
    assert_eq!(cands[3].memory, MemorySource::Vector(3));
}

#[test]
fn merge_of_nothing_is_empty() {
    assert!(merge_candidates(&Vec::new(), &Vec::new()).is_empty());
}

#[test]
fn sanitized_words_are_string_literals() {
    for q in ["a\"b\"c OR NOT", "NEAR(x y)", "  \"\"  -col:1  ", "x* ^y"] {
        let out = sanitize_fts_query(q);
        let words: Vec<&str> = out.split_whitespace().collect();
        assert_eq!(words.len(), q.split_whitespace().count());
        for w in words {
            assert!(w.len() >= 2 && w.starts_with('"') && w.ends_with('"'));
            assert!(!w[1..w.len() - 1].contains('"'));
        }
    }
}

#[test]
fn created_at_reads_rfc3339_instants() {
    assert_eq!(created_at_of("2024-01-02T03:04:05+00:00"), Some((1704164645, 0)));
    assert_eq!(created_at_of("2024-01-02T05:04:05.25+02:00"), Some((1704164645, 250_000_000)));
    assert_eq!(created_at_of("2024-01-02 03:04:05"), None);
    assert_eq!(created_at_of(""), None);
}
