use contextforge::error::ContextForgeError;
use contextforge::server::{context_reply, no_memories_reply, recall_mode, scan_root};
use contextforge::storage::SearchMode;
use contextforge::text::{char_is_white_space, first_line_of};
use contextforge::tools;

#[test]
fn white_space_matches_std() {
    for u in 0u32..=0x3100 {
        if let Some(c) = char::from_u32(u) {
            assert_eq!(char_is_white_space(c), c.is_whitespace(), "U+{u:04X}");
        }
    }
}

#[test]
fn first_line_matches_str_lines() {
    for s in ["", "a", "a\nb", "a\r\nb", "a\r", "\nb", "a\rb\nc", "\r\n"] {
        assert_eq!(first_line_of(s), s.lines().next().unwrap_or(""), "{s:?}");
    }
}

#[test]
fn error_messages() {
    assert_eq!(ContextForgeError::Server("x".into()).message(), "MCP server error: x");
    assert_eq!(ContextForgeError::Tool("y".into()).message(), "Tool error: y");
    assert_eq!(ContextForgeError::Other("z".into()).message(), "z");
    assert_eq!(ContextForgeError::Parse("p".into()).message(), "Parse error: p");
}

#[test]
fn tool_decisions() {
    assert_eq!(recall_mode(true), SearchMode::Hybrid);
    assert_eq!(recall_mode(false), SearchMode::Keyword);
    assert_eq!(no_memories_reply(), "No memories found matching your query.");
    assert_eq!(context_reply(None), "[stub] Would provide context for: general");
    assert_eq!(context_reply(Some("file")), "[stub] Would provide context for: file");
    assert_eq!(scan_root(None), ".");
    assert_eq!(scan_root(Some("/tmp")), "/tmp");
    assert_eq!(SearchMode::default(), SearchMode::Keyword);
}

#[test]
fn tool_defaults() {
    assert_eq!(tools::code_scan::default_max_commits(), 200);
    assert_eq!(tools::context::default_limit(), 5);
    assert_eq!(tools::memory_inspect::default_limit(), 20);
    assert_eq!(tools::memory_search::default_limit(), 10);
    assert_eq!(tools::recall::default_limit(), 10);
}
