# contextforge

An MCP server that gives AI coding assistants a persistent memory: it stores
decisions and discoveries, recalls them by hybrid (full-text and vector)
search, and scans a codebase for its symbols and git history.

## Layout

- `src/` — the library, verified with Verus. It holds the rules of the service:
  - `storage/` — how a user query becomes an FTS5 MATCH expression, how a
    search is planned, how keyword and vector results are merged, how string
    lists are stored;
  - `code_intel/` — which files a scan visits, content hashes and the
    incremental-scan decision, the syntax-tree model and symbol extraction
    for Rust, JavaScript, TypeScript and Python, the Conventional Commits
    grammar, and the bookkeeping of a scan summary;
  - `server.rs`, `tools/` — the tools' parameters and decisions;
  - `text.rs` — character-level helpers shared by the above.

  Calls into `sha2`, `glob`, `chrono`, `serde_json` and `tree-sitter` stand
  behind small trusted wrappers. Their results are named by uninterpreted spec
  functions of the call's arguments (the digest, the glob match, the JSON text,
  the RFC 3339 text and instant, tree-sitter's tree for a grammar and a source),
  and the library's contracts are stated over those names.
- `tests/` — tests of the library, run against the real outside crates.
- `app/` — the program around the library: the MCP transport (`rmcp`), the
  libSQL database, the directory walk, git access, and the embedding model
  (floating-point work that stays outside the verified part).
