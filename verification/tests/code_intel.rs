use contextforge::code_intel::languages::LanguageRegistry;
use contextforge::code_intel::parser::{extract_symbols, fits_rows, CodeParser, SymbolKind, SyntaxNode};
use contextforge::code_intel::{
    sha256_hex, select_file, walk_keeps_entry, CodeScanner, ContentScan, GitScanOutcome,
    ScanFileResult, ScanSummary,
};
use contextforge::error::ContextForgeError;

#[test]
fn test_sha256_deterministic() {
    let hash1 = sha256_hex("hello world");
    let hash2 = sha256_hex("hello world");
    assert_eq!(hash1, hash2);
    assert_ne!(hash1, sha256_hex("hello world!"));
}

#[test]
fn sha256_hex_known_value() {
    assert_eq!(
        sha256_hex("hello world"),
        "b94d27b9934d3e08a52e52d7da7dabfac484efe37a5380ee9088f7ace2efcde9"
    );
    assert_eq!(
        sha256_hex(""),
        "e3b0c44298fc1c149afbf4c8996fb92427ae41e4649b934ca495991b7852b855"
    );
}

#[test]
fn test_parse_rust() {
    let source = r#"
use std::collections::HashMap;

fn hello(name: &str) -> String {
    format!("Hello, {name}")
}

struct Config {
    port: u16,
}

enum Status {
    Active,
    Inactive,
}

trait Greet {
    fn greet(&self) -> String;
}

impl Greet for Config {
    fn greet(&self) -> String {
        "hi".into()
    }
}
"#;
    let mut parser = CodeParser::new();
    let entry = LanguageRegistry::get("rs").unwrap();
    let symbols = parser.parse(source, entry.language, entry.name).unwrap();

    assert!(symbols.iter().any(|s| s.name == "hello" && s.kind == SymbolKind::Function));
    assert!(symbols.iter().any(|s| s.name == "Config" && s.kind == SymbolKind::Struct));
    assert!(symbols.iter().any(|s| s.name == "Status" && s.kind == SymbolKind::Enum));
    assert!(symbols.iter().any(|s| s.name == "Greet" && s.kind == SymbolKind::Trait));
    assert!(symbols.iter().any(|s| s.kind == SymbolKind::Impl));
    assert!(symbols.iter().any(|s| s.kind == SymbolKind::Import));
}

#[test]
fn test_parse_javascript() {
    let source = r#"
import { foo } from 'bar';

function greet(name) {
    return `Hello, ${name}`;
}

class Widget {
    constructor(id) {
        this.id = id;
    }
}

const handler = () => {
    return true;
};
"#;
    let mut parser = CodeParser::new();
    let entry = LanguageRegistry::get("js").unwrap();
    let symbols = parser.parse(source, entry.language, entry.name).unwrap();

    assert!(symbols.iter().any(|s| s.name == "greet" && s.kind == SymbolKind::Function));
    assert!(symbols.iter().any(|s| s.name == "Widget" && s.kind == SymbolKind::Class));
    assert!(symbols.iter().any(|s| s.kind == SymbolKind::Import));
    assert!(symbols.iter().any(|s| s.name == "handler" && s.kind == SymbolKind::Function));
}

#[test]
fn test_parse_python() {
    let source = r#"
import os
from sys import path

def hello():
    pass

class MyClass:
    def method(self):
        pass
"#;
    let mut parser = CodeParser::new();
    let entry = LanguageRegistry::get("py").unwrap();
    let symbols = parser.parse(source, entry.language, entry.name).unwrap();

    assert!(symbols.iter().any(|s| s.name == "hello" && s.kind == SymbolKind::Function));
    assert!(symbols.iter().any(|s| s.name == "MyClass" && s.kind == SymbolKind::Class));
    assert!(symbols.iter().any(|s| s.kind == SymbolKind::Import));
}

#[test]
fn parse_rust_lines_signatures_and_impl_names() {
    let source = "use a::b;\n\nimpl Foo {\n    fn x() {}\n}\n\ntype T = u8;\n";
    let mut parser = CodeParser::new();
    let entry = LanguageRegistry::get("rs").unwrap();
    let symbols = parser.parse(source, entry.language, entry.name).unwrap();
    assert_eq!(symbols.len(), 3);
    assert_eq!(symbols[0].kind, SymbolKind::Import);
    assert_eq!(symbols[0].name, "use a::b;");
    assert_eq!(symbols[0].start_line, 1);
    assert_eq!(symbols[1].kind, SymbolKind::Impl);
    assert_eq!(symbols[1].name, "Foo");
    assert_eq!(symbols[1].start_line, 3);
    assert_eq!(symbols[1].end_line, 5);
    assert_eq!(symbols[1].signature, "impl Foo {");
    assert_eq!(symbols[2].kind, SymbolKind::TypeAlias);
    assert_eq!(symbols[2].name, "T");
}

#[test]
fn parse_typescript_exports_and_interfaces() {
    let source = "export interface Shape { area(): number }\nexport type Id = string;\nexport function f() {}\n";
    let mut parser = CodeParser::new();
    let entry = LanguageRegistry::get("ts").unwrap();
    let symbols = parser.parse(source, entry.language, entry.name).unwrap();
    let got: Vec<(&str, SymbolKind)> = symbols.iter().map(|s| (s.name.as_str(), s.kind)).collect();
    assert_eq!(
        got,
        vec![("Shape", SymbolKind::Interface), ("Id", SymbolKind::TypeAlias), ("f", SymbolKind::Function)]
    );
}

#[test]
fn parse_python_decorated_definitions() {
    let source = "@decorator\ndef wrapped():\n    pass\n\n@dataclass\nclass Point:\n    x: int\n";
    let mut parser = CodeParser::new();
    let entry = LanguageRegistry::get("py").unwrap();
    let symbols = parser.parse(source, entry.language, entry.name).unwrap();
    assert_eq!(symbols.len(), 2);
    assert_eq!(symbols[0].name, "wrapped");
    assert_eq!(symbols[0].kind, SymbolKind::Function);
    assert_eq!(symbols[0].start_line, 2);
    assert_eq!(symbols[1].name, "Point");
    assert_eq!(symbols[1].kind, SymbolKind::Class);
}

#[test]
fn parse_unknown_language_name_gives_nothing() {
    let mut parser = CodeParser::new();
    let entry = LanguageRegistry::get("rs").unwrap();
    let symbols = parser.parse("fn a() {}", entry.language, "Cobol").unwrap();
    assert!(symbols.is_empty());
}

fn leaf(kind: &str, field: Option<&str>, start: usize, end: usize, row: usize) -> SyntaxNode {
    SyntaxNode {
        kind: kind.to_string(),
        field: field.map(|f| f.to_string()),
        named: true,
        start_byte: start,
        end_byte: end,
        start_row: row,
        end_row: row,
        children: Vec::new(),
    }
}

#[test]
fn extract_from_hand_built_tree() {
    let source = b"fn go() {}\nstruct S;";
    let f = SyntaxNode {
        children: vec![leaf("identifier", Some("name"), 3, 5, 0)],
        ..leaf("function_item", None, 0, 10, 0)
    };
    let s = SyntaxNode { children: vec![], ..leaf("struct_item", None, 11, 20, 1) };
    let other = leaf("line_comment", None, 0, 0, 0);
    let root = SyntaxNode { children: vec![f, s, other], ..leaf("source_file", None, 0, 20, 0) };
    let symbols = extract_symbols(&root, source, "Rust");
    assert_eq!(symbols.len(), 2);
    assert_eq!(symbols[0].name, "go");
    assert_eq!(symbols[0].signature, "fn go() {}");
    assert_eq!(symbols[1].name, "<anonymous>");
    assert_eq!(symbols[1].start_line, 2);
    assert_eq!(symbols[1].kind.as_str(), "struct");
}

#[test]
fn symbol_kind_names() {
    assert_eq!(SymbolKind::Function.as_str(), "function");
    assert_eq!(SymbolKind::TypeAlias.as_str(), "type_alias");
    assert_eq!(SymbolKind::Import.as_str(), "import");
}

#[test]
fn walk_skips_the_listed_directories() {
    for d in [".git", "node_modules", "target", "vendor", "__pycache__", ".venv", "venv", "dist", "build", ".next"] {
        assert!(!walk_keeps_entry(true, d), "{d} is skipped");
        assert!(walk_keeps_entry(false, d), "a file named {d} is kept");
    }
    assert!(walk_keeps_entry(true, "."));
    assert!(walk_keeps_entry(true, ".github"));
    assert!(walk_keeps_entry(true, "src"));
    assert!(walk_keeps_entry(true, "Target"));
}

#[test]
fn file_selection_by_extension_and_globs() {
    let none: Vec<String> = Vec::new();
    assert!(select_file("rs", "src/main.rs", &none));
    assert!(!select_file("md", "README.md", &none));
    let pats = vec!["src/*.rs".to_string()];
    assert!(select_file("rs", "src/lib.rs", &pats));
    assert!(!select_file("rs", "tests/a.rs", &pats));
    let invalid = vec!["[".to_string()];
    assert!(select_file("rs", "tests/a.rs", &invalid));
    let mixed = vec!["[".to_string(), "*.py".to_string()];
    assert!(!select_file("rs", "tests/a.rs", &mixed));
}

#[test]
fn scan_content_skips_unchanged_and_unsupported() {
    let mut scanner = CodeScanner::new();
    let h = sha256_hex("fn a() {}");
    assert!(matches!(scanner.scan_content("fn a() {}", Some(&h), "rs"), Ok(ContentScan::Unchanged)));
    assert!(matches!(scanner.scan_content("text", None, "txt"), Ok(ContentScan::Unsupported)));
    match scanner.scan_content("fn a() {}", Some("old"), "rs") {
        Ok(ContentScan::Parsed { hash, language, symbols }) => {
            assert_eq!(hash, h);
            assert_eq!(language, "Rust");
            assert_eq!(symbols.len(), 1);
            assert_eq!(symbols[0].name, "a");
        }
        _ => panic!("expected a parse"),
    }
}

#[test]
fn rescan_after_parse_is_skipped_until_content_changes() {
    let mut scanner = CodeScanner::new();
    let stored = match scanner.scan_content("def f():\n    pass\n", None, "py") {
        Ok(ContentScan::Parsed { hash, .. }) => hash,
        _ => panic!("expected a parse"),
    };
    assert!(matches!(
        scanner.scan_content("def f():\n    pass\n", Some(&stored), "py"),
        Ok(ContentScan::Unchanged)
    ));
    assert!(matches!(
        scanner.scan_content("def g():\n    pass\n", Some(&stored), "py"),
        Ok(ContentScan::Parsed { .. })
    ));
}

#[test]
fn summary_counts_files_languages_and_errors() {
    let mut s = ScanSummary::new();
    s.record_file(Ok(ScanFileResult::parsed(3, "Rust")), "a.rs");
    s.record_file(Ok(ScanFileResult::parsed(2, "Rust")), "b.rs");
    s.record_file(Ok(ScanFileResult::parsed(1, "Python")), "c.py");
    s.record_file(Ok(ScanFileResult::skipped()), "d.rs");
    s.record_file(Err(ContextForgeError::Io("denied".to_string())), "e.rs");
    assert_eq!(s.files_scanned, 3);
    assert_eq!(s.files_skipped, 1);
    assert_eq!(s.symbols_found, 6);
    assert_eq!(s.errors, vec!["e.rs: IO error: denied".to_string()]);
    assert_eq!(s.languages.len(), 2);
    assert_eq!(s.languages[0].name, "Rust");
    assert_eq!(s.languages[0].files, 2);
    assert_eq!(s.languages[1].name, "Python");
    assert_eq!(s.languages[1].files, 1);
}

#[test]
fn summary_records_git_outcomes() {
    let mut s = ScanSummary::new();
    s.record_git(GitScanOutcome::Walked { commits: 4, store_error: None });
    assert_eq!(s.commits_analyzed, 4);
    assert!(s.errors.is_empty());
    s.record_git(GitScanOutcome::Walked {
        commits: 2,
        store_error: Some(ContextForgeError::Database("locked".to_string())),
    });
    assert_eq!(s.commits_analyzed, 2);
    assert_eq!(s.errors[0], "Store commits: Database error: locked");
    s.record_git(GitScanOutcome::OpenFailed(ContextForgeError::Git("no repo".to_string())));
    s.record_git(GitScanOutcome::WalkFailed(ContextForgeError::Other("x".to_string())));
    assert_eq!(s.errors[1], "Git open: Git error: no repo");
    assert_eq!(s.errors[2], "Git walk: x");
}

#[test]
fn row_check_rejects_unrepresentable_rows() {
    let mut n = leaf("x", None, 0, 1, 0);
    assert!(fits_rows(&n));
    n.children.push(leaf("y", None, 0, 1, usize::MAX));
    assert!(!fits_rows(&n));
}
