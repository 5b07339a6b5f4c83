use contextforge::code_intel::languages::{Grammar, LanguageRegistry};

#[test]
fn test_supported_extensions() {
    assert!(LanguageRegistry::is_supported("rs"));
    assert!(LanguageRegistry::is_supported("js"));
    assert!(LanguageRegistry::is_supported("jsx"));
    assert!(LanguageRegistry::is_supported("mjs"));
    assert!(LanguageRegistry::is_supported("cjs"));
    assert!(LanguageRegistry::is_supported("ts"));
    assert!(LanguageRegistry::is_supported("tsx"));
    assert!(LanguageRegistry::is_supported("py"));
    assert!(LanguageRegistry::is_supported("pyi"));
}

#[test]
fn test_unsupported_extensions() {
    assert!(!LanguageRegistry::is_supported("txt"));
    assert!(!LanguageRegistry::is_supported("md"));
    assert!(!LanguageRegistry::is_supported("toml"));
    assert!(!LanguageRegistry::is_supported(""));
}

#[test]
fn test_language_names() {
    assert_eq!(LanguageRegistry::get("rs").unwrap().name, "Rust");
    assert_eq!(LanguageRegistry::get("js").unwrap().name, "JavaScript");
    assert_eq!(LanguageRegistry::get("ts").unwrap().name, "TypeScript");
    assert_eq!(LanguageRegistry::get("tsx").unwrap().name, "TSX");
    assert_eq!(LanguageRegistry::get("py").unwrap().name, "Python");
}

#[test]
fn extension_match_is_exact_and_case_sensitive() {
    assert!(!LanguageRegistry::is_supported("RS"));
    assert!(!LanguageRegistry::is_supported(".rs"));
    assert!(!LanguageRegistry::is_supported("rss"));
    assert_eq!(LanguageRegistry::get("jsx").unwrap().name, "JavaScript");
    assert_eq!(LanguageRegistry::get("mjs").unwrap().name, "JavaScript");
    assert_eq!(LanguageRegistry::get("cjs").unwrap().name, "JavaScript");
    assert_eq!(LanguageRegistry::get("pyi").unwrap().name, "Python");
    assert!(LanguageRegistry::get("c").is_none());
}

#[test]
fn each_extension_carries_its_grammar() {
    let cases = [
        ("rs", Grammar::Rust),
        ("js", Grammar::JavaScript),
        ("jsx", Grammar::JavaScript),
        ("mjs", Grammar::JavaScript),
        ("cjs", Grammar::JavaScript),
        ("ts", Grammar::TypeScript),
        ("tsx", Grammar::Tsx),
        ("py", Grammar::Python),
        ("pyi", Grammar::Python),
    ];
    for (ext, g) in cases {
        assert_eq!(LanguageRegistry::get(ext).unwrap().language, g, "{ext}");
    }
}
