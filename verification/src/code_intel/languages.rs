//! Maps file extensions to the tree-sitter grammars of the supported languages.

use vstd::prelude::*;
use crate::text::{chars_equal, chars_of};

verus! {

/// The tree-sitter grammars of the supported languages.
#[derive(Clone, Copy, Debug, PartialEq, Eq, Structural)]
pub enum Grammar {
    /// `tree_sitter_rust::LANGUAGE`
    Rust,
    /// `tree_sitter_javascript::LANGUAGE`
    JavaScript,
    /// `tree_sitter_typescript::LANGUAGE_TYPESCRIPT`
    TypeScript,
    /// `tree_sitter_typescript::LANGUAGE_TSX`
    Tsx,
    /// `tree_sitter_python::LANGUAGE`
    Python,
}

/// Maps file extensions to tree-sitter languages.
pub struct LanguageRegistry;

/// A supported language: its grammar and its display name.
pub struct LanguageEntry {
    pub language: Grammar,
    pub name: &'static str,
}

/// The grammar that a file extension (without the dot) maps to: `rs` to Rust;
/// `js`, `jsx`, `mjs`, `cjs` to JavaScript; `ts` to TypeScript; `tsx` to TSX;
/// `py`, `pyi` to Python; nothing else is supported.
pub open spec fn grammar_of(ext: Seq<char>) -> Option<Grammar> {
    if ext == seq!['r', 's'] {
        Some(Grammar::Rust)
    } else if ext == seq!['j', 's'] || ext == seq!['j', 's', 'x'] || ext == seq!['m', 'j', 's']
        || ext == seq!['c', 'j', 's'] {
        Some(Grammar::JavaScript)
    } else if ext == seq!['t', 's'] {
        Some(Grammar::TypeScript)
    } else if ext == seq!['t', 's', 'x'] {
        Some(Grammar::Tsx)
    } else if ext == seq!['p', 'y'] || ext == seq!['p', 'y', 'i'] {
        Some(Grammar::Python)
    } else {
        None
    }
}

/// The display name of a grammar's language.
pub open spec fn grammar_name(g: Grammar) -> Seq<char> {
    match g {
        Grammar::Rust => seq!['R', 'u', 's', 't'],
        Grammar::JavaScript => seq!['J', 'a', 'v', 'a', 'S', 'c', 'r', 'i', 'p', 't'],
        Grammar::TypeScript => seq!['T', 'y', 'p', 'e', 'S', 'c', 'r', 'i', 'p', 't'],
        Grammar::Tsx => seq!['T', 'S', 'X'],
        Grammar::Python => seq!['P', 'y', 't', 'h', 'o', 'n'],
    }
}

/// The language name that a file extension (without the dot) maps to: the
/// name of its grammar's language (see [`grammar_of`]).
pub open spec fn language_name_of(ext: Seq<char>) -> Option<Seq<char>> {
    match grammar_of(ext) {
        Some(g) => Some(grammar_name(g)),
        None => None,
    }
}

/// Exactly nine extensions are supported: `rs`, `js`, `jsx`, `mjs`, `cjs`,
/// `ts`, `tsx`, `py` and `pyi`; every other extension maps to no grammar and
/// no language.
pub proof fn lemma_supported_extensions(ext: Seq<char>)
    ensures
        (grammar_of(ext) is Some) <==> (ext == "rs"@ || ext == "js"@ || ext == "jsx"@ || ext
            == "mjs"@ || ext == "cjs"@ || ext == "ts"@ || ext == "tsx"@ || ext == "py"@ || ext
            == "pyi"@),
        (language_name_of(ext) is Some) <==> (grammar_of(ext) is Some),
{
    reveal_strlit("rs");
    reveal_strlit("js");
    reveal_strlit("jsx");
    reveal_strlit("mjs");
    reveal_strlit("cjs");
    reveal_strlit("ts");
    reveal_strlit("tsx");
    reveal_strlit("py");
    reveal_strlit("pyi");
    assert("rs"@ =~= seq!['r', 's']);
    assert("js"@ =~= seq!['j', 's']);
    assert("jsx"@ =~= seq!['j', 's', 'x']);
    assert("mjs"@ =~= seq!['m', 'j', 's']);
    assert("cjs"@ =~= seq!['c', 'j', 's']);
    assert("ts"@ =~= seq!['t', 's']);
    assert("tsx"@ =~= seq!['t', 's', 'x']);
    assert("py"@ =~= seq!['p', 'y']);
    assert("pyi"@ =~= seq!['p', 'y', 'i']);
}

impl LanguageRegistry {
    /// Detect language from file extension.
    pub fn get(ext: &str) -> (res: Option<LanguageEntry>)
        ensures
            match grammar_of(ext@) {
                Some(g) => res is Some && res->0.language == g && res->0.name@ == grammar_name(g),
                None => res is None,
            },
    {
        let e = chars_of(ext);
        if chars_equal(&e, &vec!['r', 's']) {
            proof {
                reveal_strlit("Rust");
            }
            Some(LanguageEntry { language: Grammar::Rust, name: "Rust" })
        } else if chars_equal(&e, &vec!['j', 's']) || chars_equal(&e, &vec!['j', 's', 'x'])
            || chars_equal(&e, &vec!['m', 'j', 's']) || chars_equal(&e, &vec!['c', 'j', 's']) {
            proof {
                reveal_strlit("JavaScript");
            }
            Some(LanguageEntry { language: Grammar::JavaScript, name: "JavaScript" })
        } else if chars_equal(&e, &vec!['t', 's']) {
            proof {
                reveal_strlit("TypeScript");
            }
            Some(LanguageEntry { language: Grammar::TypeScript, name: "TypeScript" })
        } else if chars_equal(&e, &vec!['t', 's', 'x']) {
            proof {
                reveal_strlit("TSX");
            }
            Some(LanguageEntry { language: Grammar::Tsx, name: "TSX" })
        } else if chars_equal(&e, &vec!['p', 'y']) || chars_equal(&e, &vec!['p', 'y', 'i']) {
            proof {
                reveal_strlit("Python");
            }
            Some(LanguageEntry { language: Grammar::Python, name: "Python" })
        } else {
            None
        }
    }

    /// Check if a file extension is supported.
    pub fn is_supported(ext: &str) -> (res: bool)
        ensures
            res == (language_name_of(ext@) is Some),
    {
        Self::get(ext).is_some()
    }
}

} // verus!
