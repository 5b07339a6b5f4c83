//! The bridge from tree-sitter to the [`SyntaxNode`] model.
//!
//! The tree that tree-sitter builds for a source text with a grammar is a
//! function of the two alone. Its model is named here ([`parsed_tree_model`]),
//! as is whether tree-sitter accepts the grammar ([`grammar_accepted`]); the
//! symbol extraction is then proved against that named tree.

use vstd::prelude::*;
use vstd::string::StringSliceAdditionalSpecFns;
use crate::code_intel::languages::Grammar;
use crate::code_intel::parser::SyntaxNode;

verus! {

/// A tree-sitter parser, carried as an opaque value.
#[verifier::external_type_specification]
#[verifier::external_body]
pub struct ExParser(tree_sitter::Parser);

/// A node of a tree-sitter syntax tree, carried as an opaque value.
#[verifier::external_type_specification]
#[verifier::external_body]
pub struct ExNode<'tree>(tree_sitter::Node<'tree>);

/// The error `tree_sitter::Parser::set_language` reports, carried as an opaque value.
#[verifier::external_type_specification]
#[verifier::external_body]
pub struct ExLanguageError(tree_sitter::LanguageError);

/// How many levels below the root the model of a parsed file holds. The symbol
/// extraction reads no deeper than four (an exported declaration's declarator's
/// name), so the model is bounded, and so is the work of building it.
pub const SYNTAX_DEPTH: usize = 8;

/// Whether `tree_sitter::Parser::set_language` accepts the grammar: its ABI
/// version is one that this tree-sitter supports and it can be parsed with.
pub uninterp spec fn grammar_accepted(grammar: Grammar) -> bool;

/// The model of the top `depth` levels of the tree that
/// `tree_sitter::Parser::parse(source, None)` builds with `grammar`: for each
/// node its kind, the field under which it stands in its parent (none at the
/// root), whether it is named, its byte range, its rows, and its children.
pub uninterp spec fn parsed_tree_model(grammar: Grammar, source: Seq<u8>, depth: usize) -> SyntaxNode;

/// `tree_sitter::Parser::new` (nothing is claimed of the parser).
#[verifier::external_body]
pub(crate) fn new_ts_parser() -> tree_sitter::Parser {
    tree_sitter::Parser::new()
}

/// The `Display` text of a `tree_sitter::LanguageError` (nothing is claimed of it).
#[verifier::external_body]
pub(crate) fn language_error_text(e: &tree_sitter::LanguageError) -> String {
    format!("{e}")
}

/// The model of a tree-sitter node and of its descendants down to `depth`
/// levels, read field for field from `Node::kind`, `is_named`, `start_byte`,
/// `end_byte`, `start_position`, `end_position`, `child` and
/// `field_name_for_child`. Its result is stated through [`parse_model`].
#[verifier::external_body]
fn node_model(node: &tree_sitter::Node, depth: usize) -> SyntaxNode {
    let mut children = Vec::new();
    for i in 0..if depth == 0 { 0 } else { node.child_count() } {
        if let Some(c) = node.child(i) {
            let field = node.field_name_for_child(i).map(|f| f.to_string());
            children.push(SyntaxNode { field, ..node_model(&c, depth - 1) });
        }
    }
    let (start, end) = (node.start_position(), node.end_position());
    SyntaxNode { kind: node.kind().to_string(), field: None, named: node.is_named(), start_byte: node.start_byte(), end_byte: node.end_byte(), start_row: start.row, end_row: end.row, children }
}

/// `tree_sitter::Parser::set_language` with the grammar's language, then
/// `Parser::parse(source, None)` and the model of the top `depth` levels of the
/// tree. Setting the language fails exactly when tree-sitter does not accept the
/// grammar; with a language set, tree-sitter documents that `parse` gives a tree.
#[verifier::external_body]
pub(crate) fn parse_model(parser: &mut tree_sitter::Parser, grammar: Grammar, source: &str, depth: usize) -> (res: Result<Option<SyntaxNode>, tree_sitter::LanguageError>)
    ensures
        res is Ok <==> grammar_accepted(grammar),
        res matches Ok(m) ==> m == Some(parsed_tree_model(grammar, source.spec_bytes(), depth)),
{
    let language: tree_sitter::Language = match grammar {
        Grammar::Rust => tree_sitter_rust::LANGUAGE.into(),
        Grammar::JavaScript => tree_sitter_javascript::LANGUAGE.into(),
        Grammar::TypeScript => tree_sitter_typescript::LANGUAGE_TYPESCRIPT.into(),
        Grammar::Tsx => tree_sitter_typescript::LANGUAGE_TSX.into(),
        Grammar::Python => tree_sitter_python::LANGUAGE.into(),
    };
    parser.set_language(&language)?;
    match parser.parse(source, None) {
        Some(tree) => Ok(Some(node_model(&tree.root_node(), depth))),
        None => Ok(None),
    }
}

} // verus!
