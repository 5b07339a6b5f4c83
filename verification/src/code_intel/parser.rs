//! Symbol extraction from syntax trees.
//!
//! A parsed file is modelled by [`SyntaxNode`], which holds as plain values what
//! the extraction reads of a tree-sitter node. The extraction rules for Rust,
//! JavaScript/TypeScript and Python are stated by the spec functions below and
//! proved of the executable code.

use vstd::prelude::*;
use vstd::string::StringSliceAdditionalSpecFns;
use vstd::utf8::{decode_utf8, valid_utf8};
use crate::code_intel::languages::Grammar;
use crate::code_intel::syntax::{
    grammar_accepted, language_error_text, new_ts_parser, parse_model, parsed_tree_model, SYNTAX_DEPTH,
};
use crate::error::ContextForgeError;
use crate::text::{first_line, first_line_of, string_of, text_is};

verus! {

/// The error `core::str::from_utf8` returns on invalid UTF-8, carried as an opaque value.
#[verifier::external_type_specification]
#[verifier::external_body]
pub struct ExUtf8Error(core::str::Utf8Error);

/// `core::str::from_utf8` returns `Ok` exactly on valid UTF-8, with the decoded characters.
pub assume_specification[ core::str::from_utf8 ](v: &[u8]) -> (res: Result<&str, core::str::Utf8Error>)
    ensures
        match res {
            Ok(s) => valid_utf8(v@) && s@ == decode_utf8(v@),
            Err(_) => !valid_utf8(v@),
        },
;

/// What the symbol extraction reads of one node of a syntax tree.
#[derive(Debug)]
pub struct SyntaxNode {
    /// The node's grammar kind, such as `function_item`.
    pub kind: String,
    /// The name of the field under which the node stands in its parent, if any.
    pub field: Option<String>,
    /// Whether the node is a named node of the grammar.
    pub named: bool,
    /// The node's byte range in the source.
    pub start_byte: usize,
    pub end_byte: usize,
    /// The node's first and last rows (zero-based lines).
    pub start_row: usize,
    pub end_row: usize,
    /// The node's children, in order.
    pub children: Vec<SyntaxNode>,
}

/// Row numbers leave room for the one-based line numbers of symbols.
pub open spec fn rows_fit(n: SyntaxNode) -> bool
    decreases n,
{
    &&& n.start_row < usize::MAX
    &&& n.end_row < usize::MAX
    &&& forall|i: int| 0 <= i < n.children@.len() ==> rows_fit(#[trigger] n.children@[i])
}

/// A code symbol extracted from source.
#[derive(Debug, Clone)]
pub struct Symbol {
    pub name: String,
    pub kind: SymbolKind,
    pub start_line: usize,
    pub end_line: usize,
    pub signature: String,
}

#[derive(Clone, Copy, Debug, PartialEq, Eq, Structural)]
pub enum SymbolKind {
    Function,
    Struct,
    Enum,
    Trait,
    Impl,
    Class,
    Interface,
    TypeAlias,
    Import,
}

impl SymbolKind {
    /// The kind's name as stored and shown.
    pub fn as_str(&self) -> (res: &'static str)
        ensures
            res@ == symbol_kind_name(*self),
    {
        match self {
            SymbolKind::Function => "function",
            SymbolKind::Struct => "struct",
            SymbolKind::Enum => "enum",
            SymbolKind::Trait => "trait",
            SymbolKind::Impl => "impl",
            SymbolKind::Class => "class",
            SymbolKind::Interface => "interface",
            SymbolKind::TypeAlias => "type_alias",
            SymbolKind::Import => "import",
        }
    }
}

/// The name of a symbol kind.
pub open spec fn symbol_kind_name(k: SymbolKind) -> Seq<char> {
    match k {
        SymbolKind::Function => "function"@,
        SymbolKind::Struct => "struct"@,
        SymbolKind::Enum => "enum"@,
        SymbolKind::Trait => "trait"@,
        SymbolKind::Impl => "impl"@,
        SymbolKind::Class => "class"@,
        SymbolKind::Interface => "interface"@,
        SymbolKind::TypeAlias => "type_alias"@,
        SymbolKind::Import => "import"@,
    }
}

/// A symbol as plain values.
pub struct SymbolView {
    pub name: Seq<char>,
    pub kind: SymbolKind,
    pub start_line: int,
    pub end_line: int,
    pub signature: Seq<char>,
}

impl View for Symbol {
    type V = SymbolView;

    open spec fn view(&self) -> SymbolView {
        SymbolView {
            name: self.name@,
            kind: self.kind,
            start_line: self.start_line as int,
            end_line: self.end_line as int,
            signature: self.signature@,
        }
    }
}

/// The symbols of a vector, as plain values.
pub open spec fn symbols_view(v: Seq<Symbol>) -> Seq<SymbolView> {
    v.map_values(|s: Symbol| s@)
}

/// The node's text: its byte range of the source decoded as UTF-8, if that range
/// lies in the source and is valid UTF-8.
pub open spec fn node_text(n: SyntaxNode, src: Seq<u8>) -> Option<Seq<char>> {
    if n.start_byte <= n.end_byte <= src.len() && valid_utf8(
        src.subrange(n.start_byte as int, n.end_byte as int),
    ) {
        Some(decode_utf8(src.subrange(n.start_byte as int, n.end_byte as int)))
    } else {
        None
    }
}

/// The first of `cs` that stands under field `f`.
pub open spec fn first_in_field(cs: Seq<SyntaxNode>, f: Seq<char>) -> Option<SyntaxNode>
    decreases cs.len(),
{
    if cs.len() == 0 {
        None
    } else if cs[0].field.deep_view() == Some(f) {
        Some(cs[0])
    } else {
        first_in_field(cs.drop_first(), f)
    }
}

/// The first named node of `cs`.
pub open spec fn first_named(cs: Seq<SyntaxNode>) -> Option<SyntaxNode>
    decreases cs.len(),
{
    if cs.len() == 0 {
        None
    } else if cs[0].named {
        Some(cs[0])
    } else {
        first_named(cs.drop_first())
    }
}

/// The text of the node's first child under field `f`.
pub open spec fn field_text(n: SyntaxNode, f: Seq<char>, src: Seq<u8>) -> Option<Seq<char>> {
    match first_in_field(n.children@, f) {
        Some(c) => node_text(c, src),
        None => None,
    }
}

/// The text of the node's first named child.
pub open spec fn first_named_text(n: SyntaxNode, src: Seq<u8>) -> Option<Seq<char>> {
    match first_named(n.children@) {
        Some(c) => node_text(c, src),
        None => None,
    }
}

/// The first line of the node's text (empty when the text is unavailable).
pub open spec fn signature_of(n: SyntaxNode, src: Seq<u8>) -> Seq<char> {
    match node_text(n, src) {
        Some(t) => first_line(t),
        None => Seq::empty(),
    }
}

/// The node's `name` field text, or `<anonymous>`.
pub open spec fn name_or_anonymous(n: SyntaxNode, src: Seq<u8>) -> Seq<char> {
    match field_text(n, "name"@, src) {
        Some(t) => t,
        None => "<anonymous>"@,
    }
}

/// A symbol of the given name and kind spanning the node `n`.
pub open spec fn symbol_for(n: SyntaxNode, name: Seq<char>, kind: SymbolKind, src: Seq<u8>) -> SymbolView {
    SymbolView {
        name,
        kind,
        start_line: n.start_row + 1,
        end_line: n.end_row + 1,
        signature: signature_of(n, src),
    }
}

/// The symbol that a top-level Rust item declares: functions, structs, enums,
/// traits and type aliases by their `name` field; impl blocks by their `type`
/// field (else their first named child, else `<impl>`); use declarations by
/// their first line. Other items declare nothing.
pub open spec fn rust_symbols(n: SyntaxNode, src: Seq<u8>) -> Seq<SymbolView> {
    let k = n.kind@;
    if k == "function_item"@ {
        seq![symbol_for(n, name_or_anonymous(n, src), SymbolKind::Function, src)]
    } else if k == "struct_item"@ {
        seq![symbol_for(n, name_or_anonymous(n, src), SymbolKind::Struct, src)]
    } else if k == "enum_item"@ {
        seq![symbol_for(n, name_or_anonymous(n, src), SymbolKind::Enum, src)]
    } else if k == "trait_item"@ {
        seq![symbol_for(n, name_or_anonymous(n, src), SymbolKind::Trait, src)]
    } else if k == "impl_item"@ {
        let name = match field_text(n, "type"@, src) {
            Some(t) => t,
            None => match first_named_text(n, src) {
                Some(t) => t,
                None => "<impl>"@,
            },
        };
        seq![symbol_for(n, name, SymbolKind::Impl, src)]
    } else if k == "type_item"@ {
        seq![symbol_for(n, name_or_anonymous(n, src), SymbolKind::TypeAlias, src)]
    } else if k == "use_declaration"@ {
        seq![symbol_for(n, signature_of(n, src), SymbolKind::Import, src)]
    } else {
        Seq::empty()
    }
}

/// The symbols that a top-level JavaScript/TypeScript node declares: function,
/// class, interface and type alias declarations by their `name` field; import
/// statements by their first line; the declarations inside an export statement;
/// and, in a lexical declaration, each variable declarator whose value is an
/// arrow function, as a function spanning the whole declaration.
pub open spec fn js_symbols(n: SyntaxNode, src: Seq<u8>) -> Seq<SymbolView>
    decreases n, 1int,
{
    let k = n.kind@;
    if k == "function_declaration"@ {
        seq![symbol_for(n, name_or_anonymous(n, src), SymbolKind::Function, src)]
    } else if k == "class_declaration"@ {
        seq![symbol_for(n, name_or_anonymous(n, src), SymbolKind::Class, src)]
    } else if k == "interface_declaration"@ {
        seq![symbol_for(n, name_or_anonymous(n, src), SymbolKind::Interface, src)]
    } else if k == "type_alias_declaration"@ {
        seq![symbol_for(n, name_or_anonymous(n, src), SymbolKind::TypeAlias, src)]
    } else if k == "import_statement"@ {
        seq![symbol_for(n, signature_of(n, src), SymbolKind::Import, src)]
    } else if k == "export_statement"@ {
        js_children_symbols(n.children@, src)
    } else if k == "lexical_declaration"@ {
        arrow_function_symbols(n, n.children@, src)
    } else {
        Seq::empty()
    }
}

/// The symbols declared by each of `cs` in turn (see [`js_symbols`]).
pub open spec fn js_children_symbols(cs: Seq<SyntaxNode>, src: Seq<u8>) -> Seq<SymbolView>
    decreases cs, 0int,
{
    if cs.len() == 0 {
        Seq::empty()
    } else {
        js_children_symbols(cs.drop_last(), src) + js_symbols(cs.last(), src)
    }
}

/// A variable declarator whose `value` field is an arrow function.
pub open spec fn declares_arrow_function(c: SyntaxNode) -> bool {
    &&& c.kind@ == "variable_declarator"@
    &&& match first_in_field(c.children@, "value"@) {
        Some(v) => v.kind@ == "arrow_function"@,
        None => false,
    }
}

/// One function symbol, spanning the declaration `decl`, for each of `cs` that
/// declares an arrow function, named by that declarator's `name` field.
pub open spec fn arrow_function_symbols(decl: SyntaxNode, cs: Seq<SyntaxNode>, src: Seq<u8>) -> Seq<SymbolView>
    decreases cs.len(),
{
    if cs.len() == 0 {
        Seq::empty()
    } else {
        let c = cs.last();
        arrow_function_symbols(decl, cs.drop_last(), src) + if declares_arrow_function(c) {
            seq![symbol_for(decl, name_or_anonymous(c, src), SymbolKind::Function, src)]
        } else {
            Seq::empty()
        }
    }
}

/// The symbol that a Python function or class definition, or import, declares.
pub open spec fn python_definition_symbols(n: SyntaxNode, src: Seq<u8>) -> Seq<SymbolView> {
    let k = n.kind@;
    if k == "function_definition"@ {
        seq![symbol_for(n, name_or_anonymous(n, src), SymbolKind::Function, src)]
    } else if k == "class_definition"@ {
        seq![symbol_for(n, name_or_anonymous(n, src), SymbolKind::Class, src)]
    } else if k == "import_statement"@ || k == "import_from_statement"@ {
        seq![symbol_for(n, signature_of(n, src), SymbolKind::Import, src)]
    } else {
        Seq::empty()
    }
}

/// A function or class definition node.
pub open spec fn is_python_definition(c: SyntaxNode) -> bool {
    c.kind@ == "function_definition"@ || c.kind@ == "class_definition"@
}

/// The symbols of the function and class definitions among `cs`.
pub open spec fn decorated_symbols(cs: Seq<SyntaxNode>, src: Seq<u8>) -> Seq<SymbolView>
    decreases cs.len(),
{
    if cs.len() == 0 {
        Seq::empty()
    } else {
        decorated_symbols(cs.drop_last(), src) + if is_python_definition(cs.last()) {
            python_definition_symbols(cs.last(), src)
        } else {
            Seq::empty()
        }
    }
}

/// The symbols that a top-level Python node declares: definitions and imports,
/// and the definition that a decorated definition wraps.
pub open spec fn python_symbols(n: SyntaxNode, src: Seq<u8>) -> Seq<SymbolView> {
    if n.kind@ == "decorated_definition"@ {
        decorated_symbols(n.children@, src)
    } else {
        python_definition_symbols(n, src)
    }
}

/// The symbols a top-level node declares in the language named `lang`
/// (`Rust`, `JavaScript`, `TypeScript`, `TSX` or `Python`; none for other names).
pub open spec fn node_symbols(n: SyntaxNode, src: Seq<u8>, lang: Seq<char>) -> Seq<SymbolView> {
    if lang == "Rust"@ {
        rust_symbols(n, src)
    } else if lang == "JavaScript"@ || lang == "TypeScript"@ || lang == "TSX"@ {
        js_symbols(n, src)
    } else if lang == "Python"@ {
        python_symbols(n, src)
    } else {
        Seq::empty()
    }
}

/// The symbols declared by the top-level nodes `cs`, in order.
pub open spec fn top_level_symbols(cs: Seq<SyntaxNode>, src: Seq<u8>, lang: Seq<char>) -> Seq<SymbolView>
    decreases cs.len(),
{
    if cs.len() == 0 {
        Seq::empty()
    } else {
        top_level_symbols(cs.drop_last(), src, lang) + node_symbols(cs.last(), src, lang)
    }
}

/// The symbols of a parsed file: those its root's children declare.
pub open spec fn file_symbols(root: SyntaxNode, src: Seq<u8>, lang: Seq<char>) -> Seq<SymbolView> {
    top_level_symbols(root.children@, src, lang)
}

/// The first child under field `f` is the first of the children that stands under it.
proof fn lemma_first_in_field_at(cs: Seq<SyntaxNode>, f: Seq<char>, i: int)
    requires
        0 <= i < cs.len(),
        cs[i].field.deep_view() == Some(f),
        forall|j: int| 0 <= j < i ==> (#[trigger] cs[j]).field.deep_view() != Some(f),
    ensures
        first_in_field(cs, f) == Some(cs[i]),
    decreases i,
{
    if i > 0 {
        let rest = cs.drop_first();
        assert forall|j: int| 0 <= j < i - 1 implies (#[trigger] rest[j]).field.deep_view() != Some(f) by {
            assert(rest[j] == cs[j + 1]);
        }
        lemma_first_in_field_at(rest, f, i - 1);
        assert(rest[i - 1] == cs[i]);
    }
}

/// An impl block is named by the type it implements: when the first of its
/// children under field `type` has the text `t`, the block declares exactly one
/// symbol, an Impl named `t` spanning the block, whatever named children (such
/// as the implemented trait) come before that child.
pub proof fn lemma_impl_named_by_its_type(n: SyntaxNode, src: Seq<u8>, i: int, t: Seq<char>)
    requires
        n.kind@ == "impl_item"@,
        0 <= i < n.children@.len(),
        n.children@[i].field.deep_view() == Some("type"@),
        forall|j: int| 0 <= j < i ==> (#[trigger] n.children@[j]).field.deep_view() != Some("type"@),
        node_text(n.children@[i], src) == Some(t),
    ensures
        rust_symbols(n, src).len() == 1,
        rust_symbols(n, src)[0].name == t,
        rust_symbols(n, src)[0].kind == SymbolKind::Impl,
        rust_symbols(n, src)[0].start_line == n.start_row + 1,
        rust_symbols(n, src)[0].end_line == n.end_row + 1,
{
    reveal_strlit("impl_item");
    reveal_strlit("function_item");
    reveal_strlit("struct_item");
    reveal_strlit("enum_item");
    reveal_strlit("trait_item");
    assert("impl_item"@[0] != "enum_item"@[0]);
    lemma_first_in_field_at(n.children@, "type"@, i);
}

/// Every top-level Python import, `import ...` as well as `from ... import ...`,
/// declares exactly one Import symbol, spanning the statement and named by the
/// first line of its text.
pub proof fn lemma_python_import_declares_one_symbol(n: SyntaxNode, src: Seq<u8>)
    requires
        n.kind@ == "import_statement"@ || n.kind@ == "import_from_statement"@,
    ensures
        python_symbols(n, src).len() == 1,
        python_symbols(n, src)[0].kind == SymbolKind::Import,
        python_symbols(n, src)[0].name == match node_text(n, src) {
            Some(text) => first_line(text),
            None => Seq::<char>::empty(),
        },
        python_symbols(n, src)[0].start_line == n.start_row + 1,
        python_symbols(n, src)[0].end_line == n.end_row + 1,
{
    reveal_strlit("import_statement");
    reveal_strlit("import_from_statement");
    reveal_strlit("decorated_definition");
    reveal_strlit("function_definition");
    reveal_strlit("class_definition");
    let k = n.kind@;
    assert(k != "decorated_definition"@) by {
        assert("import_statement"@.len() != "decorated_definition"@.len());
        assert("import_from_statement"@.len() != "decorated_definition"@.len());
    }
    assert(k != "function_definition"@) by {
        assert("import_statement"@.len() != "function_definition"@.len());
        assert("import_from_statement"@.len() != "function_definition"@.len());
    }
    assert(k != "class_definition"@) by {
        assert("import_statement"@[0] != "class_definition"@[0]);
        assert("import_from_statement"@.len() != "class_definition"@.len());
    }
}

/// The node's text (see [`node_text`]).
pub fn text_of_node(n: &SyntaxNode, source: &[u8]) -> (res: Option<String>)
    ensures
        res.deep_view() == node_text(*n, source@),
{
    if n.start_byte <= n.end_byte && n.end_byte <= source.len() {
        let bytes = &source[n.start_byte..n.end_byte];
        proof {
            assert(bytes@ =~= source@.subrange(n.start_byte as int, n.end_byte as int));
        }
        match core::str::from_utf8(bytes) {
            Ok(t) => Some(string_of(t)),
            Err(_) => None,
        }
    } else {
        None
    }
}

/// The first child of `n` under field `f` (see [`first_in_field`]).
pub fn child_in_field<'a>(n: &'a SyntaxNode, f: &str) -> (res: Option<&'a SyntaxNode>)
    ensures
        match res {
            Some(c) => first_in_field(n.children@, f@) == Some(*c),
            None => first_in_field(n.children@, f@) is None,
        },
{
    let cs = &n.children;
    let mut i: usize = 0;
    assert(cs@.subrange(0, cs@.len() as int) =~= cs@);
    while i < cs.len()
        invariant
            i <= cs.len(),
            cs@ == n.children@,
            first_in_field(cs@, f@) == first_in_field(cs@.subrange(i as int, cs@.len() as int), f@),
        decreases cs.len() - i,
    {
        let ghost rest = cs@.subrange(i as int, cs@.len() as int);
        assert(rest.drop_first() =~= cs@.subrange(i + 1, cs@.len() as int));
        assert(rest.len() > 0 && rest[0] == cs@[i as int]);
        match &cs[i].field {
            Some(name) => {
                if text_is(name.as_str(), f) {
                    assert(rest[0].field.deep_view() == Some(f@));
                    assert(first_in_field(rest, f@) == Some(rest[0]));
                    return Some(&cs[i]);
                }
            },
            None => {},
        }
        i += 1;
    }
    assert(cs@.subrange(i as int, cs@.len() as int).len() == 0);
    None
}

/// The first named child of `n` (see [`first_named`]).
pub fn first_named_child(n: &SyntaxNode) -> (res: Option<&SyntaxNode>)
    ensures
        match res {
            Some(c) => first_named(n.children@) == Some(*c),
            None => first_named(n.children@) is None,
        },
{
    let cs = &n.children;
    let mut i: usize = 0;
    assert(cs@.subrange(0, cs@.len() as int) =~= cs@);
    while i < cs.len()
        invariant
            i <= cs.len(),
            cs@ == n.children@,
            first_named(cs@) == first_named(cs@.subrange(i as int, cs@.len() as int)),
        decreases cs.len() - i,
    {
        let ghost rest = cs@.subrange(i as int, cs@.len() as int);
        assert(rest.drop_first() =~= cs@.subrange(i + 1, cs@.len() as int));
        assert(rest.len() > 0 && rest[0] == cs@[i as int]);
        if cs[i].named {
            assert(first_named(rest) == Some(rest[0]));
            return Some(&cs[i]);
        }
        i += 1;
    }
    assert(cs@.subrange(i as int, cs@.len() as int).len() == 0);
    None
}

/// The text of `n`'s first child under field `f`.
fn field_text_of(n: &SyntaxNode, f: &str, source: &[u8]) -> (res: Option<String>)
    ensures
        res.deep_view() == field_text(*n, f@, source@),
{
    match child_in_field(n, f) {
        Some(c) => text_of_node(c, source),
        None => None,
    }
}

/// The first line of `n`'s text.
fn signature_text(n: &SyntaxNode, source: &[u8]) -> (res: String)
    ensures
        res@ == signature_of(*n, source@),
{
    match text_of_node(n, source) {
        Some(t) => first_line_of(t.as_str()),
        None => String::new(),
    }
}

/// `n`'s `name` field text, or `<anonymous>`.
fn name_or_anonymous_of(n: &SyntaxNode, source: &[u8]) -> (res: String)
    ensures
        res@ == name_or_anonymous(*n, source@),
{
    match field_text_of(n, "name", source) {
        Some(t) => t,
        None => string_of("<anonymous>"),
    }
}

/// The symbol of the given name and kind spanning `n`.
fn symbol_spanning(n: &SyntaxNode, name: String, kind: SymbolKind, source: &[u8]) -> (res: Symbol)
    requires
        n.start_row < usize::MAX,
        n.end_row < usize::MAX,
    ensures
        res@ == symbol_for(*n, name@, kind, source@),
{
    Symbol {
        name,
        kind,
        start_line: n.start_row + 1,
        end_line: n.end_row + 1,
        signature: signature_text(n, source),
    }
}

proof fn lemma_symbols_view_push(v: Seq<Symbol>, s: Symbol)
    ensures
        symbols_view(v.push(s)) == symbols_view(v) + seq![s@],
{
    assert(symbols_view(v.push(s)) =~= symbols_view(v) + seq![s@]);
}

/// Appends `sym` to `symbols`.
fn push_symbol(symbols: &mut Vec<Symbol>, sym: Symbol)
    ensures
        symbols_view(final(symbols)@) == symbols_view(old(symbols)@) + seq![sym@],
{
    proof {
        lemma_symbols_view_push(symbols@, sym);
    }
    symbols.push(sym);
}

/// Extracts the symbol that a top-level Rust item declares (see [`rust_symbols`]).
pub fn extract_rust(node: &SyntaxNode, source: &[u8], symbols: &mut Vec<Symbol>)
    requires
        rows_fit(*node),
    ensures
        symbols_view(final(symbols)@) == symbols_view(old(symbols)@) + rust_symbols(*node, source@),
{
    let k = node.kind.as_str();
    let kind = if text_is(k, "function_item") {
        SymbolKind::Function
    } else if text_is(k, "struct_item") {
        SymbolKind::Struct
    } else if text_is(k, "enum_item") {
        SymbolKind::Enum
    } else if text_is(k, "trait_item") {
        SymbolKind::Trait
    } else if text_is(k, "impl_item") {
        SymbolKind::Impl
    } else if text_is(k, "type_item") {
        SymbolKind::TypeAlias
    } else if text_is(k, "use_declaration") {
        SymbolKind::Import
    } else {
        assert(symbols_view(symbols@) + rust_symbols(*node, source@) =~= symbols_view(symbols@));
        return ;
    };
    let name = match kind {
        SymbolKind::Impl => match field_text_of(node, "type", source) {
            Some(t) => t,
            None => match first_named_child(node) {
                Some(c) => match text_of_node(c, source) {
                    Some(t) => t,
                    None => string_of("<impl>"),
                },
                None => string_of("<impl>"),
            },
        },
        SymbolKind::Import => signature_text(node, source),
        _ => name_or_anonymous_of(node, source),
    };
    push_symbol(symbols, symbol_spanning(node, name, kind, source));
}

/// Extracts the symbols that a top-level JavaScript/TypeScript node declares
/// (see [`js_symbols`]).
pub fn extract_js_ts(node: &SyntaxNode, source: &[u8], symbols: &mut Vec<Symbol>)
    requires
        rows_fit(*node),
    ensures
        symbols_view(final(symbols)@) == symbols_view(old(symbols)@) + js_symbols(*node, source@),
    decreases node,
{
    let k = node.kind.as_str();
    let kind = if text_is(k, "function_declaration") {
        SymbolKind::Function
    } else if text_is(k, "class_declaration") {
        SymbolKind::Class
    } else if text_is(k, "interface_declaration") {
        SymbolKind::Interface
    } else if text_is(k, "type_alias_declaration") {
        SymbolKind::TypeAlias
    } else if text_is(k, "import_statement") {
        SymbolKind::Import
    } else if text_is(k, "export_statement") {
        let cs = &node.children;
        let ghost start = symbols_view(symbols@);
        for i in 0..cs.len()
            invariant
                cs@ == node.children@,
                rows_fit(*node),
                symbols_view(symbols@) == start + js_children_symbols(cs@.take(i as int), source@),
        {
            proof {
                assert(cs@.take(i + 1).drop_last() =~= cs@.take(i as int));
                assert(cs@.take(i + 1).last() == cs@[i as int]);
                assert(rows_fit(node.children@[i as int]));
                assert(decreases_to!(*node => node.children));
            }
            extract_js_ts(&cs[i], source, symbols);
        }
        proof {
            assert(cs@.take(cs@.len() as int) =~= cs@);
        }
        return ;
    } else if text_is(k, "lexical_declaration") {
        extract_arrow_functions(node, source, symbols);
        return ;
    } else {
        assert(symbols_view(symbols@) + js_symbols(*node, source@) =~= symbols_view(symbols@));
        return ;
    };
    let name = match kind {
        SymbolKind::Import => signature_text(node, source),
        _ => name_or_anonymous_of(node, source),
    };
    push_symbol(symbols, symbol_spanning(node, name, kind, source));
}

/// Whether a variable declarator's `value` field is an arrow function.
fn is_arrow_declarator(c: &SyntaxNode) -> (res: bool)
    ensures
        res == declares_arrow_function(*c),
{
    if !text_is(c.kind.as_str(), "variable_declarator") {
        return false;
    }
    match child_in_field(c, "value") {
        Some(v) => text_is(v.kind.as_str(), "arrow_function"),
        None => false,
    }
}

/// Extracts a function symbol for each arrow function that a lexical
/// declaration binds (see [`arrow_function_symbols`]).
fn extract_arrow_functions(node: &SyntaxNode, source: &[u8], symbols: &mut Vec<Symbol>)
    requires
        rows_fit(*node),
    ensures
        symbols_view(final(symbols)@) == symbols_view(old(symbols)@) + arrow_function_symbols(
            *node,
            node.children@,
            source@,
        ),
{
    let cs = &node.children;
    let ghost start = symbols_view(symbols@);
    for i in 0..cs.len()
        invariant
            cs@ == node.children@,
            rows_fit(*node),
            symbols_view(symbols@) == start + arrow_function_symbols(*node, cs@.take(i as int), source@),
    {
        proof {
            assert(cs@.take(i + 1).drop_last() =~= cs@.take(i as int));
            assert(cs@.take(i + 1).last() == cs@[i as int]);
        }
        let c = &cs[i];
        if is_arrow_declarator(c) {
            let name = name_or_anonymous_of(c, source);
            push_symbol(symbols, symbol_spanning(node, name, SymbolKind::Function, source));
            proof {
                assert(start + arrow_function_symbols(*node, cs@.take(i + 1), source@) =~= start
                    + arrow_function_symbols(*node, cs@.take(i as int), source@) + seq![
                    symbol_for(*node, name_or_anonymous(*c, source@), SymbolKind::Function, source@),
                ]);
            }
        } else {
            assert(arrow_function_symbols(*node, cs@.take(i + 1), source@) =~= arrow_function_symbols(
                *node,
                cs@.take(i as int),
                source@,
            ) + Seq::<SymbolView>::empty());
        }
    }
    proof {
        assert(cs@.take(cs@.len() as int) =~= cs@);
    }
}

/// Extracts the symbol of a Python function or class definition, or import
/// (see [`python_definition_symbols`]).
fn extract_python_definition(node: &SyntaxNode, source: &[u8], symbols: &mut Vec<Symbol>)
    requires
        rows_fit(*node),
    ensures
        symbols_view(final(symbols)@) == symbols_view(old(symbols)@) + python_definition_symbols(
            *node,
            source@,
        ),
{
    let k = node.kind.as_str();
    let kind = if text_is(k, "function_definition") {
        SymbolKind::Function
    } else if text_is(k, "class_definition") {
        SymbolKind::Class
    } else if text_is(k, "import_statement") || text_is(k, "import_from_statement") {
        SymbolKind::Import
    } else {
        assert(symbols_view(symbols@) + python_definition_symbols(*node, source@) =~= symbols_view(
            symbols@,
        ));
        return ;
    };
    let name = match kind {
        SymbolKind::Import => signature_text(node, source),
        _ => name_or_anonymous_of(node, source),
    };
    push_symbol(symbols, symbol_spanning(node, name, kind, source));
}

/// Extracts the symbols that a top-level Python node declares (see [`python_symbols`]).
pub fn extract_python(node: &SyntaxNode, source: &[u8], symbols: &mut Vec<Symbol>)
    requires
        rows_fit(*node),
    ensures
        symbols_view(final(symbols)@) == symbols_view(old(symbols)@) + python_symbols(*node, source@),
{
    if !text_is(node.kind.as_str(), "decorated_definition") {
        extract_python_definition(node, source, symbols);
        return ;
    }
    let cs = &node.children;
    let ghost start = symbols_view(symbols@);
    for i in 0..cs.len()
        invariant
            cs@ == node.children@,
            rows_fit(*node),
            symbols_view(symbols@) == start + decorated_symbols(cs@.take(i as int), source@),
    {
        proof {
            assert(cs@.take(i + 1).drop_last() =~= cs@.take(i as int));
            assert(cs@.take(i + 1).last() == cs@[i as int]);
            assert(rows_fit(node.children@[i as int]));
        }
        let c = &cs[i];
        let k = c.kind.as_str();
        if text_is(k, "function_definition") || text_is(k, "class_definition") {
            extract_python_definition(c, source, symbols);
            assert(start + decorated_symbols(cs@.take(i + 1), source@) =~= start + decorated_symbols(
                cs@.take(i as int),
                source@,
            ) + python_definition_symbols(*c, source@));
        } else {
            assert(decorated_symbols(cs@.take(i + 1), source@) =~= decorated_symbols(
                cs@.take(i as int),
                source@,
            ) + Seq::<SymbolView>::empty());
        }
    }
    proof {
        assert(cs@.take(cs@.len() as int) =~= cs@);
    }
}

/// Extracts the symbols declared by the top-level nodes of a parsed file, in
/// the language named `lang_name` (see [`file_symbols`]).
pub fn extract_symbols(root: &SyntaxNode, source: &[u8], lang_name: &str) -> (res: Vec<Symbol>)
    requires
        rows_fit(*root),
    ensures
        symbols_view(res@) == file_symbols(*root, source@, lang_name@),
{
    let mut symbols: Vec<Symbol> = Vec::new();
    let is_rust = text_is(lang_name, "Rust");
    let is_js = text_is(lang_name, "JavaScript") || text_is(lang_name, "TypeScript") || text_is(
        lang_name,
        "TSX",
    );
    let is_python = text_is(lang_name, "Python");
    let cs = &root.children;
    assert(symbols_view(symbols@) =~= Seq::<SymbolView>::empty());
    for i in 0..cs.len()
        invariant
            cs@ == root.children@,
            rows_fit(*root),
            is_rust == (lang_name@ == "Rust"@),
            is_js == (lang_name@ == "JavaScript"@ || lang_name@ == "TypeScript"@ || lang_name@
                == "TSX"@),
            is_python == (lang_name@ == "Python"@),
            symbols_view(symbols@) == top_level_symbols(cs@.take(i as int), source@, lang_name@),
    {
        proof {
            assert(cs@.take(i + 1).drop_last() =~= cs@.take(i as int));
            assert(cs@.take(i + 1).last() == cs@[i as int]);
            assert(rows_fit(root.children@[i as int]));
        }
        let c = &cs[i];
        if is_rust {
            extract_rust(c, source, &mut symbols);
        } else if is_js {
            extract_js_ts(c, source, &mut symbols);
        } else if is_python {
            extract_python(c, source, &mut symbols);
        } else {
            assert(symbols_view(symbols@) + node_symbols(*c, source@, lang_name@) =~= symbols_view(
                symbols@,
            ));
        }
    }
    proof {
        assert(cs@.take(cs@.len() as int) =~= cs@);
    }
    symbols
}

/// Parses source code into symbols using tree-sitter.
pub struct CodeParser {
    parser: tree_sitter::Parser,
}

impl CodeParser {
    pub fn new() -> Self {
        CodeParser { parser: new_ts_parser() }
    }

    /// Parse source code with the given grammar into the model of its syntax
    /// tree (the top [`SYNTAX_DEPTH`] levels of the tree tree-sitter builds).
    /// Fails when tree-sitter refuses the grammar, or when a row of the tree
    /// leaves no room for a one-based line number.
    pub fn parse_tree(&mut self, source: &str, language: Grammar) -> (res: Result<
        SyntaxNode,
        ContextForgeError,
    >)
        ensures
            match res {
                Ok(t) => parse_ok(language, source.spec_bytes()) && t == source_tree(
                    language,
                    source.spec_bytes(),
                ),
                Err(e) => e is Parse && !parse_ok(language, source.spec_bytes()),
            },
    {
        let model = match parse_model(&mut self.parser, language, source, SYNTAX_DEPTH) {
            Ok(m) => m,
            Err(e) => {
                let msg = string_of("Set language failed: ").concat(language_error_text(&e).as_str());
                return Err(ContextForgeError::Parse(msg));
            },
        };
        let tree = match model {
            Some(t) => t,
            None => {
                return Err(ContextForgeError::Parse(string_of("Parse returned None")));
            },
        };
        if fits_rows(&tree) {
            Ok(tree)
        } else {
            Err(ContextForgeError::Parse(string_of("Syntax tree rows out of range")))
        }
    }

    /// Parse source code and extract top-level symbols: those that the top-level
    /// nodes of tree-sitter's tree declare in the language named `lang_name`
    /// (see [`file_symbols`]). Fails exactly when [`parse_tree`](Self::parse_tree) does.
    pub fn parse(&mut self, source: &str, language: Grammar, lang_name: &str) -> (res: Result<
        Vec<Symbol>,
        ContextForgeError,
    >)
        ensures
            match res {
                Ok(syms) => parse_ok(language, source.spec_bytes()) && symbols_view(syms@)
                    == file_symbols(source_tree(language, source.spec_bytes()), source.spec_bytes(), lang_name@),
                Err(e) => e is Parse && !parse_ok(language, source.spec_bytes()),
            },
    {
        let root = self.parse_tree(source, language)?;
        let syms = extract_symbols(&root, source.as_bytes(), lang_name);
        Ok(syms)
    }
}

/// The model of the tree that tree-sitter builds for a source with a grammar
/// (see [`parsed_tree_model`]).
pub open spec fn source_tree(grammar: Grammar, source: Seq<u8>) -> SyntaxNode {
    parsed_tree_model(grammar, source, SYNTAX_DEPTH)
}

/// Whether a source parses with a grammar: tree-sitter accepts the grammar and
/// the rows of its tree leave room for one-based line numbers.
pub open spec fn parse_ok(grammar: Grammar, source: Seq<u8>) -> bool {
    grammar_accepted(grammar) && rows_fit(source_tree(grammar, source))
}

/// Whether the rows of a tree leave room for one-based line numbers (see [`rows_fit`]).
pub fn fits_rows(n: &SyntaxNode) -> (res: bool)
    ensures
        res == rows_fit(*n),
    decreases n,
{
    if n.start_row == usize::MAX || n.end_row == usize::MAX {
        return false;
    }
    let mut i: usize = 0;
    while i < n.children.len()
        invariant
            i <= n.children.len(),
            forall|k: int| 0 <= k < i ==> rows_fit(#[trigger] n.children@[k]),
        decreases n.children.len() - i,
    {
        if !fits_rows(&n.children[i]) {
            return false;
        }
        i += 1;
    }
    true
}

} // verus!
