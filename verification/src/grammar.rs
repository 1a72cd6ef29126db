//! Per-language grammars and queries, and symbol extraction through the
//! tree-sitter parser.
use vstd::prelude::*;
use tree_sitter::StreamingIterator;
use crate::symbols::{
    collected_refs, refs_from_matches, refs_view, sort_symbols, sorted_by_position,
    spec_symbols_from_matches, starts_inside, symbols_from_matches, symbols_view, collected_symbols,
    law_parent_precedes_and_encloses, law_sorted_symbols_are_a_permutation_in_order,
    ExtractedRef, ExtractedSymbol, QueryCapture, RefView, SymbolView,
};
use crate::syntax::SyntaxNode;
use crate::text::{chars_of, eq_str};

verus! {

// ---------------------------------------------------------------------------
// Parser types
// ---------------------------------------------------------------------------

/// A tree-sitter grammar.
#[verifier::external_type_specification]
#[verifier::external_body]
pub struct ExLanguage(tree_sitter::Language);

/// A tree-sitter parser.
#[verifier::external_type_specification]
#[verifier::external_body]
pub struct ExParser(tree_sitter::Parser);

/// A parsed syntax tree.
#[verifier::external_type_specification]
#[verifier::external_body]
pub struct ExTree(tree_sitter::Tree);

/// A node of a parsed syntax tree.
#[verifier::external_type_specification]
#[verifier::external_body]
pub struct ExNode<'a>(tree_sitter::Node<'a>);

/// A compiled tree-sitter query.
#[verifier::external_type_specification]
#[verifier::external_body]
pub struct ExQuery(tree_sitter::Query);

// ---------------------------------------------------------------------------
// What the parser's results are named by
// ---------------------------------------------------------------------------

/// The name under which a grammar is known here ("rust", "tsx", ...).
pub uninterp spec fn grammar_of(language: tree_sitter::Language) -> Seq<char>;

/// Whether a parser takes the named grammar (its ABI version is one this
/// parser supports, and it can parse).
pub uninterp spec fn grammar_loads(grammar: Seq<char>) -> bool;

/// The grammar a parser has been given, if any.
pub uninterp spec fn parser_grammar(parser: tree_sitter::Parser) -> Option<Seq<char>>;

/// The grammar a tree was parsed with.
pub uninterp spec fn tree_grammar(tree: tree_sitter::Tree) -> Seq<char>;

/// The text a tree was parsed from.
pub uninterp spec fn tree_text(tree: tree_sitter::Tree) -> Seq<char>;

/// Whether a query text compiles for the named grammar.
pub uninterp spec fn query_compiles(grammar: Seq<char>, query: Seq<char>) -> bool;

/// The grammar a query was compiled for.
pub uninterp spec fn query_grammar(query: tree_sitter::Query) -> Seq<char>;

/// The text a query was compiled from.
pub uninterp spec fn query_text(query: tree_sitter::Query) -> Seq<char>;

/// The index of a capture name in a query compiled from `query` for
/// `grammar`, if the query has that capture.
pub uninterp spec fn capture_index_of(grammar: Seq<char>, query: Seq<char>, name: Seq<char>) -> Option<u32>;

/// The matches of a query (compiled from `query` for `grammar`) over the tree
/// that `grammar` parses `source` into, in the order the query cursor gives
/// them, each as its captures in order.
pub uninterp spec fn ts_matches(grammar: Seq<char>, query: Seq<char>, source: Seq<char>) -> Seq<
    Vec<QueryCapture>,
>;

/// Every captured node starts no later than it ends, in bytes and in rows.
pub open spec fn captures_in_order(ms: Seq<Vec<QueryCapture>>) -> bool {
    forall|i: int, j: int|
        0 <= i < ms.len() && 0 <= j < ms[i].len() ==> {
            let n = (#[trigger] ms[i]@[j]).node;
            n.start_byte <= n.end_byte && n.start_row <= n.end_row
        }
}

// ---------------------------------------------------------------------------
// Grammars (each `LANGUAGE` constant of a grammar crate, as a `Language`)
// ---------------------------------------------------------------------------

/// The Rust grammar, `tree_sitter_rust::LANGUAGE`, known as "rust".
#[verifier::external_body]
fn rust_language() -> (r: tree_sitter::Language)
    ensures
        grammar_of(r) == "rust"@,
{
    tree_sitter_rust::LANGUAGE.into()
}

/// The Python grammar, `tree_sitter_python::LANGUAGE`, known as "python".
#[verifier::external_body]
fn python_language() -> (r: tree_sitter::Language)
    ensures
        grammar_of(r) == "python"@,
{
    tree_sitter_python::LANGUAGE.into()
}

/// The JavaScript grammar, `tree_sitter_javascript::LANGUAGE`, known as "javascript".
#[verifier::external_body]
fn javascript_language() -> (r: tree_sitter::Language)
    ensures
        grammar_of(r) == "javascript"@,
{
    tree_sitter_javascript::LANGUAGE.into()
}

/// The TypeScript grammar, `tree_sitter_typescript::LANGUAGE_TYPESCRIPT`, known as "typescript".
#[verifier::external_body]
fn typescript_language() -> (r: tree_sitter::Language)
    ensures
        grammar_of(r) == "typescript"@,
{
    tree_sitter_typescript::LANGUAGE_TYPESCRIPT.into()
}

/// The TSX grammar, `tree_sitter_typescript::LANGUAGE_TSX`, known as "tsx".
#[verifier::external_body]
fn tsx_language() -> (r: tree_sitter::Language)
    ensures
        grammar_of(r) == "tsx"@,
{
    tree_sitter_typescript::LANGUAGE_TSX.into()
}

/// The Go grammar, `tree_sitter_go::LANGUAGE`, known as "go".
#[verifier::external_body]
fn go_language() -> (r: tree_sitter::Language)
    ensures
        grammar_of(r) == "go"@,
{
    tree_sitter_go::LANGUAGE.into()
}

/// The C grammar, `tree_sitter_c::LANGUAGE`, known as "c".
#[verifier::external_body]
fn c_language() -> (r: tree_sitter::Language)
    ensures
        grammar_of(r) == "c"@,
{
    tree_sitter_c::LANGUAGE.into()
}

/// The C++ grammar, `tree_sitter_cpp::LANGUAGE`, known as "cpp".
#[verifier::external_body]
fn cpp_language() -> (r: tree_sitter::Language)
    ensures
        grammar_of(r) == "cpp"@,
{
    tree_sitter_cpp::LANGUAGE.into()
}

// ---------------------------------------------------------------------------
// Parsing and querying
// ---------------------------------------------------------------------------

/// A new parser, `Parser::new`: it has no grammar yet.
#[verifier::external_body]
fn new_parser() -> (r: tree_sitter::Parser)
    ensures
        parser_grammar(r) is None,
{
    tree_sitter::Parser::new()
}

/// `Parser::set_language`: whether the parser took the grammar, which
/// depends on the grammar alone (its ABI version and whether it can parse).
/// Where it did, the parser now has that grammar; where it did not, the
/// parser is left as it was.
#[verifier::external_body]
fn set_parser_language(parser: &mut tree_sitter::Parser, language: &tree_sitter::Language) -> (r: bool)
    ensures
        r == grammar_loads(grammar_of(*language)),
        r ==> parser_grammar(*final(parser)) == Some(grammar_of(*language)),
        !r ==> parser_grammar(*final(parser)) == parser_grammar(*old(parser)),
{
    parser.set_language(language).is_ok()
}

/// `Parser::parse` of a whole text with no earlier tree. It gives a tree
/// whenever the parser has a grammar (no timeout or cancellation is set
/// here); the tree is of that grammar and that text.
#[verifier::external_body]
fn parse_text(parser: &mut tree_sitter::Parser, source: &str) -> (r: Option<tree_sitter::Tree>)
    requires
        parser_grammar(*old(parser)) is Some,
    ensures
        parser_grammar(*final(parser)) == parser_grammar(*old(parser)),
        r is Some,
        r matches Some(t) ==> Some(tree_grammar(t)) == parser_grammar(*old(parser)),
        r matches Some(t) ==> tree_text(t) == source@,
{
    parser.parse(source, None)
}

/// `Query::new`: the compiled query, or `None` where the query text does not
/// compile for the grammar; which of the two depends on the grammar and the
/// text alone.
#[verifier::external_body]
fn compile_query(language: &tree_sitter::Language, text: &str) -> (r: Option<tree_sitter::Query>)
    ensures
        r is Some == query_compiles(grammar_of(*language), text@),
        r matches Some(q) ==> query_grammar(q) == grammar_of(*language) && query_text(q) == text@,
{
    tree_sitter::Query::new(language, text).ok()
}

/// `Query::capture_index_for_name`: the index of a capture name in the
/// query, if the query has it.
#[verifier::external_body]
fn capture_index(query: &tree_sitter::Query, name: &str) -> (r: Option<u32>)
    ensures
        r == capture_index_of(query_grammar(*query), query_text(*query), name@),
{
    query.capture_index_for_name(name)
}

/// A node and its whole subtree as plain values: `Node::kind`, `is_named`,
/// `start_byte`, `end_byte`, `start_position`, `end_position` and `children`.
#[verifier::external_body]
fn syntax_node(node: tree_sitter::Node<'_>) -> SyntaxNode {
    let mut cursor = node.walk();
    let children = node.children(&mut cursor).map(syntax_node).collect();
    let (start, end) = (node.start_position(), node.end_position());
    SyntaxNode {
        kind: node.kind().to_string(),
        named: node.is_named(),
        start_byte: node.start_byte(),
        end_byte: node.end_byte(),
        start_row: start.row,
        start_col: start.column,
        end_row: end.row,
        end_col: end.column,
        children,
    }
}

/// `QueryCursor::matches` of a new cursor (`QueryCursor::new`, no limits
/// set) over the whole tree (`Tree::root_node`), each match's captures as
/// (capture index, node) in order. The text must be the one the tree was
/// parsed from (text predicates slice it by node ranges) and the query must
/// be for the tree's grammar. A node's end is its start plus its size, so
/// no captured node ends before it starts.
#[verifier::external_body]
fn query_matches(query: &tree_sitter::Query, tree: &tree_sitter::Tree, source: &str) -> (r: Vec<
    Vec<QueryCapture>,
>)
    requires
        tree_text(*tree) == source@,
        query_grammar(*query) == tree_grammar(*tree),
    ensures
        r@ == ts_matches(query_grammar(*query), query_text(*query), source@),
        captures_in_order(r@),
{
    let mut cursor = tree_sitter::QueryCursor::new();
    let mut matches = cursor.matches(query, tree.root_node(), source.as_bytes());
    let mut out = Vec::new();
    while let Some(m) = matches.next() {
        out.push(m.captures().iter().map(|c| QueryCapture { index: c.index, node: syntax_node(c.node) }).collect());
    }
    out
}

// ---------------------------------------------------------------------------
// Language configurations
// ---------------------------------------------------------------------------

/// Configuration for a single language's grammar and queries.
pub struct LanguageConfig {
    pub name: &'static str,
    pub language: tree_sitter::Language,
    pub def_query: &'static str,
    pub ref_query: &'static str,
}

pub const RUST_DEF_QUERY: &'static str = "
            (function_item name: (identifier) @name) @def
            (struct_item name: (type_identifier) @name) @def
            (enum_item name: (type_identifier) @name) @def
            (trait_item name: (type_identifier) @name) @def
            (impl_item type: (type_identifier) @name) @def
            (const_item name: (identifier) @name) @def
            (static_item name: (identifier) @name) @def
            (mod_item name: (identifier) @name) @def
        ";

pub const RUST_REF_QUERY: &'static str = "
            (call_expression function: (identifier) @ref_name) @ref
            (call_expression function: (field_expression field: (field_identifier) @ref_name)) @ref
            (call_expression function: (scoped_identifier name: (identifier) @ref_name)) @ref
            (macro_invocation macro: (identifier) @ref_name) @ref
        ";

pub const PYTHON_DEF_QUERY: &'static str = "
            (function_definition name: (identifier) @name) @def
            (class_definition name: (identifier) @name) @def
        ";

pub const PYTHON_REF_QUERY: &'static str = "
            (call function: (identifier) @ref_name) @ref
            (call function: (attribute attribute: (identifier) @ref_name)) @ref
        ";

pub const JAVASCRIPT_DEF_QUERY: &'static str = "
            (function_declaration name: (identifier) @name) @def
            (class_declaration name: (identifier) @name) @def
            (method_definition name: (property_identifier) @name) @def
        ";

/// The call query shared by JavaScript, TypeScript and TSX.
pub const JS_REF_QUERY: &'static str = "
            (call_expression function: (identifier) @ref_name) @ref
            (call_expression function: (member_expression property: (property_identifier) @ref_name)) @ref
        ";

/// The definition query shared by TypeScript and TSX.
pub const TYPESCRIPT_DEF_QUERY: &'static str = "
            (function_declaration name: (identifier) @name) @def
            (class_declaration name: (type_identifier) @name) @def
            (method_definition name: (property_identifier) @name) @def
            (interface_declaration name: (type_identifier) @name) @def
            (enum_declaration name: (identifier) @name) @def
            (type_alias_declaration name: (type_identifier) @name) @def
        ";

pub const GO_DEF_QUERY: &'static str = "
            (function_declaration name: (identifier) @name) @def
            (method_declaration name: (field_identifier) @name) @def
            (type_declaration (type_spec name: (type_identifier) @name)) @def
        ";

pub const GO_REF_QUERY: &'static str = "
            (call_expression function: (identifier) @ref_name) @ref
            (call_expression function: (selector_expression field: (field_identifier) @ref_name)) @ref
        ";

pub const C_DEF_QUERY: &'static str = "
            (function_definition declarator: (function_declarator declarator: (identifier) @name)) @def
            (struct_specifier name: (type_identifier) @name) @def
            (enum_specifier name: (type_identifier) @name) @def
        ";

pub const C_REF_QUERY: &'static str = "
            (call_expression function: (identifier) @ref_name) @ref
        ";

pub const CPP_DEF_QUERY: &'static str = "
            (function_definition declarator: (function_declarator declarator: (identifier) @name)) @def
            (function_definition declarator: (function_declarator declarator: (qualified_identifier name: (identifier) @name))) @def
            (struct_specifier name: (type_identifier) @name) @def
            (enum_specifier name: (type_identifier) @name) @def
            (class_specifier name: (type_identifier) @name) @def
            (namespace_definition name: (identifier) @name) @def
        ";

pub const CPP_REF_QUERY: &'static str = "
            (call_expression function: (identifier) @ref_name) @ref
            (call_expression function: (qualified_identifier name: (identifier) @ref_name)) @ref
            (call_expression function: (field_expression field: (field_identifier) @ref_name)) @ref
        ";

/// The definition query of a supported language.
pub open spec fn spec_def_query(lang: Seq<char>) -> Option<Seq<char>> {
    if lang == "rust"@ {
        Some(RUST_DEF_QUERY@)
    } else if lang == "python"@ {
        Some(PYTHON_DEF_QUERY@)
    } else if lang == "javascript"@ {
        Some(JAVASCRIPT_DEF_QUERY@)
    } else if lang == "typescript"@ || lang == "tsx"@ {
        Some(TYPESCRIPT_DEF_QUERY@)
    } else if lang == "go"@ {
        Some(GO_DEF_QUERY@)
    } else if lang == "c"@ {
        Some(C_DEF_QUERY@)
    } else if lang == "cpp"@ {
        Some(CPP_DEF_QUERY@)
    } else {
        None
    }
}

/// The reference query of a supported language.
pub open spec fn spec_ref_query(lang: Seq<char>) -> Option<Seq<char>> {
    if lang == "rust"@ {
        Some(RUST_REF_QUERY@)
    } else if lang == "python"@ {
        Some(PYTHON_REF_QUERY@)
    } else if lang == "javascript"@ || lang == "typescript"@ || lang == "tsx"@ {
        Some(JS_REF_QUERY@)
    } else if lang == "go"@ {
        Some(GO_REF_QUERY@)
    } else if lang == "c"@ {
        Some(C_REF_QUERY@)
    } else if lang == "cpp"@ {
        Some(CPP_REF_QUERY@)
    } else {
        None
    }
}

pub(crate) proof fn lemma_language_names()
    ensures
        "rust"@ == seq!['r', 'u', 's', 't'],
        "python"@ == seq!['p', 'y', 't', 'h', 'o', 'n'],
        "javascript"@ == seq!['j', 'a', 'v', 'a', 's', 'c', 'r', 'i', 'p', 't'],
        "typescript"@ == seq!['t', 'y', 'p', 'e', 's', 'c', 'r', 'i', 'p', 't'],
        "tsx"@ == seq!['t', 's', 'x'],
        "go"@ == seq!['g', 'o'],
        "c"@ == seq!['c'],
        "cpp"@ == seq!['c', 'p', 'p'],
{
    reveal_strlit("rust");
    reveal_strlit("python");
    reveal_strlit("javascript");
    reveal_strlit("typescript");
    reveal_strlit("tsx");
    reveal_strlit("go");
    reveal_strlit("c");
    reveal_strlit("cpp");
}

/// A configuration holds the queries of the language it is named after.
pub open spec fn config_for(c: LanguageConfig, lang: Seq<char>) -> bool {
    &&& c.name@ == lang
    &&& grammar_of(c.language) == lang
    &&& spec_def_query(lang) == Some(c.def_query@)
    &&& spec_ref_query(lang) == Some(c.ref_query@)
}

/// The Rust configuration.
pub fn rust_config() -> (c: LanguageConfig)
    ensures
        config_for(c, "rust"@),
{
    proof {
        lemma_language_names();
    }
    LanguageConfig {
        name: "rust",
        language: rust_language(),
        def_query: RUST_DEF_QUERY,
        ref_query: RUST_REF_QUERY,
    }
}

/// The Python configuration.
pub fn python_config() -> (c: LanguageConfig)
    ensures
        config_for(c, "python"@),
{
    proof {
        lemma_language_names();
    }
    LanguageConfig {
        name: "python",
        language: python_language(),
        def_query: PYTHON_DEF_QUERY,
        ref_query: PYTHON_REF_QUERY,
    }
}

/// The JavaScript configuration.
pub fn javascript_config() -> (c: LanguageConfig)
    ensures
        config_for(c, "javascript"@),
{
    proof {
        lemma_language_names();
    }
    LanguageConfig {
        name: "javascript",
        language: javascript_language(),
        def_query: JAVASCRIPT_DEF_QUERY,
        ref_query: JS_REF_QUERY,
    }
}

/// The TypeScript configuration.
pub fn typescript_config() -> (c: LanguageConfig)
    ensures
        config_for(c, "typescript"@),
{
    proof {
        lemma_language_names();
    }
    LanguageConfig {
        name: "typescript",
        language: typescript_language(),
        def_query: TYPESCRIPT_DEF_QUERY,
        ref_query: JS_REF_QUERY,
    }
}

/// The TSX configuration.
pub fn tsx_config() -> (c: LanguageConfig)
    ensures
        config_for(c, "tsx"@),
{
    proof {
        lemma_language_names();
    }
    LanguageConfig {
        name: "tsx",
        language: tsx_language(),
        def_query: TYPESCRIPT_DEF_QUERY,
        ref_query: JS_REF_QUERY,
    }
}

/// The Go configuration.
pub fn go_config() -> (c: LanguageConfig)
    ensures
        config_for(c, "go"@),
{
    proof {
        lemma_language_names();
    }
    LanguageConfig {
        name: "go",
        language: go_language(),
        def_query: GO_DEF_QUERY,
        ref_query: GO_REF_QUERY,
    }
}

/// The C configuration.
pub fn c_config() -> (c: LanguageConfig)
    ensures
        config_for(c, "c"@),
{
    proof {
        lemma_language_names();
    }
    LanguageConfig {
        name: "c",
        language: c_language(),
        def_query: C_DEF_QUERY,
        ref_query: C_REF_QUERY,
    }
}

/// The C++ configuration.
pub fn cpp_config() -> (c: LanguageConfig)
    ensures
        config_for(c, "cpp"@),
{
    proof {
        lemma_language_names();
        assert("cpp"@.len() == 3 && "cpp"@ != "c"@);
    }
    LanguageConfig {
        name: "cpp",
        language: cpp_language(),
        def_query: CPP_DEF_QUERY,
        ref_query: CPP_REF_QUERY,
    }
}

/// Look up a configuration by the language name (as `detect_language` gives it).
pub fn get_config(language: &str) -> (r: Option<LanguageConfig>)
    ensures
        match r {
            Some(c) => config_for(c, language@),
            None => spec_def_query(language@) is None,
        },
{
    let l = chars_of(language);
    let l = l.as_slice();
    if eq_str(l, "rust") {
        Some(rust_config())
    } else if eq_str(l, "python") {
        Some(python_config())
    } else if eq_str(l, "javascript") {
        Some(javascript_config())
    } else if eq_str(l, "typescript") {
        Some(typescript_config())
    } else if eq_str(l, "tsx") {
        Some(tsx_config())
    } else if eq_str(l, "go") {
        Some(go_config())
    } else if eq_str(l, "c") {
        Some(c_config())
    } else if eq_str(l, "cpp") {
        Some(cpp_config())
    } else {
        None
    }
}

// ---------------------------------------------------------------------------
// Extraction
// ---------------------------------------------------------------------------

/// What extraction gives: `None` where the parser does not take the grammar,
/// a query does not compile, or a query lacks one of its captures (`name`
/// and `def` for definitions, `ref_name` and `ref` for references);
/// otherwise the symbols that the definition matches yield (collected,
/// sorted by position, nested) and the references that the reference
/// matches yield against those symbols.
pub open spec fn spec_extract_symbols(
    src: Seq<char>,
    lang: Seq<char>,
    grammar: Seq<char>,
    def_query: Seq<char>,
    ref_query: Seq<char>,
) -> Option<(Seq<SymbolView>, Seq<RefView>)> {
    if !grammar_loads(grammar) || !query_compiles(grammar, def_query) || !query_compiles(
        grammar,
        ref_query,
    ) {
        None
    } else {
        match (
            capture_index_of(grammar, def_query, "name"@),
            capture_index_of(grammar, def_query, "def"@),
            capture_index_of(grammar, ref_query, "ref_name"@),
            capture_index_of(grammar, ref_query, "ref"@),
        ) {
            (Some(ni), Some(di), Some(rni), Some(ri)) => {
                let syms = spec_symbols_from_matches(
                    src,
                    lang,
                    ts_matches(grammar, def_query, src),
                    ni,
                    di,
                );
                Some((syms, collected_refs(src, ts_matches(grammar, ref_query, src), rni, ri, syms)))
            },
            _ => None,
        }
    }
}

/// The shape of extracted symbols and references: symbols in position order,
/// each parent an earlier symbol that it starts inside, each with one-based
/// positions whose line is no later than its end line; references of kind
/// `call`, at one-based positions, each containing index naming a symbol.
pub open spec fn well_placed(syms: Seq<SymbolView>, refs: Seq<RefView>) -> bool {
    &&& sorted_by_position(syms)
    &&& forall|i: int|
        0 <= i < syms.len() ==> match (#[trigger] syms[i]).parent_index {
            Some(j) => j < i && starts_inside(syms[i], syms[j as int]),
            None => true,
        }
    &&& forall|i: int|
        0 <= i < syms.len() ==> 1 <= (#[trigger] syms[i]).line <= syms[i].end_line && 1
            <= syms[i].col
    &&& forall|k: int|
        0 <= k < refs.len() ==> (#[trigger] refs[k]).kind == "call"@ && 1 <= refs[k].line && 1
            <= refs[k].col && match refs[k].containing_symbol_index {
            Some(j) => j < syms.len(),
            None => true,
        }
}

proof fn lemma_collected_refs(
    src: Seq<char>,
    ms: Seq<Vec<QueryCapture>>,
    rni: u32,
    ri: u32,
    syms: Seq<SymbolView>,
)
    ensures
        forall|k: int|
            0 <= k < collected_refs(src, ms, rni, ri, syms).len() ==> {
                let r = #[trigger] collected_refs(src, ms, rni, ri, syms)[k];
                &&& r.kind == "call"@
                &&& 1 <= r.line && 1 <= r.col
                &&& match r.containing_symbol_index {
                    Some(j) => j < syms.len(),
                    None => true,
                }
            },
    decreases ms.len(),
{
    if ms.len() > 0 {
        lemma_collected_refs(src, ms.drop_last(), rni, ri, syms);
        let m = ms.last()@;
        let off_opt = crate::symbols::last_capture(m, ri);
        if let Some(x) = off_opt {
            lemma_last_containing(syms, m[x].node.start_byte, syms.len() as int);
        }
    }
}

proof fn lemma_last_containing(s: Seq<SymbolView>, off: usize, n: int)
    requires
        n <= s.len(),
    ensures
        crate::symbols::last_containing(s, off, n) matches Some(i) ==> 0 <= i < n,
    decreases n,
{
    if n > 0 && !crate::symbols::contains_offset(s[n - 1], off) {
        lemma_last_containing(s, off, n - 1);
    }
}

/// One-based positions, the line no later than the end line.
pub open spec fn positions_ok(s: SymbolView) -> bool {
    1 <= s.line <= s.end_line && 1 <= s.col
}

proof fn lemma_collected_positions(
    src: Seq<char>,
    lang: Seq<char>,
    ms: Seq<Vec<QueryCapture>>,
    ni: u32,
    di: u32,
)
    requires
        captures_in_order(ms),
    ensures
        forall|k: int|
            0 <= k < collected_symbols(src, lang, ms, ni, di).len() ==> positions_ok(
                #[trigger] collected_symbols(src, lang, ms, ni, di)[k],
            ),
    decreases ms.len(),
{
    if ms.len() > 0 {
        let prev = ms.drop_last();
        assert forall|i: int, j: int| 0 <= i < prev.len() && 0 <= j < prev[i].len() implies {
            let n = (#[trigger] prev[i]@[j]).node;
            n.start_byte <= n.end_byte && n.start_row <= n.end_row
        } by {
            assert(prev[i] == ms[i]);
            assert(ms[i]@[j] == prev[i]@[j]);
        }
        lemma_collected_positions(src, lang, prev, ni, di);
        let m = ms.last()@;
        let before = collected_symbols(src, lang, prev, ni, di);
        let all = collected_symbols(src, lang, ms, ni, di);
        if let Some(x) = crate::symbols::last_capture(m, di) {
            crate::symbols::lemma_last_capture(m, di);
            let n = ms[ms.len() - 1]@[x].node;
            assert(n.start_row <= n.end_row);
            assert(m[x] == ms[ms.len() - 1]@[x]);
        }
        assert forall|k: int| 0 <= k < all.len() implies positions_ok(#[trigger] all[k]) by {
            if k < before.len() {
                assert(all[k] == before[k]);
            }
        }
    }
}

/// Extracted symbols keep one-based positions whose line is no later than
/// their end line, whatever order and nesting gives them.
proof fn lemma_extracted_positions(
    src: Seq<char>,
    lang: Seq<char>,
    ms: Seq<Vec<QueryCapture>>,
    ni: u32,
    di: u32,
)
    requires
        captures_in_order(ms),
        spec_symbols_from_matches(src, lang, ms, ni, di).len() <= usize::MAX,
    ensures
        forall|k: int|
            0 <= k < spec_symbols_from_matches(src, lang, ms, ni, di).len() ==> positions_ok(
                #[trigger] spec_symbols_from_matches(src, lang, ms, ni, di)[k],
            ),
{
    let collected = collected_symbols(src, lang, ms, ni, di);
    let sorted = sort_symbols(collected);
    lemma_collected_positions(src, lang, ms, ni, di);
    law_sorted_symbols_are_a_permutation_in_order(collected);
    assert forall|k: int| 0 <= k < sorted.len() implies positions_ok(#[trigger] sorted[k]) by {
        broadcast use vstd::seq_lib::group_to_multiset_ensures;

        assert(sorted.contains(sorted[k]));
        assert(collected.to_multiset().count(sorted[k]) > 0);
        assert(collected.contains(sorted[k]));
    }
}

/// Extract symbol definitions and references from `source` with the given
/// configuration. Returns `None` where the parser does not take the grammar,
/// a query does not compile, or a query lacks one of its captures.
pub fn extract_symbols(source: &str, config: &LanguageConfig) -> (r: Option<
    (Vec<ExtractedSymbol>, Vec<ExtractedRef>),
>)
    ensures
        r is Some == spec_extract_symbols(
            source@,
            config.name@,
            grammar_of(config.language),
            config.def_query@,
            config.ref_query@,
        ) is Some,
        r matches Some((syms, refs)) ==> {
            &&& spec_extract_symbols(
                source@,
                config.name@,
                grammar_of(config.language),
                config.def_query@,
                config.ref_query@,
            ) == Some((symbols_view(syms@), refs_view(refs@)))
            &&& well_placed(symbols_view(syms@), refs_view(refs@))
        },
{
    let mut parser = new_parser();
    if !set_parser_language(&mut parser, &config.language) {
        return None;
    }
    let tree = match parse_text(&mut parser, source) {
        Some(t) => t,
        None => return None,
    };
    // Phase 1: definitions, sorted by position, with their parents.
    let def_query = match compile_query(&config.language, config.def_query) {
        Some(q) => q,
        None => return None,
    };
    let name_idx = match capture_index(&def_query, "name") {
        Some(i) => i,
        None => return None,
    };
    let def_idx = match capture_index(&def_query, "def") {
        Some(i) => i,
        None => return None,
    };
    let def_matches = query_matches(&def_query, &tree, source);
    let symbols = symbols_from_matches(&def_matches, name_idx, def_idx, source, config.name);
    // Phase 2: references, each in its innermost containing symbol.
    let ref_query = match compile_query(&config.language, config.ref_query) {
        Some(q) => q,
        None => return None,
    };
    let ref_name_idx = match capture_index(&ref_query, "ref_name") {
        Some(i) => i,
        None => return None,
    };
    let ref_idx = match capture_index(&ref_query, "ref") {
        Some(i) => i,
        None => return None,
    };
    let ref_matches = query_matches(&ref_query, &tree, source);
    let refs = refs_from_matches(&ref_matches, ref_name_idx, ref_idx, source, &symbols);
    proof {
        let collected = collected_symbols(source@, config.name@, def_matches@, name_idx, def_idx);
        law_sorted_symbols_are_a_permutation_in_order(collected);
        let sorted = sort_symbols(collected);
        assert(sorted.len() == symbols_view(symbols@).len());
        assert(symbols.len() <= usize::MAX);
        law_parent_precedes_and_encloses(sorted);
        lemma_extracted_positions(source@, config.name@, def_matches@, name_idx, def_idx);
        lemma_collected_refs(source@, ref_matches@, ref_name_idx, ref_idx, symbols_view(symbols@));
    }
    Some((symbols, refs))
}

} // verus!
