//! Signatures, parameter lists and return types of definitions, read from
//! their syntax nodes and the source text.
use vstd::prelude::*;
use vstd::string::*;
use crate::symbols::{
    collapse_whitespace_chars, spec_collapse_whitespace, spec_is_function_like, trim_ws,
    trim_ws_chars, is_function_like,
};
use crate::syntax::{bytes_of, node_text, range_text, text_of, SyntaxNode};
use crate::query::opt_view;
use crate::text::{chars_of, eq_str, slice_chars, string_from_chars};

verus! {

// ---------------------------------------------------------------------------
// Children by kind
// ---------------------------------------------------------------------------

/// Index of the first child at or after `i` whose kind is `k`.
pub open spec fn first_child_of_kind(cs: Seq<SyntaxNode>, k: Seq<char>, i: int) -> Option<int>
    decreases cs.len() - i,
{
    if i < 0 || i >= cs.len() {
        None
    } else if cs[i].kind@ == k {
        Some(i)
    } else {
        first_child_of_kind(cs, k, i + 1)
    }
}

/// Whether a node's kind is the given literal.
pub fn kind_is(node: &SyntaxNode, lit: &str) -> (b: bool)
    ensures
        b == (node.kind@ == lit@),
{
    let k = chars_of(node.kind.as_str());
    eq_str(k.as_slice(), lit)
}

/// Index of the first child at or after `from` whose kind is `kind`.
pub fn find_child_of_kind(cs: &Vec<SyntaxNode>, kind: &str, from: usize) -> (r: Option<usize>)
    ensures
        match r {
            Some(i) => first_child_of_kind(cs@, kind@, from as int) == Some(i as int),
            None => first_child_of_kind(cs@, kind@, from as int) is None,
        },
{
    let mut i = from;
    while i < cs.len()
        invariant
            from <= i,
            first_child_of_kind(cs@, kind@, from as int) == first_child_of_kind(
                cs@,
                kind@,
                i as int,
            ),
        decreases cs.len() - i,
    {
        if kind_is(&cs[i], kind) {
            return Some(i);
        }
        i = i + 1;
    }
    None
}

// ---------------------------------------------------------------------------
// Body of a definition
// ---------------------------------------------------------------------------

/// Kinds of the nodes that hold a definition's body.
pub open spec fn is_body_kind(k: Seq<char>) -> bool {
    k == "block"@ || k == "statement_block"@ || k == "compound_statement"@ || k
        == "field_declaration_list"@ || k == "declaration_list"@ || k == "class_body"@ || k
        == "interface_body"@ || k == "enum_variant_list"@
}

/// Index of the first child at or after `i` that is a body.
pub open spec fn first_body_child(cs: Seq<SyntaxNode>, i: int) -> Option<int>
    decreases cs.len() - i,
{
    if i < 0 || i >= cs.len() {
        None
    } else if is_body_kind(cs[i].kind@) {
        Some(i)
    } else {
        first_body_child(cs, i + 1)
    }
}

/// Start byte of the first body node found within `depth` levels: a body
/// child of `n` if there is one, else the first that a child's search finds.
pub open spec fn spec_body_start(n: SyntaxNode, depth: nat) -> Option<usize>
    decreases depth, 0int,
{
    if depth == 0 {
        None
    } else {
        match first_body_child(n.children@, 0) {
            Some(i) => Some(n.children@[i].start_byte),
            None => spec_body_start_in(n.children@, 0, (depth - 1) as nat),
        }
    }
}

/// The first body start that the search in `cs[i..]` finds, within `depth` levels.
pub open spec fn spec_body_start_in(cs: Seq<SyntaxNode>, i: int, depth: nat) -> Option<usize>
    decreases depth, cs.len() - i + 1,
{
    if i < 0 || i >= cs.len() {
        None
    } else {
        match spec_body_start(cs[i], depth) {
            Some(b) => Some(b),
            None => spec_body_start_in(cs, i + 1, depth),
        }
    }
}

fn is_body_kind_node(node: &SyntaxNode) -> (b: bool)
    ensures
        b == is_body_kind(node.kind@),
{
    let k = chars_of(node.kind.as_str());
    let k = k.as_slice();
    eq_str(k, "block") || eq_str(k, "statement_block") || eq_str(k, "compound_statement")
        || eq_str(k, "field_declaration_list") || eq_str(k, "declaration_list") || eq_str(
        k,
        "class_body",
    ) || eq_str(k, "interface_body") || eq_str(k, "enum_variant_list")
}

/// Find the start byte of the first body node, searching up to `depth` levels.
pub fn find_body_start(node: &SyntaxNode, depth: usize) -> (r: Option<usize>)
    ensures
        r == spec_body_start(*node, depth as nat),
    decreases depth,
{
    if depth == 0 {
        return None;
    }
    let cs = &node.children;
    let mut i: usize = 0;
    while i < cs.len()
        invariant
            depth > 0,
            *cs == node.children,
            first_body_child(cs@, 0) == first_body_child(cs@, i as int),
        decreases cs.len() - i,
    {
        if is_body_kind_node(&cs[i]) {
            assert(first_body_child(cs@, i as int) == Some(i as int));
            assert(spec_body_start(*node, depth as nat) == Some(node.children@[i as int].start_byte));
            return Some(cs[i].start_byte);
        }
        i = i + 1;
    }
    let ghost d = (depth - 1) as nat;
    let mut j: usize = 0;
    while j < cs.len()
        invariant
            depth > 0,
            d == depth - 1,
            first_body_child(cs@, 0) is None,
            spec_body_start(*node, depth as nat) == spec_body_start_in(cs@, j as int, d),
        decreases cs.len() - j,
    {
        let found = find_body_start(&cs[j], depth - 1);
        if let Some(s) = found {
            return Some(s);
        }
        j = j + 1;
    }
    None
}

// ---------------------------------------------------------------------------
// Signature
// ---------------------------------------------------------------------------

/// Index of the first byte equal to `x` in `b[i..end)`.
pub open spec fn first_byte_index(b: Seq<u8>, x: u8, i: int, end: int) -> Option<int>
    decreases end - i,
{
    if i < 0 || i >= end || i >= b.len() {
        None
    } else if b[i] == x {
        Some(i)
    } else {
        first_byte_index(b, x, i + 1, end)
    }
}

/// Where a definition's signature ends: at its body, else at its first `{`,
/// else at its end.
pub open spec fn sig_end(src: Seq<char>, n: SyntaxNode) -> int {
    match spec_body_start(n, 3) {
        Some(b) => b as int,
        None => match first_byte_index(
            bytes_of(src),
            0x7bu8,
            n.start_byte as int,
            n.end_byte as int,
        ) {
            Some(p) => p,
            None => n.end_byte as int,
        },
    }
}

/// Index of the first byte equal to `x` in `bytes[from..to)`.
fn find_byte(bytes: &[u8], x: u8, from: usize, to: usize) -> (r: Option<usize>)
    ensures
        match r {
            Some(p) => first_byte_index(bytes@, x, from as int, to as int) == Some(p as int),
            None => first_byte_index(bytes@, x, from as int, to as int) is None,
        },
{
    let mut i = from;
    while i < to && i < bytes.len()
        invariant
            from <= i,
            first_byte_index(bytes@, x, from as int, to as int) == first_byte_index(
                bytes@,
                x,
                i as int,
                to as int,
            ),
        decreases bytes.len() - i,
    {
        if bytes[i] == x {
            return Some(i);
        }
        i = i + 1;
    }
    None
}

/// The signature of a definition: its text before the body, trimmed and with
/// white space collapsed.
pub open spec fn spec_signature(src: Seq<char>, n: SyntaxNode) -> Option<Seq<char>> {
    match range_text(src, n.start_byte as int, sig_end(src, n)) {
        Some(t) => Some(spec_collapse_whitespace(trim_ws(t))),
        None => None,
    }
}

/// Trim, collapse white space, and make a `String`.
fn tidy(text: &str) -> (r: String)
    ensures
        r@ == spec_collapse_whitespace(trim_ws(text@)),
{
    let chars = chars_of(text);
    let trimmed = trim_ws_chars(&chars);
    let collapsed = collapse_whitespace_chars(&trimmed);
    string_from_chars(&collapsed)
}

/// Extract the signature text from a definition node (everything before the body).
pub fn extract_signature(node: &SyntaxNode, source: &str) -> (r: Option<String>)
    ensures
        match r {
            Some(t) => spec_signature(source@, *node) == Some(t@),
            None => spec_signature(source@, *node) is None,
        },
{
    let sig_end: usize = match find_body_start(node, 3) {
        Some(b) => b,
        None => match find_byte(source.as_bytes(), 0x7bu8, node.start_byte, node.end_byte) {
            Some(p) => p,
            None => node.end_byte,
        },
    };
    let text = text_of(source, node.start_byte, sig_end);
    match text {
        Some(t) => Some(tidy(t.as_str())),
        None => None,
    }
}

// ---------------------------------------------------------------------------
// Parameter lists
// ---------------------------------------------------------------------------

/// The text inside one pair of enclosing parentheses, if it has them.
pub open spec fn strip_parens(t: Seq<char>) -> Seq<char> {
    if t.len() >= 2 && t[0] == '(' && t[t.len() - 1] == ')' {
        t.subrange(1, t.len() - 1)
    } else {
        t
    }
}

/// A parameter list's text without its parentheses, trimmed, white space collapsed.
pub open spec fn param_text(t: Seq<char>) -> Seq<char> {
    spec_collapse_whitespace(trim_ws(strip_parens(trim_ws(t))))
}

/// The parameter text of the first child of kind `kind`.
pub open spec fn spec_param_list(src: Seq<char>, n: SyntaxNode, kind: Seq<char>) -> Option<
    Seq<char>,
> {
    match first_child_of_kind(n.children@, kind, 0) {
        Some(i) => match node_text(src, n.children@[i]) {
            Some(t) => Some(param_text(t)),
            None => None,
        },
        None => None,
    }
}

/// `param_text` of a text.
fn param_text_of(text: &str) -> (r: String)
    ensures
        r@ == param_text(text@),
{
    let chars = chars_of(text);
    let t = trim_ws_chars(&chars);
    let n = t.len();
    let inner = if n >= 2 && t[0] == '(' && t[n - 1] == ')' {
        slice_chars(&t, 1, n - 1)
    } else {
        t
    };
    let inner = trim_ws_chars(&inner);
    let collapsed = collapse_whitespace_chars(&inner);
    string_from_chars(&collapsed)
}

/// The parameter text of a child node, if its text can be read.
fn child_param_text(child: &SyntaxNode, source: &str) -> (r: Option<String>)
    ensures
        match r {
            Some(t) => node_text(source@, *child) matches Some(x) && t@ == param_text(x),
            None => node_text(source@, *child) is None,
        },
{
    match text_of(source, child.start_byte, child.end_byte) {
        Some(t) => Some(param_text_of(t.as_str())),
        None => None,
    }
}

/// Extract parameter list text: find the param list child, strip outer parens.
pub fn extract_param_list_text(node: &SyntaxNode, source: &str, param_list_kind: &str) -> (r:
    Option<String>)
    ensures
        match r {
            Some(t) => spec_param_list(source@, *node, param_list_kind@) == Some(t@),
            None => spec_param_list(source@, *node, param_list_kind@) is None,
        },
{
    match find_child_of_kind(&node.children, param_list_kind, 0) {
        Some(i) => {
            proof {
                lemma_first_child_bounds(node.children@, param_list_kind@, 0);
            }
            child_param_text(&node.children[i], source)
        },
        None => None,
    }
}

// ---------------------------------------------------------------------------
// Return types
// ---------------------------------------------------------------------------

/// Index of the first named child after the first `->` child, from `i` on.
pub open spec fn named_after_arrow(cs: Seq<SyntaxNode>, i: int, saw: bool) -> Option<int>
    decreases cs.len() - i,
{
    if i < 0 || i >= cs.len() {
        None
    } else if cs[i].kind@ == "->"@ {
        named_after_arrow(cs, i + 1, true)
    } else if saw && cs[i].named {
        Some(i)
    } else {
        named_after_arrow(cs, i + 1, saw)
    }
}

/// The text of the first named child after `->`.
pub open spec fn spec_return_after_arrow(src: Seq<char>, n: SyntaxNode) -> Option<Seq<char>> {
    match named_after_arrow(n.children@, 0, false) {
        Some(i) => node_text(src, n.children@[i]),
        None => None,
    }
}

/// Find the return type by looking for a type node after `->` token.
pub fn find_return_type_after_arrow(node: &SyntaxNode, source: &str) -> (r: Option<String>)
    ensures
        match r {
            Some(t) => spec_return_after_arrow(source@, *node) == Some(t@),
            None => spec_return_after_arrow(source@, *node) is None,
        },
{
    let cs = &node.children;
    let mut saw_arrow = false;
    let mut i: usize = 0;
    while i < cs.len()
        invariant
            *cs == node.children,
            named_after_arrow(cs@, 0, false) == named_after_arrow(cs@, i as int, saw_arrow),
        decreases cs.len() - i,
    {
        if kind_is(&cs[i], "->") {
            saw_arrow = true;
        } else if saw_arrow && cs[i].named {
            assert(named_after_arrow(cs@, i as int, saw_arrow) == Some(i as int));
            return text_of(source, cs[i].start_byte, cs[i].end_byte);
        }
        i = i + 1;
    }
    None
}

/// A trimmed text, or nothing where it is empty.
pub open spec fn non_empty_trimmed(t: Option<Seq<char>>) -> Option<Seq<char>> {
    match t {
        Some(x) => if trim_ws(x).len() == 0 {
            None
        } else {
            Some(trim_ws(x))
        },
        None => None,
    }
}

fn trimmed_non_empty(t: Option<String>) -> (r: Option<String>)
    ensures
        match r {
            Some(x) => non_empty_trimmed(opt_view(t)) == Some(x@),
            None => non_empty_trimmed(opt_view(t)) is None,
        },
{
    match t {
        Some(s) => {
            let chars = chars_of(s.as_str());
            let tr = trim_ws_chars(&chars);
            if tr.len() == 0 {
                None
            } else {
                Some(string_from_chars(&tr))
            }
        },
        None => None,
    }
}

// ---------------------------------------------------------------------------
// Per-language function types: (return type, parameters)
// ---------------------------------------------------------------------------

/// Index of the first child at or after `i` that names a Go function or method.
pub open spec fn first_name_child(cs: Seq<SyntaxNode>, i: int) -> Option<int>
    decreases cs.len() - i,
{
    if i < 0 || i >= cs.len() {
        None
    } else if cs[i].kind@ == "identifier"@ || cs[i].kind@ == "field_identifier"@ {
        Some(i)
    } else {
        first_name_child(cs, i + 1)
    }
}

/// Index of the parameter list that follows the name of a Go function.
pub open spec fn go_params_index(cs: Seq<SyntaxNode>) -> Option<int> {
    match first_name_child(cs, 0) {
        Some(np) => first_child_of_kind(cs, "parameter_list"@, np + 1),
        None => None,
    }
}

/// Go parameters: the parameter list after the name.
pub open spec fn spec_go_params(src: Seq<char>, n: SyntaxNode) -> Option<Seq<char>> {
    match go_params_index(n.children@) {
        Some(pi) => match node_text(src, n.children@[pi]) {
            Some(t) => Some(param_text(t)),
            None => None,
        },
        None => None,
    }
}

/// Go return type: the text between the parameters and the body, if any.
pub open spec fn spec_go_return(src: Seq<char>, n: SyntaxNode) -> Option<Seq<char>> {
    let cs = n.children@;
    match go_params_index(cs) {
        Some(pi) => {
            let block_start = match first_child_of_kind(cs, "block"@, 0) {
                Some(b) => cs[b].start_byte as int,
                None => n.end_byte as int,
            };
            non_empty_trimmed(range_text(src, cs[pi].end_byte as int, block_start))
        },
        None => None,
    }
}

fn find_name_child(cs: &Vec<SyntaxNode>) -> (r: Option<usize>)
    ensures
        match r {
            Some(i) => first_name_child(cs@, 0) == Some(i as int),
            None => first_name_child(cs@, 0) is None,
        },
{
    let mut i: usize = 0;
    while i < cs.len()
        invariant
            first_name_child(cs@, 0) == first_name_child(cs@, i as int),
        decreases cs.len() - i,
    {
        if kind_is(&cs[i], "identifier") || kind_is(&cs[i], "field_identifier") {
            return Some(i);
        }
        i = i + 1;
    }
    None
}

fn find_go_params(cs: &Vec<SyntaxNode>) -> (r: Option<usize>)
    ensures
        match r {
            Some(i) => go_params_index(cs@) == Some(i as int) && i < cs.len(),
            None => go_params_index(cs@) is None,
        },
{
    match find_name_child(cs) {
        Some(np) => {
            proof {
                lemma_first_name_bounds(cs@, 0);
            }
            assert(np < cs.len());
            let r = find_child_of_kind(cs, "parameter_list", np + 1);
            proof {
                if let Some(i) = r {
                    lemma_first_child_bounds(cs@, "parameter_list"@, np + 1);
                }
            }
            r
        },
        None => None,
    }
}

proof fn lemma_first_name_bounds(cs: Seq<SyntaxNode>, i: int)
    ensures
        first_name_child(cs, i) matches Some(j) ==> i <= j < cs.len(),
    decreases cs.len() - i,
{
    if 0 <= i < cs.len() && !(cs[i].kind@ == "identifier"@ || cs[i].kind@ == "field_identifier"@) {
        lemma_first_name_bounds(cs, i + 1);
    }
}

proof fn lemma_first_child_bounds(cs: Seq<SyntaxNode>, k: Seq<char>, i: int)
    ensures
        first_child_of_kind(cs, k, i) matches Some(j) ==> i <= j < cs.len() && cs[j].kind@ == k,
    decreases cs.len() - i,
{
    if 0 <= i < cs.len() && cs[i].kind@ != k {
        lemma_first_child_bounds(cs, k, i + 1);
    }
}

/// Go function types: (return type, parameters).
pub fn extract_go_fn_types(node: &SyntaxNode, source: &str) -> (r: (Option<String>, Option<String>))
    ensures
        opt_view(r.0) == spec_go_return(source@, *node),
        opt_view(r.1) == spec_go_params(source@, *node),
{
    let cs = &node.children;
    match find_go_params(cs) {
        Some(pi) => {
            let params = child_param_text(&cs[pi], source);
            let block_start = match find_child_of_kind(cs, "block", 0) {
                Some(b) => {
                    proof {
                        lemma_first_child_bounds(cs@, "block"@, 0);
                    }
                    cs[b].start_byte
                },
                None => node.end_byte,
            };
            let ret = trimmed_non_empty(text_of(source, cs[pi].end_byte, block_start));
            (ret, params)
        },
        None => (None, None),
    }
}

/// Rust and Python function types: the type after `->`, and the `parameters` list.
pub open spec fn spec_arrow_fn_types(src: Seq<char>, n: SyntaxNode) -> (Option<Seq<char>>, Option<
    Seq<char>,
>) {
    (spec_return_after_arrow(src, n), spec_param_list(src, n, "parameters"@))
}

/// Rust function types: (return type, parameters).
pub fn extract_rust_fn_types(node: &SyntaxNode, source: &str) -> (r: (Option<String>, Option<String>))
    ensures
        opt_view(r.0) == spec_arrow_fn_types(source@, *node).0,
        opt_view(r.1) == spec_arrow_fn_types(source@, *node).1,
{
    let return_type = find_return_type_after_arrow(node, source);
    let params = extract_param_list_text(node, source, "parameters");
    (return_type, params)
}

/// Python function types: (return type, parameters).
pub fn extract_python_fn_types(node: &SyntaxNode, source: &str) -> (r: (
    Option<String>,
    Option<String>,
))
    ensures
        opt_view(r.0) == spec_arrow_fn_types(source@, *node).0,
        opt_view(r.1) == spec_arrow_fn_types(source@, *node).1,
{
    let return_type = find_return_type_after_arrow(node, source);
    let params = extract_param_list_text(node, source, "parameters");
    (return_type, params)
}

/// A type annotation's text without its leading `:`.
pub open spec fn strip_colon(t: Seq<char>) -> Seq<char> {
    if t.len() > 0 && t[0] == ':' {
        t.drop_first()
    } else {
        t
    }
}

/// TypeScript return type: the function's own type annotation, without `:`.
pub open spec fn spec_ts_return(src: Seq<char>, n: SyntaxNode) -> Option<Seq<char>> {
    match first_child_of_kind(n.children@, "type_annotation"@, 0) {
        Some(i) => match node_text(src, n.children@[i]) {
            Some(t) => Some(trim_ws(strip_colon(trim_ws(t)))),
            None => None,
        },
        None => None,
    }
}

/// TypeScript function types: (return type, parameters).
pub fn extract_ts_fn_types(node: &SyntaxNode, source: &str) -> (r: (Option<String>, Option<String>))
    ensures
        opt_view(r.0) == spec_ts_return(source@, *node),
        opt_view(r.1) == spec_param_list(source@, *node, "formal_parameters"@),
{
    let params = extract_param_list_text(node, source, "formal_parameters");
    let return_type = match find_child_of_kind(&node.children, "type_annotation", 0) {
        Some(i) => {
            proof {
                lemma_first_child_bounds(node.children@, "type_annotation"@, 0);
            }
            let ta = &node.children[i];
            match text_of(source, ta.start_byte, ta.end_byte) {
                Some(t) => {
                    let chars = chars_of(t.as_str());
                    let tr = trim_ws_chars(&chars);
                    let stripped = if tr.len() > 0 && tr[0] == ':' {
                        slice_chars(&tr, 1, tr.len())
                    } else {
                        tr
                    };
                    proof {
                        if trim_ws(chars@).len() > 0 && trim_ws(chars@)[0] == ':' {
                            assert(stripped@ =~= strip_colon(trim_ws(chars@)));
                        }
                    }
                    let out = trim_ws_chars(&stripped);
                    Some(string_from_chars(&out))
                },
                None => None,
            }
        },
        None => None,
    };
    (return_type, params)
}

/// JavaScript function types: no return type, and the `formal_parameters` list.
pub fn extract_js_fn_types(node: &SyntaxNode, source: &str) -> (r: (Option<String>, Option<String>))
    ensures
        r.0 is None,
        opt_view(r.1) == spec_param_list(source@, *node, "formal_parameters"@),
{
    let params = extract_param_list_text(node, source, "formal_parameters");
    (None, params)
}

/// C return type: the text before the function declarator, if any.
pub open spec fn spec_c_return(src: Seq<char>, n: SyntaxNode) -> Option<Seq<char>> {
    match first_child_of_kind(n.children@, "function_declarator"@, 0) {
        Some(dp) => if dp == 0 {
            None
        } else {
            non_empty_trimmed(
                range_text(src, n.start_byte as int, n.children@[dp].start_byte as int),
            )
        },
        None => None,
    }
}

/// C parameters: the parameter list inside the function declarator.
pub open spec fn spec_c_params(src: Seq<char>, n: SyntaxNode) -> Option<Seq<char>> {
    match first_child_of_kind(n.children@, "function_declarator"@, 0) {
        Some(dp) => spec_param_list(src, n.children@[dp], "parameter_list"@),
        None => None,
    }
}

/// C and C++ function types: (return type, parameters).
pub fn extract_c_fn_types(node: &SyntaxNode, source: &str) -> (r: (Option<String>, Option<String>))
    ensures
        opt_view(r.0) == spec_c_return(source@, *node),
        opt_view(r.1) == spec_c_params(source@, *node),
{
    let cs = &node.children;
    match find_child_of_kind(cs, "function_declarator", 0) {
        Some(dp) => {
            proof {
                lemma_first_child_bounds(cs@, "function_declarator"@, 0);
            }
            let return_type = if dp == 0 {
                None
            } else {
                trimmed_non_empty(text_of(source, node.start_byte, cs[dp].start_byte))
            };
            let params = extract_param_list_text(&cs[dp], source, "parameter_list");
            (return_type, params)
        },
        None => (None, None),
    }
}

// ---------------------------------------------------------------------------
// All type information of a definition
// ---------------------------------------------------------------------------

/// (return type, parameters) of a function-like definition in a language.
pub open spec fn spec_fn_types(src: Seq<char>, n: SyntaxNode, lang: Seq<char>) -> (Option<
    Seq<char>,
>, Option<Seq<char>>) {
    if lang == "rust"@ || lang == "python"@ {
        spec_arrow_fn_types(src, n)
    } else if lang == "go"@ {
        (spec_go_return(src, n), spec_go_params(src, n))
    } else if lang == "typescript"@ || lang == "tsx"@ {
        (spec_ts_return(src, n), spec_param_list(src, n, "formal_parameters"@))
    } else if lang == "javascript"@ {
        (None, spec_param_list(src, n, "formal_parameters"@))
    } else if lang == "c"@ || lang == "cpp"@ {
        (spec_c_return(src, n), spec_c_params(src, n))
    } else {
        (None, None)
    }
}

/// (signature, return type, parameters) of a definition: return type and
/// parameters only for function-like definitions.
pub open spec fn spec_type_info(src: Seq<char>, n: SyntaxNode, lang: Seq<char>) -> (Option<
    Seq<char>,
>, Option<Seq<char>>, Option<Seq<char>>) {
    let sig = spec_signature(src, n);
    if !spec_is_function_like(n.kind@) {
        (sig, None, None)
    } else {
        (sig, spec_fn_types(src, n, lang).0, spec_fn_types(src, n, lang).1)
    }
}

/// Extract type information (signature, return_type, params) from a def node.
pub fn extract_type_info(node: &SyntaxNode, source: &str, language: &str) -> (r: (
    Option<String>,
    Option<String>,
    Option<String>,
))
    ensures
        opt_view(r.0) == spec_type_info(source@, *node, language@).0,
        opt_view(r.1) == spec_type_info(source@, *node, language@).1,
        opt_view(r.2) == spec_type_info(source@, *node, language@).2,
{
    let signature = extract_signature(node, source);
    if !is_function_like(node.kind.as_str()) {
        return (signature, None, None);
    }
    let lang = chars_of(language);
    let l = lang.as_slice();
    let (return_type, params) = if eq_str(l, "rust") {
        extract_rust_fn_types(node, source)
    } else if eq_str(l, "python") {
        extract_python_fn_types(node, source)
    } else if eq_str(l, "go") {
        extract_go_fn_types(node, source)
    } else if eq_str(l, "typescript") || eq_str(l, "tsx") {
        extract_ts_fn_types(node, source)
    } else if eq_str(l, "javascript") {
        extract_js_fn_types(node, source)
    } else if eq_str(l, "c") || eq_str(l, "cpp") {
        extract_c_fn_types(node, source)
    } else {
        (None, None)
    };
    (signature, return_type, params)
}

} // verus!
