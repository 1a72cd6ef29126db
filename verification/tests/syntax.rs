use codedb::symbols::{find_containing_symbol, refs_from_matches, symbols_from_matches, QueryCapture};
use codedb::syntax::{text_of, SyntaxNode};
use codedb::type_info::{
    extract_c_fn_types, extract_go_fn_types, extract_param_list_text, extract_signature,
    extract_ts_fn_types, extract_type_info, find_body_start, find_return_type_after_arrow,
};

fn leaf(kind: &str, named: bool, start: usize, end: usize) -> SyntaxNode {
    SyntaxNode {
        kind: kind.to_string(),
        named,
        start_byte: start,
        end_byte: end,
        start_row: 0,
        start_col: start,
        end_row: 0,
        end_col: end,
        children: Vec::new(),
    }
}

fn node(kind: &str, start: usize, end: usize, children: Vec<SyntaxNode>) -> SyntaxNode {
    SyntaxNode { children, ..leaf(kind, true, start, end) }
}

#[test]
fn text_of_respects_char_boundaries() {
    assert_eq!(text_of("héllo", 0, 3).as_deref(), Some("hé"));
    assert_eq!(text_of("héllo", 0, 2), None);
    assert_eq!(text_of("abc", 2, 1), None);
    assert_eq!(text_of("abc", 1, 4), None);
    assert_eq!(text_of("abc", 3, 3).as_deref(), Some(""));
}

#[test]
fn body_start_searches_three_levels() {
    // fn f() { }   -- the block is a direct child
    let f = node("function_item", 0, 10, vec![leaf("identifier", true, 3, 4), leaf("block", true, 7, 10)]);
    assert_eq!(find_body_start(&f, 3), Some(7));
    assert_eq!(find_body_start(&f, 0), None);
    // a body two levels down is found with depth 3, not with depth 1
    let deep = node("decl", 0, 20, vec![node("inner", 0, 20, vec![leaf("class_body", true, 12, 20)])]);
    assert_eq!(find_body_start(&deep, 3), Some(12));
    assert_eq!(find_body_start(&deep, 1), None);
}

#[test]
fn signature_stops_at_body_or_brace() {
    let src = "fn   hello(x: i32)\n  -> u8 { 1 }";
    let f = node("function_item", 0, src.len(), vec![leaf("block", true, 26, src.len())]);
    assert_eq!(extract_signature(&f, src).as_deref(), Some("fn hello(x: i32) -> u8"));
    // no body node: cut at the first `{`
    let src2 = "struct  S { a: u8 }";
    let s = node("struct_item", 0, src2.len(), vec![leaf("type_identifier", true, 8, 9)]);
    assert_eq!(extract_signature(&s, src2).as_deref(), Some("struct S"));
    // neither: the whole node
    let src3 = "const X: u8 = 1;";
    let c = node("const_item", 0, src3.len(), vec![]);
    assert_eq!(extract_signature(&c, src3).as_deref(), Some("const X: u8 = 1;"));
}

#[test]
fn param_list_strips_one_pair_of_parens() {
    let src = "f(  a,\n   b )";
    let f = node("function_item", 0, src.len(), vec![leaf("parameters", true, 1, src.len())]);
    assert_eq!(extract_param_list_text(&f, src, "parameters").as_deref(), Some("a, b"));
    assert_eq!(extract_param_list_text(&f, src, "formal_parameters"), None);
    let src2 = "(";
    let g = node("function_item", 0, 1, vec![leaf("parameters", true, 0, 1)]);
    assert_eq!(extract_param_list_text(&g, src2, "parameters").as_deref(), Some("("));
}

#[test]
fn return_type_is_first_named_child_after_arrow() {
    let src = "fn f() -> Vec<u8> {}";
    let f = node(
        "function_item",
        0,
        src.len(),
        vec![
            leaf("fn", false, 0, 2),
            leaf("identifier", true, 3, 4),
            leaf("parameters", true, 4, 6),
            leaf("->", false, 7, 9),
            leaf("generic_type", true, 10, 17),
            leaf("block", true, 18, 20),
        ],
    );
    assert_eq!(find_return_type_after_arrow(&f, src).as_deref(), Some("Vec<u8>"));
    let (sig, ret, params) = extract_type_info(&f, src, "rust");
    assert_eq!(sig.as_deref(), Some("fn f() -> Vec<u8>"));
    assert_eq!(ret.as_deref(), Some("Vec<u8>"));
    assert_eq!(params.as_deref(), Some(""));
    // not function-like: only the signature
    let (_, ret, params) = extract_type_info(&node("struct_item", 0, 4, vec![]), "abcd", "rust");
    assert!(ret.is_none() && params.is_none());
}

#[test]
fn go_c_and_ts_types() {
    let src = "func f(a int) (int, error) {}";
    let g = node(
        "function_declaration",
        0,
        src.len(),
        vec![
            leaf("func", false, 0, 4),
            leaf("identifier", true, 5, 6),
            leaf("parameter_list", true, 6, 13),
            leaf("parameter_list", true, 14, 26),
            leaf("block", true, 27, 29),
        ],
    );
    let (ret, params) = extract_go_fn_types(&g, src);
    assert_eq!(params.as_deref(), Some("a int"));
    assert_eq!(ret.as_deref(), Some("(int, error)"));

    let csrc = "static int add(int a) {}";
    let decl = node("function_declarator", 11, 21, vec![leaf("identifier", true, 11, 14), leaf("parameter_list", true, 14, 21)]);
    let c = node("function_definition", 0, csrc.len(), vec![leaf("storage_class_specifier", true, 0, 6), leaf("primitive_type", true, 7, 10), decl, leaf("compound_statement", true, 22, 24)]);
    let (ret, params) = extract_c_fn_types(&c, csrc);
    assert_eq!(ret.as_deref(), Some("static int"));
    assert_eq!(params.as_deref(), Some("int a"));

    let tsrc = "function f(): Promise<void> {}";
    let t = node("function_declaration", 0, tsrc.len(), vec![leaf("formal_parameters", true, 10, 12), leaf("type_annotation", true, 12, 27), leaf("statement_block", true, 28, 30)]);
    let (ret, params) = extract_ts_fn_types(&t, tsrc);
    assert_eq!(ret.as_deref(), Some("Promise<void>"));
    assert_eq!(params.as_deref(), Some(""));
}

fn capture(index: u32, n: SyntaxNode) -> QueryCapture {
    QueryCapture { index, node: n }
}

#[test]
fn symbols_are_sorted_and_nested_from_matches() {
    //        0         1         2         3
    //        0123456789012345678901234567890123
    let src = "mod a { fn b() { c(); } } fn d() {}";
    let name = |s: usize, e: usize| capture(0, leaf("identifier", true, s, e));
    let def = |k: &str, s: usize, e: usize| capture(1, node(k, s, e, vec![]));
    // matches arrive out of order: d, b, a
    let matches = vec![
        vec![name(29, 30), def("function_item", 26, 35)],
        vec![name(11, 12), def("function_item", 8, 23)],
        vec![name(4, 5), def("mod_item", 0, 25)],
        vec![def("function_item", 0, 1)],
    ];
    let symbols = symbols_from_matches(&matches, 0, 1, src, "rust");
    let names: Vec<&str> = symbols.iter().map(|s| s.name.as_str()).collect();
    assert_eq!(names, vec!["a", "b", "d"]);
    assert_eq!(symbols[0].kind, "module");
    assert_eq!(symbols[0].parent_index, None);
    assert_eq!(symbols[1].parent_index, Some(0));
    assert_eq!(symbols[2].parent_index, None);
    assert_eq!(symbols[1].line, 1);
    assert_eq!(symbols[1].col, 9);
    assert_eq!(find_containing_symbol(&symbols, 17), Some(1));
    assert_eq!(find_containing_symbol(&symbols, 5), Some(0));
    assert_eq!(find_containing_symbol(&symbols, 25), None);

    let refs = vec![vec![capture(3, leaf("identifier", true, 17, 18)), capture(4, node("call_expression", 17, 20, vec![]))]];
    let found = refs_from_matches(&refs, 3, 4, src, &symbols);
    assert_eq!(found.len(), 1);
    assert_eq!(found[0].ref_name, "c");
    assert_eq!(found[0].kind, "call");
    assert_eq!(found[0].containing_symbol_index, Some(1));
}

#[test]
fn equal_starts_put_the_longer_symbol_first() {
    let src = "abcdefghij";
    let m = |s: usize, e: usize| vec![capture(0, leaf("identifier", true, s, e)), capture(1, node("x", s, e, vec![]))];
    let symbols = symbols_from_matches(&vec![m(0, 3), m(0, 10), m(5, 6)], 0, 1, src, "rust");
    let spans: Vec<(usize, usize)> = symbols.iter().map(|s| (s.start_byte, s.end_byte)).collect();
    assert_eq!(spans, vec![(0, 10), (0, 3), (5, 6)]);
    assert_eq!(symbols[1].parent_index, Some(0));
    assert_eq!(symbols[2].parent_index, Some(0));
}
