use codedb::symbols::{collapse_whitespace, is_function_like, normalize_kind, supported_languages};

#[test]
fn test_supported_languages() {
    let langs = supported_languages();
    assert_eq!(langs.len(), 8);
    for expected in &[
        "rust",
        "python",
        "javascript",
        "typescript",
        "tsx",
        "go",
        "c",
        "cpp",
    ] {
        assert!(
            langs.contains(expected),
            "{expected} not in supported_languages"
        );
    }
}

#[test]
fn normalize_kind_maps_known_kinds() {
    assert_eq!(normalize_kind("function_item"), "function");
    assert_eq!(normalize_kind("impl_item"), "impl");
    assert_eq!(normalize_kind("mod_item"), "module");
    assert_eq!(normalize_kind("class_definition"), "class");
    assert_eq!(normalize_kind("method_declaration"), "method");
    assert_eq!(normalize_kind("type_spec"), "type");
    assert_eq!(normalize_kind("type_alias_declaration"), "type_alias");
    assert_eq!(normalize_kind("namespace_definition"), "namespace");
    assert_eq!(normalize_kind("lambda"), "lambda");
}

#[test]
fn function_like_kinds() {
    assert!(is_function_like("function_item"));
    assert!(is_function_like("method_declaration"));
    assert!(!is_function_like("struct_item"));
    assert!(!is_function_like("class_definition"));
}

#[test]
fn collapse_whitespace_runs_and_trims() {
    assert_eq!(collapse_whitespace("  fn  hello(\n    x: i32,\n)  "), "fn hello( x: i32, )");
    assert_eq!(collapse_whitespace("\t\r\n"), "");
    assert_eq!(collapse_whitespace("a\u{a0}\u{2003}b"), "a b");
    assert_eq!(collapse_whitespace("plain"), "plain");
}

#[test]
fn collapse_whitespace_keeps_other_characters_and_is_idempotent() {
    let input = "  fn  hello(\n  x: i32)\t";
    let once = collapse_whitespace(input);
    assert_eq!(once, "fn hello( x: i32)");
    assert_eq!(collapse_whitespace(&once), once);
    let others = |s: &str| s.chars().filter(|c| !c.is_whitespace()).collect::<String>();
    assert_eq!(others(&once), others(input));
}
