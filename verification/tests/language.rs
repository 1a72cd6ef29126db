use codedb::language::detect_language;

#[test]
fn test_detect_language() {
    assert_eq!(detect_language("src/main.rs"), Some("rust"));
    assert_eq!(detect_language("lib.py"), Some("python"));
    assert_eq!(detect_language("Cargo.toml"), Some("toml"));
    assert_eq!(detect_language("README.md"), Some("markdown"));
    assert_eq!(detect_language("Makefile"), None);
    assert_eq!(detect_language("foo.bar.rs"), Some("rust"));
}

#[test]
fn detect_language_ignores_ascii_case() {
    assert_eq!(detect_language("MAIN.RS"), Some("rust"));
    assert_eq!(detect_language("x.Hpp"), Some("cpp"));
}

#[test]
fn detect_language_uses_last_dot_only() {
    // The extension is what follows the last dot, even across directories.
    assert_eq!(detect_language("dir.rs/Makefile"), None);
    assert_eq!(detect_language("archive.tar.gz"), None);
    assert_eq!(detect_language("a.b.c.go"), Some("go"));
}

#[test]
fn detect_language_edge_cases() {
    assert_eq!(detect_language(""), None);
    assert_eq!(detect_language("trailing."), None);
    assert_eq!(detect_language(".bashrc"), None);
    assert_eq!(detect_language("script.sh"), Some("shell"));
    assert_eq!(detect_language("x.bash"), Some("shell"));
    assert_eq!(detect_language("x.mli"), Some("ocaml"));
    assert_eq!(detect_language("x.exs"), Some("elixir"));
    assert_eq!(detect_language("x.yml"), Some("yaml"));
    assert_eq!(detect_language("x.h"), Some("c"));
    assert_eq!(detect_language("x.dart"), Some("dart"));
}

#[test]
fn detect_language_needs_an_extension() {
    assert_eq!(detect_language("go"), None);
    assert_eq!(detect_language("rs"), None);
    assert_eq!(detect_language("src/c"), None);
    assert_eq!(detect_language("Makefile"), None);
}
