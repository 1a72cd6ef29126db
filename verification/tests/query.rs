use codedb::query::{parse_query, tokenize, SearchType, SelectType};
use codedb::translate::translate;
#[test]
fn test_tokenize_simple() {
    assert_eq!(tokenize("foo bar baz"), vec!["foo", "bar", "baz"]);
}

#[test]
fn test_tokenize_quoted() {
    assert_eq!(
        tokenize("lang:rust \"foo bar\" baz"),
        vec!["lang:rust", "\"foo bar\"", "baz"]
    );
}

#[test]
fn test_tokenize_filter_with_value() {
    assert_eq!(
        tokenize("repo:SFrame file:*.rs fn"),
        vec!["repo:SFrame", "file:*.rs", "fn"]
    );
}

#[test]
fn test_tokenize_negation() {
    assert_eq!(tokenize("-file:test foo"), vec!["-file:test", "foo"]);
}

#[test]
fn test_tokenize_empty() {
    assert_eq!(tokenize(""), Vec::<String>::new());
}

#[test]
fn test_tokenize_extra_whitespace() {
    assert_eq!(tokenize("  foo   bar  "), vec!["foo", "bar"]);
}

#[test]
fn test_tokenize_unclosed_quote() {
    // Unclosed quote consumes to end of input
    assert_eq!(tokenize("foo \"bar baz"), vec!["foo", "\"bar baz\""]);
}

#[test]
fn test_parse_bare_search() {
    let q = parse_query("foo bar").unwrap();
    assert_eq!(q.search_pattern, "foo bar");
    assert_eq!(q.search_type, SearchType::Code);
    assert!(q.filters.repo.is_none());
}

#[test]
fn test_parse_with_filters() {
    let q = parse_query("lang:rust file:*.rs process_data").unwrap();
    assert_eq!(q.search_pattern, "process_data");
    assert_eq!(q.filters.lang.as_deref(), Some("rust"));
    assert_eq!(q.filters.file.as_deref(), Some("*.rs"));
    assert_eq!(q.search_type, SearchType::Code);
}

#[test]
fn test_parse_type_symbol() {
    let q = parse_query("type:symbol lang:rust SFrame").unwrap();
    assert_eq!(q.search_type, SearchType::Symbol);
    assert_eq!(q.search_pattern, "SFrame");
    assert_eq!(q.filters.lang.as_deref(), Some("rust"));
}

#[test]
fn test_parse_type_diff() {
    let q = parse_query("type:diff author:ylow streaming").unwrap();
    assert_eq!(q.search_type, SearchType::Diff);
    assert_eq!(q.search_pattern, "streaming");
    assert_eq!(q.filters.author.as_deref(), Some("ylow"));
}

#[test]
fn test_parse_type_commit() {
    let q = parse_query("type:commit before:2026-01-01 after:2025-06-01 refactor").unwrap();
    assert_eq!(q.search_type, SearchType::Commit);
    assert_eq!(q.search_pattern, "refactor");
    assert_eq!(q.filters.before.as_deref(), Some("2026-01-01"));
    assert_eq!(q.filters.after.as_deref(), Some("2025-06-01"));
}

#[test]
fn test_parse_negated_file() {
    let q = parse_query("-file:test foo").unwrap();
    assert_eq!(q.filters.neg_file.as_deref(), Some("test"));
    assert_eq!(q.search_pattern, "foo");
}

#[test]
fn test_parse_count() {
    let q = parse_query("count:50 foo").unwrap();
    assert_eq!(q.filters.count, Some(50));
}

#[test]
fn test_parse_select_symbol_kind() {
    let q = parse_query("type:symbol select:symbol.function foo").unwrap();
    assert_eq!(
        q.filters.select,
        Some(SelectType::SymbolKind("function".to_string()))
    );
}

#[test]
fn test_parse_rev() {
    let q = parse_query("rev:develop foo").unwrap();
    assert_eq!(q.filters.rev.as_deref(), Some("develop"));
}

#[test]
fn test_parse_quoted_phrase() {
    let q = parse_query("lang:rust \"foo bar\"").unwrap();
    assert_eq!(q.search_pattern, "foo bar");
}

#[test]
fn test_parse_unknown_type_error() {
    let err = parse_query("type:bogus foo").unwrap_err();
    assert!(err.message().contains("Unknown search type"), "got: {err:?}");
}

#[test]
fn test_parse_invalid_count_error() {
    let err = parse_query("count:abc foo").unwrap_err();
    assert!(err.message().contains("positive integer"), "got: {err:?}");
}

#[test]
fn test_parse_negation_unsupported() {
    let err = parse_query("-repo:foo bar").unwrap_err();
    assert!(err.message().contains("Negation not supported"), "got: {err:?}");
}

#[test]
fn test_parse_unknown_filter_is_search_term() {
    let q = parse_query("http://example.com foo").unwrap();
    assert_eq!(q.search_pattern, "http://example.com foo");
}

#[test]
fn test_parse_lang_alias() {
    let q = parse_query("l:python foo").unwrap();
    assert_eq!(q.filters.lang.as_deref(), Some("python"));
}

// --- SQL generation tests ---

#[test]
fn test_translate_code_basic() {
    let q = parse_query("process_data").unwrap();
    let t = translate(&q).unwrap();
    assert_eq!(t.search_type, SearchType::Code);
    assert!(t.sql.contains("code_search(?1)"));
    assert!(t.sql.contains("LIMIT 20"));
    assert_eq!(t.params[0], "process_data");
    assert!(t.params.iter().any(|p| p.contains("refs/heads/main")));
}

#[test]
fn test_translate_code_with_filters() {
    let q = parse_query("lang:rust file:*.rs count:10 foo").unwrap();
    let t = translate(&q).unwrap();
    assert!(t.sql.contains("b.language ="));
    assert!(t.sql.contains("fr.path GLOB"));
    assert!(t.sql.contains("LIMIT 10"));
    assert_eq!(t.params[0], "foo");
}

#[test]
fn test_translate_code_neg_file() {
    let q = parse_query("-file:test foo").unwrap();
    let t = translate(&q).unwrap();
    assert!(t.sql.contains("NOT"));
    assert!(t.sql.contains("fr.path LIKE"));
}

#[test]
fn test_translate_code_repo_filter() {
    let q = parse_query("repo:SFrame foo").unwrap();
    let t = translate(&q).unwrap();
    assert!(t.sql.contains("repos rp"));
    assert!(t.sql.contains("rp.name LIKE"));
}

#[test]
fn test_translate_code_select_file() {
    let q = parse_query("select:file foo").unwrap();
    let t = translate(&q).unwrap();
    assert!(t.sql.contains("SELECT DISTINCT fr.path"));
    assert!(!t.sql.contains("cs.score"));
}

#[test]
fn test_translate_code_custom_rev() {
    let q = parse_query("rev:develop foo").unwrap();
    let t = translate(&q).unwrap();
    assert!(t.params.iter().any(|p| p == "refs/heads/develop"));
}

#[test]
fn test_translate_code_empty_pattern_error() {
    let q = parse_query("lang:rust").unwrap();
    let err = translate(&q).unwrap_err();
    assert!(err.message().contains("requires a search pattern"), "got: {err:?}");
}

#[test]
fn test_translate_code_substring_match() {
    let q = parse_query("file:csv foo").unwrap();
    let t = translate(&q).unwrap();
    assert!(t.sql.contains("LIKE"));
    assert!(t.params.iter().any(|p| p == "%csv%"));
}

#[test]
fn test_translate_code_glob_match() {
    let q = parse_query("file:*.rs foo").unwrap();
    let t = translate(&q).unwrap();
    assert!(t.sql.contains("GLOB"));
    assert!(t.params.iter().any(|p| p == "*.rs"));
}

// --- Diff search tests ---

#[test]
fn test_translate_diff_basic() {
    let q = parse_query("type:diff streaming").unwrap();
    let t = translate(&q).unwrap();
    assert_eq!(t.search_type, SearchType::Diff);
    assert!(t.sql.contains("diff_search(?1)"));
    assert_eq!(t.params[0], "streaming");
}

#[test]
fn test_translate_diff_with_author() {
    let q = parse_query("type:diff author:ylow streaming").unwrap();
    let t = translate(&q).unwrap();
    assert!(t.sql.contains("c.author"));
    assert!(t.params.iter().any(|p| p.contains("ylow")));
}

#[test]
fn test_translate_diff_with_dates() {
    let q = parse_query("type:diff before:2026-01-01 after:2025-06-01 streaming").unwrap();
    let t = translate(&q).unwrap();
    assert!(t.sql.contains("c.timestamp <"));
    assert!(t.sql.contains("c.timestamp >"));
    assert!(t.sql.contains("strftime"));
}

#[test]
fn test_translate_diff_empty_pattern_error() {
    let q = parse_query("type:diff").unwrap();
    let err = translate(&q).unwrap_err();
    assert!(err.message().contains("requires a search pattern"), "got: {err:?}");
}

// --- Commit search tests ---

#[test]
fn test_translate_commit_basic() {
    let q = parse_query("type:commit refactor").unwrap();
    let t = translate(&q).unwrap();
    assert_eq!(t.search_type, SearchType::Commit);
    assert!(t.sql.contains("commits c"));
    assert!(t.sql.contains("c.message LIKE"));
}

#[test]
fn test_translate_commit_author_only() {
    let q = parse_query("type:commit author:ylow").unwrap();
    let t = translate(&q).unwrap();
    assert!(t.sql.contains("c.author"));
}

#[test]
fn test_translate_commit_no_filters_error() {
    let q = parse_query("type:commit").unwrap();
    let err = translate(&q).unwrap_err();
    assert!(err.message().contains("requires a search pattern"), "got: {err:?}");
}

// --- Symbol search tests ---

#[test]
fn test_translate_symbol_basic() {
    let q = parse_query("type:symbol process_data").unwrap();
    let t = translate(&q).unwrap();
    assert_eq!(t.search_type, SearchType::Symbol);
    assert!(t.sql.contains("symbols s"));
    assert!(t.sql.contains("s.name LIKE"));
}

#[test]
fn test_translate_symbol_with_lang() {
    let q = parse_query("type:symbol lang:rust SFrame").unwrap();
    let t = translate(&q).unwrap();
    assert!(t.sql.contains("b.language ="));
}

#[test]
fn test_translate_symbol_kind_filter() {
    let q = parse_query("type:symbol select:symbol.function lang:rust foo").unwrap();
    let t = translate(&q).unwrap();
    assert!(t.sql.contains("s.kind ="));
    assert!(t.params.iter().any(|p| p == "function"));
}

#[test]
fn test_translate_symbol_no_filters_error() {
    let q = parse_query("type:symbol").unwrap();
    let err = translate(&q).unwrap_err();
    assert!(err.message().contains("requires a search pattern"), "got: {err:?}");
}

// --- calls: / calledby: tests ---

#[test]
fn test_parse_calls_filter() {
    let q = parse_query("calls:groupby").unwrap();
    assert_eq!(q.filters.calls.as_deref(), Some("groupby"));
    assert!(q.search_pattern.is_empty());
}

#[test]
fn test_parse_calledby_filter() {
    let q = parse_query("calledby:groupby").unwrap();
    assert_eq!(q.filters.calledby.as_deref(), Some("groupby"));
}

#[test]
fn test_translate_calls_basic() {
    let q = parse_query("calls:groupby").unwrap();
    let t = translate(&q).unwrap();
    assert_eq!(t.search_type, SearchType::Symbol);
    assert!(t.sql.contains("symbol_refs sr"));
    assert!(t.sql.contains("sr.ref_name LIKE"));
    assert!(t.sql.contains("sr.kind = 'call'"));
    assert!(t.sql.contains("s.kind = 'function'"));
    assert!(t.params.iter().any(|p| p == "%groupby%"));
}

#[test]
fn test_translate_calls_with_lang() {
    let q = parse_query("calls:par_iter lang:rust").unwrap();
    let t = translate(&q).unwrap();
    assert!(t.sql.contains("b.language ="));
    assert!(t.params.iter().any(|p| p == "rust"));
}

#[test]
fn test_translate_calls_with_file() {
    let q = parse_query("calls:groupby file:*.rs").unwrap();
    let t = translate(&q).unwrap();
    assert!(t.sql.contains("fr.path GLOB"));
    assert!(t.params.iter().any(|p| p == "*.rs"));
}

#[test]
fn test_translate_calledby_basic() {
    let q = parse_query("calledby:groupby").unwrap();
    let t = translate(&q).unwrap();
    assert_eq!(t.search_type, SearchType::Symbol);
    assert!(t.sql.contains("FROM symbols s"));
    assert!(t.sql.contains("symbol_refs sr ON sr.symbol_id = s.id"));
    assert!(t.sql.contains("s.name LIKE"));
    assert!(t.sql.contains("s.kind = 'function'"));
    assert!(t.params.iter().any(|p| p == "%groupby%"));
}

#[test]
fn test_translate_calledby_with_count() {
    let q = parse_query("calledby:groupby count:10").unwrap();
    let t = translate(&q).unwrap();
    assert!(t.sql.contains("LIMIT 10"));
}

#[test]
fn test_translate_calls_overrides_type() {
    // calls: should work even if type:commit is specified
    let q = parse_query("type:commit calls:foo").unwrap();
    let t = translate(&q).unwrap();
    assert_eq!(t.search_type, SearchType::Symbol);
    assert!(t.sql.contains("symbol_refs sr"));
}

// --- returns: tests ---

#[test]
fn test_parse_returns_filter() {
    let q = parse_query("returns:BatchIterator").unwrap();
    assert_eq!(q.filters.returns.as_deref(), Some("BatchIterator"));
}

#[test]
fn test_translate_returns_basic() {
    let q = parse_query("returns:BatchIterator").unwrap();
    let t = translate(&q).unwrap();
    assert_eq!(t.search_type, SearchType::Symbol);
    assert!(t.sql.contains("s.return_type LIKE"));
    assert!(t.sql.contains("s.kind IN ('function', 'method')"));
    assert!(t.params.iter().any(|p| p == "%BatchIterator%"));
}

#[test]
fn test_translate_returns_with_lang() {
    let q = parse_query("returns:String lang:rust").unwrap();
    let t = translate(&q).unwrap();
    assert!(t.sql.contains("s.return_type LIKE"));
    assert!(t.sql.contains("b.language ="));
}

#[test]
fn test_translate_returns_overrides_type() {
    let q = parse_query("type:commit returns:i32").unwrap();
    let t = translate(&q).unwrap();
    assert_eq!(t.search_type, SearchType::Symbol);
    assert!(t.sql.contains("s.return_type"));
}

#[test]
fn type_code_is_the_code_search_type() {
    let q = parse_query("type:code foo").unwrap();
    assert_eq!(q.search_type, SearchType::Code);
    assert_eq!(q.search_pattern, "foo");
}

#[test]
fn repo_at_revision_splits_into_repo_and_rev() {
    let q = parse_query("repo:foo@develop x").unwrap();
    assert_eq!(q.filters.repo.as_deref(), Some("foo"));
    assert_eq!(q.filters.rev.as_deref(), Some("develop"));
    assert_eq!(q.search_pattern, "x");
}

#[test]
fn repo_with_empty_revision_has_no_rev() {
    let q = parse_query("repo:foo@ x").unwrap();
    assert_eq!(q.filters.repo.as_deref(), Some("foo"));
    assert_eq!(q.filters.rev, None);
}

#[test]
fn repo_without_revision_keeps_the_whole_name() {
    let q = parse_query("repo:github.com/a/b x").unwrap();
    assert_eq!(q.filters.repo.as_deref(), Some("github.com/a/b"));
    assert_eq!(q.filters.rev, None);
}
