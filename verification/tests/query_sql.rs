use codedb::query::{parse_query, tokenize, QueryError, SearchType, SelectType};
use codedb::translate::{pattern_match_clause, translate, ParamCollector};

fn sql_of(q: &str) -> (String, Vec<String>) {
    let t = translate(&parse_query(q).unwrap()).unwrap();
    (t.sql, t.params)
}

#[test]
fn code_search_exact_sql() {
    let (sql, params) = sql_of("process_data");
    assert_eq!(
        sql,
        "SELECT fr.path, cs.score, cs.snippet\nFROM code_search(?1) cs\n\
         JOIN blobs b ON b.id = cs.blob_id\nJOIN file_revs fr ON fr.blob_id = b.id\n\
         JOIN refs r ON r.commit_id = fr.commit_id\nWHERE 1=1\n  AND r.name = ?2\n\
         GROUP BY fr.path\nORDER BY cs.score DESC\nLIMIT 20"
    );
    assert_eq!(params, vec!["process_data", "refs/heads/main"]);
}

#[test]
fn code_search_select_file_has_no_group_line() {
    let (sql, _) = sql_of("select:file foo");
    assert_eq!(
        sql,
        "SELECT DISTINCT fr.path\nFROM code_search(?1) cs\n\
         JOIN blobs b ON b.id = cs.blob_id\nJOIN file_revs fr ON fr.blob_id = b.id\n\
         JOIN refs r ON r.commit_id = fr.commit_id\nWHERE 1=1\n  AND r.name = ?2\n\
         ORDER BY fr.path\nLIMIT 20"
    );
}

#[test]
fn code_search_select_repo_joins_repos_once() {
    let (sql, _) = sql_of("select:repo foo");
    assert!(sql.starts_with("SELECT DISTINCT rp.name\n"));
    assert_eq!(sql.matches("JOIN repos rp").count(), 1);
    let (sql, params) = sql_of("select:repo repo:abc foo");
    assert_eq!(sql.matches("JOIN repos rp").count(), 1);
    assert_eq!(params, vec!["foo", "%abc%", "refs/heads/main"]);
}

#[test]
fn commit_search_exact_sql() {
    let (sql, params) = sql_of("type:commit author:ylow");
    assert_eq!(
        sql,
        "SELECT substr(c.hash, 1, 10) AS hash, c.author,\n       substr(c.message, 1, 80) AS message\n\
         FROM commits c\nWHERE 1=1\n  AND c.author LIKE ?1\nORDER BY c.timestamp DESC\nLIMIT 20"
    );
    assert_eq!(params, vec!["%ylow%"]);
}

#[test]
fn callers_exact_sql() {
    let (sql, params) = sql_of("calls:groupby");
    assert_eq!(
        sql,
        "SELECT DISTINCT fr.path, s.name, s.kind, s.line\nFROM symbol_refs sr\n\
         JOIN symbols s ON s.id = sr.symbol_id\nJOIN blobs b ON b.id = sr.blob_id\n\
         JOIN file_revs fr ON fr.blob_id = b.id\nJOIN refs r ON r.commit_id = fr.commit_id\n\
         WHERE 1=1\n  AND sr.ref_name LIKE ?1\n  AND sr.kind = 'call'\n  AND s.kind = 'function'\n  \
         AND r.name = ?2\nORDER BY fr.path, s.line\nLIMIT 20"
    );
    assert_eq!(params, vec!["%groupby%", "refs/heads/main"]);
}

#[test]
fn callees_exact_sql() {
    let (sql, params) = sql_of("calledby:run lang:go");
    assert_eq!(
        sql,
        "SELECT DISTINCT fr.path, sr.ref_name AS name, sr.kind, sr.line\nFROM symbols s\n\
         JOIN symbol_refs sr ON sr.symbol_id = s.id AND sr.blob_id = s.blob_id\n\
         JOIN blobs b ON b.id = sr.blob_id\nJOIN file_revs fr ON fr.blob_id = b.id\n\
         JOIN refs r ON r.commit_id = fr.commit_id\nWHERE 1=1\n  AND s.name LIKE ?1\n  \
         AND s.kind = 'function'\n  AND b.language = ?2\n  AND r.name = ?3\nORDER BY sr.line\nLIMIT 20"
    );
    assert_eq!(params, vec!["%run%", "go", "refs/heads/main"]);
}

#[test]
fn diff_search_exact_sql_with_repo_glob_and_date() {
    let (sql, params) = sql_of("type:diff repo:x* before:2026-01-01 streaming count:5");
    assert_eq!(
        sql,
        "SELECT substr(c.hash, 1, 10) AS hash,\n       substr(c.message, 1, 80) AS message,\n       \
         d.path, round(ds.score, 2) AS score\nFROM diff_search(?1) ds\n\
         JOIN diffs d ON d.id = ds.diff_id\nJOIN commits c ON c.id = d.commit_id\n\
         JOIN repos rp ON rp.id = c.repo_id\nWHERE 1=1\n  AND rp.name GLOB ?2\n  \
         AND c.timestamp < CAST(strftime('%s', ?3) AS INTEGER)\nORDER BY ds.score DESC\nLIMIT 5"
    );
    assert_eq!(params, vec!["streaming", "x*", "2026-01-01"]);
}

#[test]
fn symbol_search_exact_sql_with_returns_and_kind() {
    let (sql, params) =
        sql_of("type:symbol select:symbol.struct returns:Foo -file:test* rev:refs/tags/v1");
    assert_eq!(
        sql,
        "SELECT fr.path, s.name, s.kind, s.line\nFROM symbols s\n\
         JOIN blobs b ON b.id = s.blob_id\nJOIN file_revs fr ON fr.blob_id = b.id\n\
         JOIN refs r ON r.commit_id = fr.commit_id\nWHERE 1=1\n  AND NOT (fr.path GLOB ?1)\n  \
         AND s.kind = ?2\n  AND s.return_type LIKE ?3\n  AND s.kind IN ('function', 'method')\n  \
         AND r.name = ?4\nORDER BY fr.path, s.line\nLIMIT 20"
    );
    assert_eq!(params, vec!["test*", "struct", "%Foo%", "refs/tags/v1"]);
}

#[test]
fn placeholders_count_up_from_one() {
    let mut p = ParamCollector::new();
    assert_eq!(p.add("a".to_string()), "?1");
    assert_eq!(p.add("b".to_string()), "?2");
    let clause = pattern_match_clause("col", &"x?y".to_string(), &mut p);
    assert_eq!(clause, "col GLOB ?3");
    let clause = pattern_match_clause("col", &"plain".to_string(), &mut p);
    assert_eq!(clause, "col LIKE ?4");
    assert_eq!(p.params, vec!["a", "b", "x?y", "%plain%"]);
    for _ in 0..6 {
        p.add(String::new());
    }
    assert_eq!(p.add("k".to_string()), "?11");
}

#[test]
fn translation_errors_per_search_type() {
    let msg = |q: &str| translate(&parse_query(q).unwrap()).unwrap_err().message();
    assert_eq!(msg("lang:rust"), "Code search requires a search pattern");
    assert_eq!(msg("type:diff file:x"), "Diff search requires a search pattern");
    assert_eq!(
        msg("type:commit lang:rust"),
        "Commit search requires a search pattern or at least one filter (author:, before:, after:, message:)"
    );
    assert_eq!(
        msg("type:symbol repo:x"),
        "Symbol search requires a search pattern or filter (lang:, file:, select:symbol.<kind>, returns:)"
    );
    assert!(matches!(
        translate(&parse_query("type:symbol").unwrap()),
        Err(QueryError::MissingPattern(SearchType::Symbol))
    ));
}

#[test]
fn filter_only_searches_succeed() {
    assert!(translate(&parse_query("type:commit message:fix").unwrap()).is_ok());
    assert!(translate(&parse_query("type:commit repo:x").unwrap()).is_ok());
    assert!(translate(&parse_query("type:commit after:2020-01-01").unwrap()).is_ok());
    assert!(translate(&parse_query("type:symbol select:symbol.function").unwrap()).is_ok());
    assert!(translate(&parse_query("type:symbol file:x").unwrap()).is_ok());
}

#[test]
fn parse_errors_and_messages() {
    let e = parse_query("type:bogus foo").unwrap_err();
    assert_eq!(e.message(), "Unknown search type 'bogus'. Valid types: symbol, diff, commit");
    let e = parse_query("count:-1").unwrap_err();
    assert_eq!(e.message(), "count: must be a positive integer, got '-1'");
    assert!(parse_query("count:4294967296").is_err());
    assert!(parse_query("count:").is_err());
    assert!(parse_query("count:+").is_err());
    let e = parse_query("select:bogus").unwrap_err();
    assert_eq!(e.message(), "Unknown select type 'bogus'. Valid: repo, file, symbol, symbol.<kind>");
    let e = parse_query("-x:y").unwrap_err();
    assert_eq!(e.message(), "Negation not supported for 'x:'");
}

#[test]
fn parse_count_bounds_and_sign() {
    assert_eq!(parse_query("count:4294967295").unwrap().filters.count, Some(u32::MAX));
    assert_eq!(parse_query("count:+7").unwrap().filters.count, Some(7));
    assert_eq!(parse_query("count:007").unwrap().filters.count, Some(7));
    assert_eq!(parse_query("count:0").unwrap().filters.count, Some(0));
}

#[test]
fn parse_misc_filters() {
    let q = parse_query("case:yes select:symbol. -foo \"\" x").unwrap();
    assert!(q.filters.case_sensitive);
    assert_eq!(q.filters.select, Some(SelectType::SymbolKind(String::new())));
    // A dash without a colon is a search term; an empty quoted token is an empty term.
    assert_eq!(q.search_pattern, "-foo  x");
    let q = parse_query("case:no revision:dev language:go").unwrap();
    assert!(!q.filters.case_sensitive);
    assert_eq!(q.filters.rev.as_deref(), Some("dev"));
    assert_eq!(q.filters.lang.as_deref(), Some("go"));
    // Later filters replace earlier ones.
    let q = parse_query("lang:a lang:b").unwrap();
    assert_eq!(q.filters.lang.as_deref(), Some("b"));
    // A quoted filter-like token keeps its quotes when its key is unknown.
    let q = parse_query("\"lang:rust\"").unwrap();
    assert_eq!(q.search_pattern, "\"lang:rust\"");
}

#[test]
fn tokenize_tabs_and_adjacent_quotes() {
    assert_eq!(tokenize("a\tb"), vec!["a", "b"]);
    assert_eq!(tokenize("ab\"c d\"e"), vec!["ab", "\"c d\"", "e"]);
    assert_eq!(tokenize("\"\""), vec!["\"\""]);
}

#[test]
fn same_shape_queries_share_sql() {
    let (a, pa) = sql_of("repo:alpha lang:rust file:x foo");
    let (b, pb) = sql_of("repo:beta lang:go file:yy bar");
    assert_eq!(a, b);
    assert_eq!(pa.len(), pb.len());
    assert_ne!(pa, pb);
}
