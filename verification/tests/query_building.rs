use codedb::query_builder::{build_query, QueryBuildError};
use tantivy::collector::TopDocs;
use tantivy::schema::{Field, Schema, STORED, TEXT};
use tantivy::{Index, TantivyDocument};

fn make_test_index() -> (Index, Field) {
    let mut builder = Schema::builder();
    let body = builder.add_text_field("body", TEXT | STORED);
    let schema = builder.build();
    let index = Index::create_in_ram(schema);

    let mut writer = index.writer_with_num_threads(1, 15_000_000).unwrap();
    let mut first = TantivyDocument::new();
    first.add_text(body, "the quick brown fox jumps over the lazy dog");
    writer.add_document(first).unwrap();
    let mut second = TantivyDocument::new();
    second.add_text(body, "hello world");
    writer.add_document(second).unwrap();
    writer.commit().unwrap();

    (index, body)
}

fn hits(index: &Index, query: &dyn tantivy::query::Query) -> usize {
    let reader = index.reader().unwrap();
    let searcher = reader.searcher();
    searcher
        .search(query, &TopDocs::with_limit(10).order_by_score())
        .unwrap()
        .len()
}

#[test]
fn test_default_mode() {
    let (index, body) = make_test_index();
    assert!(build_query(&index, &vec![body], "fox", "default").is_ok());
}

#[test]
fn test_regex_mode() {
    let (index, body) = make_test_index();
    assert!(build_query(&index, &vec![body], "fo.*", "regex").is_ok());
}

#[test]
fn test_term_mode() {
    let (index, body) = make_test_index();
    assert!(build_query(&index, &vec![body], "fox", "term").is_ok());
}

#[test]
fn test_phrase_mode() {
    let (index, body) = make_test_index();
    assert!(build_query(&index, &vec![body], "quick brown", "phrase").is_ok());
}

#[test]
fn test_unknown_mode() {
    let (index, body) = make_test_index();
    assert!(matches!(
        build_query(&index, &vec![body], "fox", "magical"),
        Err(QueryBuildError::UnknownMode(_))
    ));
}

#[test]
fn test_empty_query() {
    let (index, body) = make_test_index();
    assert!(matches!(
        build_query(&index, &vec![body], "", "default"),
        Err(QueryBuildError::EmptyQuery)
    ));
}

#[test]
fn test_invalid_regex() {
    let (index, body) = make_test_index();
    assert!(matches!(
        build_query(&index, &vec![body], "[invalid", "regex"),
        Err(QueryBuildError::ParseError(_))
    ));
}

#[test]
fn test_default_finds_documents() {
    let (index, body) = make_test_index();
    let query = build_query(&index, &vec![body], "fox", "default").unwrap();
    assert_eq!(hits(&index, &*query.inner), 1);
}

#[test]
fn test_regex_finds_documents() {
    let (index, body) = make_test_index();
    let query = build_query(&index, &vec![body], "hel.*", "regex").unwrap();
    assert_eq!(hits(&index, &*query.inner), 1);
}

#[test]
fn test_phrase_finds_exact_phrase() {
    let (index, body) = make_test_index();
    let query = build_query(&index, &vec![body], "quick brown", "phrase").unwrap();
    assert_eq!(hits(&index, &*query.inner), 1);
}

#[test]
fn test_phrase_no_match_wrong_order() {
    let (index, body) = make_test_index();
    let query = build_query(&index, &vec![body], "brown quick", "phrase").unwrap();
    assert_eq!(hits(&index, &*query.inner), 0);
}

#[test]
fn term_query_matches_the_exact_term_only() {
    let (index, body) = make_test_index();
    let exact = build_query(&index, &vec![body], "fox", "term").unwrap();
    assert_eq!(hits(&index, &*exact.inner), 1);
    let partial = build_query(&index, &vec![body], "fo", "term").unwrap();
    assert_eq!(hits(&index, &*partial.inner), 0);
}

#[test]
fn whitespace_only_phrase_is_an_empty_query() {
    let (index, body) = make_test_index();
    assert!(matches!(
        build_query(&index, &vec![body], "   ", "phrase"),
        Err(QueryBuildError::EmptyQuery)
    ));
}

#[test]
fn default_query_syntax_error_is_a_parse_error() {
    let (index, body) = make_test_index();
    assert!(matches!(
        build_query(&index, &vec![body], "nosuchfield:fox", "default"),
        Err(QueryBuildError::ParseError(_))
    ));
}

#[test]
fn several_fields_any_may_match() {
    let mut builder = Schema::builder();
    let title = builder.add_text_field("title", TEXT | STORED);
    let body = builder.add_text_field("body", TEXT | STORED);
    let index = Index::create_in_ram(builder.build());
    let mut writer = index.writer_with_num_threads(1, 15_000_000).unwrap();
    let mut first = TantivyDocument::new();
    first.add_text(title, "alpha");
    first.add_text(body, "nothing here");
    writer.add_document(first).unwrap();
    let mut second = TantivyDocument::new();
    second.add_text(title, "beta");
    second.add_text(body, "alpha again");
    writer.add_document(second).unwrap();
    writer.commit().unwrap();
    let fields = vec![title, body];
    let term = build_query(&index, &fields, "alpha", "term").unwrap();
    assert_eq!(hits(&index, &*term.inner), 2);
    let regex = build_query(&index, &fields, "be.*", "regex").unwrap();
    assert_eq!(hits(&index, &*regex.inner), 1);
    let phrase = build_query(&index, &fields, "alpha again", "phrase").unwrap();
    assert_eq!(hits(&index, &*phrase.inner), 1);
    assert!(matches!(
        build_query(&index, &fields, "[bad", "regex"),
        Err(QueryBuildError::ParseError(_))
    ));
}
