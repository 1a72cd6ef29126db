use codedb::builder::{BuildError, TantivyVTab, TantivyVTabBuilder};
use codedb::catalog::{build_code_schema, build_diff_schema, search_table_builder};
use codedb::query_builder::{plan_query, split_words, QueryBuildError, QueryKind, QueryPlan};
use codedb::types::ColumnSource;
use codedb::vtab::{
    clamp_limit, column_output, effective_limit, effective_mode, plan_best_index, plan_filter,
    ColumnOutput, ConstraintInfo, FilterPlan, VTabState,
};
use codedb::vtab_helpers::generate_ddl;
use tantivy::schema::{Field, FieldType, Schema, STORED, TEXT};
use tantivy::Index;

fn make_test_index() -> (Index, Field, Field, Field) {
    let mut builder = Schema::builder();
    let id_field = builder.add_u64_field("id", STORED);
    let body_field = builder.add_text_field("body", TEXT | STORED);
    let tag_field = builder.add_text_field("tag", TEXT); // not stored
    let schema = builder.build();
    let index = Index::create_in_ram(schema);
    (index, id_field, body_field, tag_field)
}

#[test]
fn test_missing_index() {
    let result = TantivyVTabBuilder::new().validate();
    assert!(matches!(result, Err(BuildError::MissingIndex)));
}

#[test]
fn test_missing_reader() {
    let (index, _id, body, _tag) = make_test_index();
    let result = TantivyVTabBuilder::new()
        .index(index)
        .search_fields(vec![body])
        .validate();
    assert!(matches!(result, Err(BuildError::MissingReader)));
}

#[test]
fn test_no_search_fields() {
    let (index, id, _body, _tag) = make_test_index();
    let reader = index.reader().unwrap();
    let result = TantivyVTabBuilder::new()
        .index(index)
        .reader(reader)
        .search_fields(vec![])
        .column("id", id)
        .validate();
    assert!(matches!(result, Err(BuildError::NoSearchFields)));
}

#[test]
fn test_no_columns() {
    let (index, _id, body, _tag) = make_test_index();
    let reader = index.reader().unwrap();
    let result = TantivyVTabBuilder::new()
        .index(index)
        .reader(reader)
        .search_fields(vec![body])
        .validate();
    assert!(matches!(result, Err(BuildError::NoColumns)));
}

#[test]
fn test_field_not_stored() {
    let (index, _id, body, tag) = make_test_index();
    let reader = index.reader().unwrap();
    let result = TantivyVTabBuilder::new()
        .index(index)
        .reader(reader)
        .search_fields(vec![body])
        .column("tag", tag)
        .validate();
    assert!(matches!(result, Err(BuildError::FieldNotStored(_))));
}

#[test]
fn test_snippet_field_not_text() {
    let (index, id, body, _tag) = make_test_index();
    let reader = index.reader().unwrap();
    let result = TantivyVTabBuilder::new()
        .index(index)
        .reader(reader)
        .search_fields(vec![body])
        .column("id", id)
        .snippet_column("snippet", id)
        .validate();
    assert!(matches!(result, Err(BuildError::SnippetFieldNotText(_))));
}

#[test]
fn test_duplicate_column_name() {
    let (index, id, body, _tag) = make_test_index();
    let reader = index.reader().unwrap();
    let result = TantivyVTabBuilder::new()
        .index(index)
        .reader(reader)
        .search_fields(vec![body])
        .column("col", id)
        .column("col", body)
        .validate();
    assert!(matches!(result, Err(BuildError::DuplicateColumnName(_))));
}

#[test]
fn test_valid_builder() {
    let (index, id, body, _tag) = make_test_index();
    let reader = index.reader().unwrap();
    let result = TantivyVTabBuilder::new()
        .index(index)
        .reader(reader)
        .search_fields(vec![body])
        .column("id", id)
        .column("body", body)
        .score_column("score")
        .snippet_column("snippet", body)
        .default_limit(500)
        .validate();
    assert!(result.is_ok());
    let vtab = result.unwrap();
    assert_eq!(vtab.columns.len(), 4);
    assert_eq!(vtab.default_limit, 500);
    assert_eq!(vtab.columns[0].sql_type, "INTEGER");
    assert_eq!(vtab.columns[1].sql_type, "TEXT");
    assert_eq!(vtab.columns[2].sql_type, "REAL");
    assert_eq!(vtab.columns[3].sql_type, "TEXT");
}

#[test]
fn build_error_messages_and_names() {
    let (index, id, body, tag) = make_test_index();
    let reader = index.reader().unwrap();
    let err = TantivyVTab::builder()
        .index(index.clone())
        .reader(reader)
        .search_fields(vec![body])
        .column("a", id)
        .column("b", tag)
        .validate()
        .err()
        .unwrap();
    assert_eq!(err.message(), "field 'tag' is not stored");
    let err = TantivyVTab::builder()
        .index(index.clone())
        .reader(index.reader().unwrap())
        .search_fields(vec![body])
        .column("x", id)
        .column("y", id)
        .column("x", body)
        .column("y", body)
        .validate()
        .err()
        .unwrap();
    // the first column that repeats an earlier name
    assert_eq!(err.message(), "duplicate column name 'x'");
    assert_eq!(BuildError::MissingIndex.message(), "index is required");
    assert_eq!(BuildError::NoColumns.message(), "at least one column is required");
    assert_eq!(BuildError::SnippetFieldNotText("id".to_string()).message(), "snippet field 'id' is not TEXT");
    assert_eq!(BuildError::UnsupportedFieldType("d".to_string()).message(), "field 'd' has unsupported type");
    // the index check comes first, the reader check second
    let err = TantivyVTabBuilder::default().reader(index.reader().unwrap()).validate().err().unwrap();
    assert!(matches!(err, BuildError::MissingIndex));
}

#[test]
fn plan_query_modes() {
    assert_eq!(plan_query(1, "", "default"), Err(QueryBuildError::EmptyQuery));
    assert_eq!(plan_query(1, "fox", "default"), Ok(QueryPlan { kind: QueryKind::Parsed, single_field: true }));
    assert_eq!(plan_query(2, "fo.*", "regex"), Ok(QueryPlan { kind: QueryKind::Regex, single_field: false }));
    assert_eq!(plan_query(1, "fox", "term"), Ok(QueryPlan { kind: QueryKind::Term, single_field: true }));
    assert_eq!(
        plan_query(1, " quick\tbrown  ", "phrase"),
        Ok(QueryPlan { kind: QueryKind::Phrase(vec!["quick".to_string(), "brown".to_string()]), single_field: true })
    );
    assert_eq!(plan_query(1, "   ", "phrase"), Err(QueryBuildError::EmptyQuery));
    assert_eq!(plan_query(1, "fox", "magical"), Err(QueryBuildError::UnknownMode("magical".to_string())));
    assert_eq!(QueryBuildError::UnknownMode("magical".to_string()).message(), "unknown query mode: 'magical'");
    assert_eq!(QueryBuildError::EmptyQuery.message(), "query string is empty");
    assert_eq!(QueryBuildError::ParseError("bad".to_string()).message(), "query parse error: bad");
    assert_eq!(split_words("a\u{3000}b\n\nc "), vec!["a", "b", "c"]);
}

fn state(n_columns: usize) -> VTabState {
    let (index, id, body, _tag) = make_test_index();
    let reader = index.reader().unwrap();
    let mut columns = Vec::new();
    for i in 0..n_columns {
        columns.push(codedb::types::ColumnDef {
            name: format!("c{i}"),
            source: if i == 0 { ColumnSource::Score } else if i == 1 { ColumnSource::Snippet(body) } else { ColumnSource::StoredField(id) },
            sql_type: "TEXT",
        });
    }
    VTabState { index, reader, search_fields: vec![body], ddl: generate_ddl("t", &columns), columns, default_limit: 1000 }
}

#[test]
fn best_index_and_filter_agree() {
    let st = state(3);
    assert_eq!((st.query_col(), st.mode_col(), st.limit_col()), (3, 4, 5));
    let eq = |column: i32| ConstraintInfo { usable: true, column, is_eq: true };
    let cs = vec![eq(0), eq(3), ConstraintInfo { usable: false, column: 4, is_eq: true }, eq(5)];
    let plan = plan_best_index(&st, &cs);
    assert_eq!(plan.idx_num, 0x01 | 0x04);
    assert_eq!(plan.argv_index, vec![None, Some(1), None, Some(2)]);
    let f = plan_filter(plan.idx_num);
    assert_eq!(f, FilterPlan { has_query: true, mode_arg: None, limit_arg: Some(1) });
    let plan = plan_best_index(&st, &vec![eq(3), eq(4), eq(5)]);
    assert_eq!(plan.idx_num, 7);
    assert_eq!(plan_filter(plan.idx_num), FilterPlan { has_query: true, mode_arg: Some(1), limit_arg: Some(2) });
    // without a query the filter reads nothing
    assert_eq!(plan_filter(0x02), FilterPlan { has_query: false, mode_arg: None, limit_arg: None });
    let not_eq = ConstraintInfo { usable: true, column: 3, is_eq: false };
    assert_eq!(plan_best_index(&st, &vec![not_eq]).idx_num, 0);
}

#[test]
fn limits_modes_and_columns() {
    assert_eq!(clamp_limit(-5), 0);
    assert_eq!(clamp_limit(7), 7);
    assert_eq!(effective_limit(None, 1000), 1000);
    assert_eq!(effective_limit(Some(-1), 1000), 0);
    assert_eq!(effective_mode(None), "default");
    assert_eq!(effective_mode(Some("regex".to_string())), "regex");
    let st = state(3);
    assert_eq!(column_output(&st.columns, 0), ColumnOutput::Score);
    assert_eq!(column_output(&st.columns, 1), ColumnOutput::Snippet);
    assert_eq!(column_output(&st.columns, 2), ColumnOutput::Stored(2));
    assert_eq!(column_output(&st.columns, 3), ColumnOutput::Null);
    assert_eq!(column_output(&st.columns, -1), ColumnOutput::Null);
}

#[test]
fn code_and_diff_search_tables() {
    let (schema, blob_id, content) = build_code_schema();
    assert_eq!(schema.get_field_name(blob_id), "blob_id");
    assert_eq!(schema.get_field_name(content), "content");
    let index = Index::create_in_ram(schema);
    let reader = index.reader().unwrap();
    let v = search_table_builder(index, reader, "blob_id", blob_id, content).validate().unwrap();
    assert_eq!(v.default_limit, 1000);
    assert_eq!(
        generate_ddl("code_search", &v.columns),
        "CREATE TABLE code_search(blob_id INTEGER, score REAL, snippet TEXT, query TEXT HIDDEN, mode TEXT HIDDEN, query_limit INTEGER HIDDEN)"
    );
    let (schema, diff_id, diff_content) = build_diff_schema();
    assert_eq!(schema.get_field_name(diff_content), "diff_content");
    let index = Index::create_in_ram(schema);
    let reader = index.reader().unwrap();
    let v = search_table_builder(index, reader, "diff_id", diff_id, diff_content).validate().unwrap();
    assert_eq!(v.columns[0].name, "diff_id");
    assert_eq!(v.columns[0].sql_type, "INTEGER");
}

#[test]
fn search_schemas_have_an_id_and_a_content_field() {
    let (schema, blob_id, content) = build_code_schema();
    assert_eq!(blob_id.field_id(), 0);
    assert_eq!(content.field_id(), 1);
    assert_eq!(schema.num_fields(), 2);
    let id_entry = schema.get_field_entry(blob_id);
    assert!(matches!(id_entry.field_type(), FieldType::U64(_)));
    assert!(id_entry.is_stored() && id_entry.is_fast());
    let content_entry = schema.get_field_entry(content);
    assert!(matches!(content_entry.field_type(), FieldType::Str(_)));
    assert!(content_entry.is_stored() && !content_entry.is_fast());
    let (schema, diff_id, diff_content) = build_diff_schema();
    assert_eq!(schema.get_field_name(diff_id), "diff_id");
    assert_eq!((diff_id.field_id(), diff_content.field_id()), (0, 1));
}
