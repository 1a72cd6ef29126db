use codedb::types::{tantivy_type_to_sql, ColumnDef, ColumnSource, FieldKind};
use codedb::vtab_helpers::{
    decode_idx_num, encode_idx_num, generate_ddl, FilterArgs, IDX_LIMIT_COL, IDX_MODE, IDX_QUERY,
};

#[test]
fn test_generate_ddl() {
    let columns = vec![
        ColumnDef {
            name: "doc_id".to_string(),
            source: ColumnSource::Score,
            sql_type: "INTEGER",
        },
        ColumnDef {
            name: "body".to_string(),
            source: ColumnSource::Score,
            sql_type: "TEXT",
        },
        ColumnDef {
            name: "score".to_string(),
            source: ColumnSource::Score,
            sql_type: "REAL",
        },
    ];
    let ddl = generate_ddl("my_search", &columns);
    assert_eq!(
        ddl,
        "CREATE TABLE my_search(doc_id INTEGER, body TEXT, score REAL, \
         query TEXT HIDDEN, mode TEXT HIDDEN, query_limit INTEGER HIDDEN)"
    );
}

#[test]
fn generate_ddl_without_columns() {
    assert_eq!(
        generate_ddl("t", &[]),
        "CREATE TABLE t(query TEXT HIDDEN, mode TEXT HIDDEN, query_limit INTEGER HIDDEN)"
    );
}

#[test]
fn test_idx_num_round_trip() {
    let idx = IDX_QUERY | IDX_MODE;
    let args = decode_idx_num(idx);
    assert!(args.has_query);
    assert!(args.has_mode);
    assert!(!args.has_limit_col);
}

#[test]
fn test_idx_num_all_set() {
    let idx = IDX_QUERY | IDX_MODE | IDX_LIMIT_COL;
    let args = decode_idx_num(idx);
    assert!(args.has_query);
    assert!(args.has_mode);
    assert!(args.has_limit_col);
}

#[test]
fn test_idx_num_none_set() {
    let args = decode_idx_num(0);
    assert!(!args.has_query);
    assert!(!args.has_mode);
    assert!(!args.has_limit_col);
}

#[test]
fn idx_num_encode_decode_round_trip_all_combinations() {
    for q in [false, true] {
        for m in [false, true] {
            for l in [false, true] {
                let args = FilterArgs { has_query: q, has_mode: m, has_limit_col: l };
                let n = encode_idx_num(args);
                assert_eq!(decode_idx_num(n), args);
            }
        }
    }
    assert_eq!(encode_idx_num(FilterArgs { has_query: true, has_mode: false, has_limit_col: true }), 5);
}

#[test]
fn test_tantivy_type_to_sql_mapping() {
    assert_eq!(tantivy_type_to_sql(FieldKind::Str), Some("TEXT"));
    assert_eq!(tantivy_type_to_sql(FieldKind::U64), Some("INTEGER"));
    assert_eq!(tantivy_type_to_sql(FieldKind::I64), Some("INTEGER"));
    assert_eq!(tantivy_type_to_sql(FieldKind::F64), Some("REAL"));
    assert_eq!(tantivy_type_to_sql(FieldKind::Bool), Some("INTEGER"));
    assert_eq!(tantivy_type_to_sql(FieldKind::Bytes), Some("BLOB"));
}

#[test]
fn unsupported_field_kinds_have_no_sql_type() {
    assert_eq!(tantivy_type_to_sql(FieldKind::Date), None);
    assert_eq!(tantivy_type_to_sql(FieldKind::Facet), None);
    assert_eq!(tantivy_type_to_sql(FieldKind::Json), None);
    assert_eq!(tantivy_type_to_sql(FieldKind::IpAddr), None);
}
