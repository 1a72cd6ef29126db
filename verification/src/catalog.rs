//! The two full-text indexes of the code database, and the search tables
//! defined over them.
use vstd::prelude::*;
use crate::builder::{BuilderView, TantivyVTab, TantivyVTabBuilder};
use crate::types::{builder_fields, field_number, schema_fields, valid_field_name, ColumnSource, FieldEntryView, FieldKind};

verus! {

/// A schema under construction.
#[verifier::external_type_specification]
#[verifier::external_body]
pub struct ExSchemaBuilder(tantivy::schema::SchemaBuilder);

/// `Schema::builder`: a builder with no fields yet.
#[verifier::external_body]
fn schema_builder() -> (r: tantivy::schema::SchemaBuilder)
    ensures
        builder_fields(r).len() == 0,
{
    tantivy::schema::Schema::builder()
}

/// `SchemaBuilder::add_u64_field` with the options `STORED | FAST`: appends
/// a stored, fast `u64` field and returns its handle, whose number is its
/// position. It panics on a name already added or not valid, which
/// `requires` leaves out.
#[verifier::external_body]
fn add_stored_fast_u64(builder: &mut tantivy::schema::SchemaBuilder, name: &str) -> (r: tantivy::schema::Field)
    requires
        valid_field_name(name@),
        builder_fields(*old(builder)).len() < u32::MAX,
        forall|i: int| 0 <= i < builder_fields(*old(builder)).len() ==> (#[trigger] builder_fields(*old(builder))[i]).name != name@,
    ensures
        builder_fields(*final(builder)) == builder_fields(*old(builder)).push(
            FieldEntryView { name: name@, kind: FieldKind::U64, stored: true, fast: true },
        ),
        field_number(r) == builder_fields(*old(builder)).len(),
{
    builder.add_u64_field(name, tantivy::schema::STORED | tantivy::schema::FAST)
}

/// `SchemaBuilder::add_text_field` with the options `TEXT | STORED`: appends
/// a stored full-text field (not fast) and returns its handle, whose number
/// is its position. It panics on a name already added or not valid, which
/// `requires` leaves out.
#[verifier::external_body]
fn add_stored_text(builder: &mut tantivy::schema::SchemaBuilder, name: &str) -> (r: tantivy::schema::Field)
    requires
        valid_field_name(name@),
        builder_fields(*old(builder)).len() < u32::MAX,
        forall|i: int| 0 <= i < builder_fields(*old(builder)).len() ==> (#[trigger] builder_fields(*old(builder))[i]).name != name@,
    ensures
        builder_fields(*final(builder)) == builder_fields(*old(builder)).push(
            FieldEntryView { name: name@, kind: FieldKind::Str, stored: true, fast: false },
        ),
        field_number(r) == builder_fields(*old(builder)).len(),
{
    builder.add_text_field(name, tantivy::schema::TEXT | tantivy::schema::STORED)
}

/// `SchemaBuilder::build`: the schema of the fields added.
#[verifier::external_body]
fn build_schema(builder: tantivy::schema::SchemaBuilder) -> (r: tantivy::schema::Schema)
    ensures
        schema_fields(r) == builder_fields(builder),
{
    builder.build()
}

/// A schema of two fields: a stored, fast `u64` id (field 0) and a stored
/// full-text content (field 1).
pub open spec fn id_and_content_schema(
    r: (tantivy::schema::Schema, tantivy::schema::Field, tantivy::schema::Field),
    id: Seq<char>,
    content: Seq<char>,
) -> bool {
    &&& schema_fields(r.0) == seq![
        FieldEntryView { name: id, kind: FieldKind::U64, stored: true, fast: true },
        FieldEntryView { name: content, kind: FieldKind::Str, stored: true, fast: false },
    ]
    &&& field_number(r.1) == 0
    &&& field_number(r.2) == 1
}

/// The code index: a stored, fast `blob_id` and the stored, full-text `content`.
pub fn build_code_schema() -> (r: (tantivy::schema::Schema, tantivy::schema::Field, tantivy::schema::Field))
    ensures
        id_and_content_schema(r, "blob_id"@, "content"@),
{
    proof {
        reveal_strlit("blob_id");
        reveal_strlit("content");
    }
    let mut builder = schema_builder();
    let blob_id = add_stored_fast_u64(&mut builder, "blob_id");
    proof {
        assert(builder_fields(builder).len() == 1);
        assert(builder_fields(builder)[0].name == "blob_id"@);
        assert("blob_id"@[0] != "content"@[0] || "blob_id"@.len() != "content"@.len());
    }
    let content = add_stored_text(&mut builder, "content");
    let schema = build_schema(builder);
    proof {
        assert(schema_fields(schema) =~= seq![
            FieldEntryView { name: "blob_id"@, kind: FieldKind::U64, stored: true, fast: true },
            FieldEntryView { name: "content"@, kind: FieldKind::Str, stored: true, fast: false },
        ]);
    }
    (schema, blob_id, content)
}

/// The diff index: a stored, fast `diff_id` and the stored, full-text `diff_content`.
pub fn build_diff_schema() -> (r: (tantivy::schema::Schema, tantivy::schema::Field, tantivy::schema::Field))
    ensures
        id_and_content_schema(r, "diff_id"@, "diff_content"@),
{
    proof {
        reveal_strlit("diff_id");
        reveal_strlit("diff_content");
    }
    let mut builder = schema_builder();
    let diff_id = add_stored_fast_u64(&mut builder, "diff_id");
    proof {
        assert(builder_fields(builder).len() == 1);
        assert(builder_fields(builder)[0].name == "diff_id"@);
        assert("diff_id"@[0] != "diff_content"@[0] || "diff_id"@.len() != "diff_content"@.len());
    }
    let content = add_stored_text(&mut builder, "diff_content");
    let schema = build_schema(builder);
    proof {
        assert(schema_fields(schema) =~= seq![
            FieldEntryView { name: "diff_id"@, kind: FieldKind::U64, stored: true, fast: true },
            FieldEntryView { name: "diff_content"@, kind: FieldKind::Str, stored: true, fast: false },
        ]);
    }
    (schema, diff_id, content)
}

/// A search table over one index: an id column, the score and a snippet of
/// the content, searching the content.
pub open spec fn search_table(
    b: BuilderView,
    index: tantivy::Index,
    reader: tantivy::IndexReader,
    id_column: Seq<char>,
    id_field: tantivy::schema::Field,
    content_field: tantivy::schema::Field,
) -> bool {
    &&& b.index == Some(index)
    &&& b.reader == Some(reader)
    &&& b.search_fields == seq![content_field]
    &&& b.default_limit == 1000
    &&& b.columns.len() == 3
    &&& b.columns[0].name@ == id_column && b.columns[0].source == ColumnSource::StoredField(id_field)
    &&& b.columns[0].sql_type@ == ""@
    &&& b.columns[1].name@ == "score"@ && b.columns[1].source == ColumnSource::Score
    &&& b.columns[1].sql_type@ == "REAL"@
    &&& b.columns[2].name@ == "snippet"@ && b.columns[2].source == ColumnSource::Snippet(content_field)
    &&& b.columns[2].sql_type@ == "TEXT"@
}

/// The definition of the search table over an index (`code_search` with
/// `blob_id`, `diff_search` with `diff_id`).
pub fn search_table_builder(
    index: tantivy::Index,
    reader: tantivy::IndexReader,
    id_column: &str,
    id_field: tantivy::schema::Field,
    content_field: tantivy::schema::Field,
) -> (b: TantivyVTabBuilder)
    ensures
        search_table(b@, index, reader, id_column@, id_field, content_field),
{
    let mut fields: Vec<tantivy::schema::Field> = Vec::new();
    fields.push(content_field);
    let b0 = TantivyVTab::builder();
    let b1 = b0.index(index);
    let b2 = b1.reader(reader);
    let b3 = b2.search_fields(fields);
    let b4 = b3.column(id_column, id_field);
    let b5 = b4.score_column("score");
    let b6 = b5.snippet_column("snippet", content_field);
    proof {
        assert(b4@.columns.drop_last() == b3@.columns);
        assert(b5@.columns.drop_last() == b4@.columns);
        assert(b6@.columns.drop_last() == b5@.columns);
        assert(b6@.columns[0] == b5@.columns[0]);
        assert(b5@.columns[0] == b4@.columns[0]);
        assert(b6@.columns[1] == b5@.columns[1]);
        assert(fields@ =~= seq![content_field]);
    }
    b6
}

} // verus!
