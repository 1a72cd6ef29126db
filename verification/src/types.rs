//! Columns of a search virtual table and their SQLite types.
use vstd::prelude::*;

verus! {

/// A field of a full-text index schema.
#[verifier::external_type_specification]
#[verifier::external_body]
pub struct ExField(tantivy::schema::Field);

/// The kind of value an index field holds.
#[derive(Debug, Clone, Copy, PartialEq, Eq, Structural)]
pub enum FieldKind {
    Str,
    U64,
    I64,
    F64,
    Bool,
    Date,
    Facet,
    Bytes,
    Json,
    IpAddr,
    Custom,
}

/// What a schema records of a field: its name, the kind of value it holds,
/// and whether it is stored and fast.
pub struct FieldEntryView {
    pub name: Seq<char>,
    pub kind: FieldKind,
    pub stored: bool,
    pub fast: bool,
}

/// The number of a field within its schema (`Field::field_id`).
pub uninterp spec fn field_number(f: tantivy::schema::Field) -> u32;

/// The fields of a schema under construction, in the order they were added.
pub uninterp spec fn builder_fields(b: tantivy::schema::SchemaBuilder) -> Seq<FieldEntryView>;

/// The fields of a schema, indexed by field number.
pub uninterp spec fn schema_fields(s: tantivy::schema::Schema) -> Seq<FieldEntryView>;

/// The fields of an index's schema, indexed by field number.
pub uninterp spec fn index_fields(i: tantivy::Index) -> Seq<FieldEntryView>;

/// The field kind of a value type, variant for variant.
pub uninterp spec fn type_kind(t: tantivy::schema::Type) -> FieldKind;

/// A name that a schema accepts for a field: not empty, not starting with `-`.
pub open spec fn valid_field_name(name: Seq<char>) -> bool {
    name.len() > 0 && name[0] != '-'
}

/// The SQLite type name for a field kind, if any.
pub open spec fn sql_type_name(kind: FieldKind) -> Option<&'static str> {
    match kind {
        FieldKind::Str => Some("TEXT"),
        FieldKind::U64 => Some("INTEGER"),
        FieldKind::I64 => Some("INTEGER"),
        FieldKind::F64 => Some("REAL"),
        FieldKind::Bool => Some("INTEGER"),
        FieldKind::Bytes => Some("BLOB"),
        _ => None,
    }
}

/// Maps a field's value kind to a SQLite type name.
pub fn tantivy_type_to_sql(kind: FieldKind) -> (r: Option<&'static str>)
    ensures
        r == sql_type_name(kind),
{
    match kind {
        FieldKind::Str => Some("TEXT"),
        FieldKind::U64 => Some("INTEGER"),
        FieldKind::I64 => Some("INTEGER"),
        FieldKind::F64 => Some("REAL"),
        FieldKind::Bool => Some("INTEGER"),
        FieldKind::Bytes => Some("BLOB"),
        _ => None,
    }
}

/// How a virtual table column gets its value.
#[derive(Debug, Clone, Copy)]
pub enum ColumnSource {
    /// Value from a stored index field.
    StoredField(tantivy::schema::Field),
    /// BM25 relevance score.
    Score,
    /// Highlighted snippet from a stored TEXT field.
    Snippet(tantivy::schema::Field),
}

/// A column in the virtual table.
#[derive(Debug, Clone)]
pub struct ColumnDef {
    pub name: String,
    pub source: ColumnSource,
    pub sql_type: &'static str,
}

} // verus!
