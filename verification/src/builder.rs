//! Building and validating the definition of a full-text search virtual table.
use vstd::prelude::*;
use vstd::string::*;
use crate::types::{
    field_number, index_fields, schema_fields, sql_type_name, tantivy_type_to_sql, type_kind,
    ColumnDef, ColumnSource, FieldEntryView, FieldKind,
};

verus! {

/// A full-text index.
#[verifier::external_type_specification]
#[verifier::external_body]
pub struct ExIndex(tantivy::Index);

/// A reader of a full-text index.
#[verifier::external_type_specification]
#[verifier::external_body]
pub struct ExIndexReader(tantivy::IndexReader);

/// The schema of a full-text index.
#[verifier::external_type_specification]
#[verifier::external_body]
pub struct ExSchema(tantivy::schema::Schema);

/// The value type of an index field.
#[verifier::external_type_specification]
#[verifier::external_body]
pub struct ExType(tantivy::schema::Type);

/// `Index::schema`: the index's schema, whose fields are the index's fields.
#[verifier::external_body]
fn index_schema(index: &tantivy::Index) -> (r: tantivy::schema::Schema)
    ensures
        schema_fields(r) == index_fields(*index),
{
    index.schema()
}

/// A field value type as a `FieldKind`, variant for variant.
#[verifier::external_body]
fn field_kind(t: tantivy::schema::Type) -> (r: FieldKind)
    ensures
        r == type_kind(t),
{
    match t {
        tantivy::schema::Type::Str => FieldKind::Str,
        tantivy::schema::Type::U64 => FieldKind::U64,
        tantivy::schema::Type::I64 => FieldKind::I64,
        tantivy::schema::Type::F64 => FieldKind::F64,
        tantivy::schema::Type::Bool => FieldKind::Bool,
        tantivy::schema::Type::Date => FieldKind::Date,
        tantivy::schema::Type::Facet => FieldKind::Facet,
        tantivy::schema::Type::Bytes => FieldKind::Bytes,
        tantivy::schema::Type::Json => FieldKind::Json,
        tantivy::schema::Type::IpAddr => FieldKind::IpAddr,
        tantivy::schema::Type::Custom => FieldKind::Custom,
    }
}

/// `Schema::get_field_entry` of a field, read as its name (`FieldEntry::name`),
/// whether it is stored (`FieldEntry::is_stored`) and its value type
/// (`FieldType::value_type`), as the schema records them for that field.
/// The schema looks the field up by its number, which panics for a field
/// it does not hold; `requires` leaves that out.
#[verifier::external_body]
fn field_entry(
    schema: &tantivy::schema::Schema,
    field: tantivy::schema::Field,
) -> (r: (String, bool, tantivy::schema::Type))
    requires
        field_number(field) < schema_fields(*schema).len(),
    ensures
        r.0@ == schema_fields(*schema)[field_number(field) as int].name,
        r.1 == schema_fields(*schema)[field_number(field) as int].stored,
        type_kind(r.2) == schema_fields(*schema)[field_number(field) as int].kind,
{
    let entry = schema.get_field_entry(field);
    (entry.name().to_string(), entry.is_stored(), entry.field_type().value_type())
}

/// Validation's information matches what a schema records of a field.
pub open spec fn info_matches(fi: FieldInfo, e: FieldEntryView) -> bool {
    fi.name@ == e.name && fi.stored == e.stored && fi.kind == e.kind
}

/// What validation reads of a field in the schema.
fn field_info(schema: &tantivy::schema::Schema, field: tantivy::schema::Field) -> (r: FieldInfo)
    requires
        field_number(field) < schema_fields(*schema).len(),
    ensures
        info_matches(r, schema_fields(*schema)[field_number(field) as int]),
{
    let (name, stored, t) = field_entry(schema, field);
    FieldInfo { name, stored, kind: field_kind(t) }
}

/// What validation reads of an index field: its name, whether it is stored,
/// and the kind of value it holds.
#[derive(Debug, Clone)]
pub struct FieldInfo {
    pub name: String,
    pub stored: bool,
    pub kind: FieldKind,
}

/// Why a virtual table definition is refused.
#[derive(Debug)]
pub enum BuildError {
    MissingIndex,
    MissingReader,
    NoSearchFields,
    NoColumns,
    FieldNotStored(String),
    UnsupportedFieldType(String),
    SnippetFieldNotText(String),
    DuplicateColumnName(String),
}

/// The value of a build error.
pub enum BuildErrorView {
    MissingIndex,
    MissingReader,
    NoSearchFields,
    NoColumns,
    FieldNotStored(Seq<char>),
    UnsupportedFieldType(Seq<char>),
    SnippetFieldNotText(Seq<char>),
    DuplicateColumnName(Seq<char>),
}

impl View for BuildError {
    type V = BuildErrorView;

    open spec fn view(&self) -> BuildErrorView {
        match self {
            BuildError::MissingIndex => BuildErrorView::MissingIndex,
            BuildError::MissingReader => BuildErrorView::MissingReader,
            BuildError::NoSearchFields => BuildErrorView::NoSearchFields,
            BuildError::NoColumns => BuildErrorView::NoColumns,
            BuildError::FieldNotStored(n) => BuildErrorView::FieldNotStored(n@),
            BuildError::UnsupportedFieldType(n) => BuildErrorView::UnsupportedFieldType(n@),
            BuildError::SnippetFieldNotText(n) => BuildErrorView::SnippetFieldNotText(n@),
            BuildError::DuplicateColumnName(n) => BuildErrorView::DuplicateColumnName(n@),
        }
    }
}

/// The message of a build error.
pub open spec fn build_error_message(e: BuildErrorView) -> Seq<char> {
    match e {
        BuildErrorView::MissingIndex => "index is required"@,
        BuildErrorView::MissingReader => "reader is required"@,
        BuildErrorView::NoSearchFields => "at least one search field is required"@,
        BuildErrorView::NoColumns => "at least one column is required"@,
        BuildErrorView::FieldNotStored(n) => "field '"@ + n + "' is not stored"@,
        BuildErrorView::UnsupportedFieldType(n) => "field '"@ + n + "' has unsupported type"@,
        BuildErrorView::SnippetFieldNotText(n) => "snippet field '"@ + n + "' is not TEXT"@,
        BuildErrorView::DuplicateColumnName(n) => "duplicate column name '"@ + n + "'"@,
    }
}

fn quoted(before: &str, name: &String, after: &str) -> (r: String)
    ensures
        r@ == before@ + name@ + after@,
{
    let mut s = before.to_owned();
    s.append(name.as_str());
    s.append(after);
    s
}

impl BuildError {
    /// The error's message.
    pub fn message(&self) -> (r: String)
        ensures
            r@ == build_error_message(self@),
    {
        match self {
            BuildError::MissingIndex => "index is required".to_owned(),
            BuildError::MissingReader => "reader is required".to_owned(),
            BuildError::NoSearchFields => "at least one search field is required".to_owned(),
            BuildError::NoColumns => "at least one column is required".to_owned(),
            BuildError::FieldNotStored(n) => quoted("field '", n, "' is not stored"),
            BuildError::UnsupportedFieldType(n) => quoted("field '", n, "' has unsupported type"),
            BuildError::SnippetFieldNotText(n) => quoted("snippet field '", n, "' is not TEXT"),
            BuildError::DuplicateColumnName(n) => quoted("duplicate column name '", n, "'"),
        }
    }
}

// ---------------------------------------------------------------------------
// Column checks
// ---------------------------------------------------------------------------

/// The first column (in order) whose name an earlier column already has,
/// searching from `i`.
pub open spec fn duplicate_from(cs: Seq<ColumnDef>, i: int) -> Option<int>
    decreases cs.len() - i,
{
    if i < 0 || i >= cs.len() {
        None
    } else if exists|j: int| 0 <= j < i && (#[trigger] cs[j]).name@ == cs[i].name@ {
        Some(i)
    } else {
        duplicate_from(cs, i + 1)
    }
}

/// Index of the first column whose name repeats an earlier column's name.
pub fn first_duplicate_column(cs: &Vec<ColumnDef>) -> (r: Option<usize>)
    ensures
        match r {
            Some(i) => duplicate_from(cs@, 0) == Some(i as int) && i < cs.len(),
            None => duplicate_from(cs@, 0) is None,
        },
{
    let mut i: usize = 0;
    while i < cs.len()
        invariant
            duplicate_from(cs@, 0) == duplicate_from(cs@, i as int),
        decreases cs.len() - i,
    {
        let mut j: usize = 0;
        while j < i
            invariant
                i < cs.len(),
                j <= i,
                duplicate_from(cs@, 0) == duplicate_from(cs@, i as int),
                forall|k: int| 0 <= k < j ==> (#[trigger] cs@[k]).name@ != cs@[i as int].name@,
            decreases i - j,
        {
            if cs[j].name == cs[i].name {
                assert(duplicate_from(cs@, i as int) == Some(i as int));
                return Some(i);
            }
            j = j + 1;
        }
        i = i + 1;
    }
    None
}

/// A column with its SQLite type resolved against its field, or why it is refused.
pub open spec fn resolved_column(c: ColumnDef, info: Option<FieldInfo>) -> Result<
    ColumnDef,
    BuildErrorView,
> {
    match (c.source, info) {
        (ColumnSource::StoredField(_), Some(fi)) => if !fi.stored {
            Err(BuildErrorView::FieldNotStored(fi.name@))
        } else {
            match sql_type_name(fi.kind) {
                Some(t) => Ok(ColumnDef { name: c.name, source: c.source, sql_type: t }),
                None => Err(BuildErrorView::UnsupportedFieldType(fi.name@)),
            }
        },
        (ColumnSource::Snippet(_), Some(fi)) => if fi.kind != FieldKind::Str {
            Err(BuildErrorView::SnippetFieldNotText(fi.name@))
        } else {
            Ok(c)
        },
        _ => Ok(c),
    }
}

/// All columns resolved in order; the first refused column gives the error.
pub open spec fn resolved_columns(cs: Seq<ColumnDef>, infos: Seq<Option<FieldInfo>>) -> Result<
    Seq<ColumnDef>,
    BuildErrorView,
>
    decreases cs.len(),
{
    if cs.len() == 0 {
        Ok(Seq::empty())
    } else {
        match resolved_columns(cs.drop_last(), infos.drop_last()) {
            Err(e) => Err(e),
            Ok(prev) => match resolved_column(cs.last(), infos.last()) {
                Ok(c) => Ok(prev.push(c)),
                Err(e) => Err(e),
            },
        }
    }
}

/// The field information fits the columns: one entry per column, present
/// exactly for the columns that read a field.
pub open spec fn infos_fit(cs: Seq<ColumnDef>, infos: Seq<Option<FieldInfo>>) -> bool {
    &&& infos.len() == cs.len()
    &&& forall|i: int| 0 <= i < cs.len() ==> ((#[trigger] cs[i]).source is Score <==> infos[i] is None)
}

proof fn lemma_resolved_error_stays(cs: Seq<ColumnDef>, infos: Seq<Option<FieldInfo>>, k: int)
    requires
        0 <= k <= cs.len(),
        infos.len() == cs.len(),
        resolved_columns(cs.take(k), infos.take(k)) is Err,
    ensures
        resolved_columns(cs, infos) == resolved_columns(cs.take(k), infos.take(k)),
    decreases cs.len() - k,
{
    if k == cs.len() {
        assert(cs.take(k) =~= cs);
        assert(infos.take(k) =~= infos);
    } else {
        assert(cs.take(k + 1).drop_last() =~= cs.take(k));
        assert(infos.take(k + 1).drop_last() =~= infos.take(k));
        lemma_resolved_error_stays(cs, infos, k + 1);
    }
}

/// Resolve the SQLite types of field columns and check snippet columns,
/// given each column's field information.
pub fn resolve_columns(columns: Vec<ColumnDef>, infos: &Vec<Option<FieldInfo>>) -> (r: Result<
    Vec<ColumnDef>,
    BuildError,
>)
    requires
        infos_fit(columns@, infos@),
    ensures
        match r {
            Ok(v) => resolved_columns(columns@, infos@) == Ok::<
                Seq<ColumnDef>,
                BuildErrorView,
            >(v@),
            Err(e) => resolved_columns(columns@, infos@) == Err::<
                Seq<ColumnDef>,
                BuildErrorView,
            >(e@),
        },
{
    let ghost all = columns@;
    let mut input = columns;
    let mut out: Vec<ColumnDef> = Vec::new();
    let n = input.len();
    let mut i: usize = 0;
    while input.len() > 0
        invariant
            i <= all.len(),
            all.len() == n,
            all == columns@,
            infos_fit(all, infos@),
            input@ == all.skip(i as int),
            resolved_columns(all.take(i as int), infos@.take(i as int)) == Ok::<
                Seq<ColumnDef>,
                BuildErrorView,
            >(out@),
        decreases input.len(),
    {
        let ghost old_input = input@;
        let c = input.remove(0);
        proof {
            assert(all.skip(i as int).len() == old_input.len());
            assert(c == all[i as int]);
            assert(input@ =~= all.skip(i + 1));
            assert(all.take(i + 1).drop_last() =~= all.take(i as int));
            assert(infos@.take(i + 1).drop_last() =~= infos@.take(i as int));
            assert(all.take(i + 1).last() == c);
            assert(infos@.take(i + 1).last() == infos@[i as int]);
        }
        let info = &infos[i];
        let ghost before = out@;
        match (c.source, info) {
            (ColumnSource::StoredField(_), Some(fi)) => {
                if !fi.stored {
                    proof {
                        assert(infos@.take(i + 1).last() == Some(*fi));
                        assert(resolved_column(c, Some(*fi)) == Err::<ColumnDef, BuildErrorView>(
                            BuildErrorView::FieldNotStored(fi.name@),
                        ));
                        lemma_resolved_error_stays(all, infos@, i + 1);
                    }
                    return Err(BuildError::FieldNotStored(fi.name.clone()));
                }
                match tantivy_type_to_sql(fi.kind) {
                    Some(t) => {
                        out.push(ColumnDef { name: c.name, source: c.source, sql_type: t });
                    },
                    None => {
                        proof {
                            lemma_resolved_error_stays(all, infos@, i + 1);
                        }
                        return Err(BuildError::UnsupportedFieldType(fi.name.clone()));
                    },
                }
            },
            (ColumnSource::Snippet(_), Some(fi)) => {
                if fi.kind != FieldKind::Str {
                    proof {
                        assert(infos@.take(i + 1).last() == Some(*fi));
                        assert(resolved_column(c, Some(*fi)) == Err::<ColumnDef, BuildErrorView>(
                            BuildErrorView::SnippetFieldNotText(fi.name@),
                        ));
                        lemma_resolved_error_stays(all, infos@, i + 1);
                    }
                    return Err(BuildError::SnippetFieldNotText(fi.name.clone()));
                }
                out.push(c);
            },
            _ => {
                out.push(c);
            },
        }
        proof {
            assert(out@ =~= before.push(out@.last()));
        }
        i = i + 1;
    }
    proof {
        assert(all.take(i as int) =~= all);
        assert(infos@.take(i as int) =~= infos@);
    }
    Ok(out)
}

// ---------------------------------------------------------------------------
// The builder
// ---------------------------------------------------------------------------

/// Builder for a search virtual table: the index and its reader, the fields
/// searched, the visible columns and the default result limit.
pub struct TantivyVTabBuilder {
    index: Option<tantivy::Index>,
    reader: Option<tantivy::IndexReader>,
    search_fields: Vec<tantivy::schema::Field>,
    columns: Vec<ColumnDef>,
    default_limit: usize,
}

/// The value of a builder.
pub struct BuilderView {
    pub index: Option<tantivy::Index>,
    pub reader: Option<tantivy::IndexReader>,
    pub search_fields: Seq<tantivy::schema::Field>,
    pub columns: Seq<ColumnDef>,
    pub default_limit: usize,
}

impl View for TantivyVTabBuilder {
    type V = BuilderView;

    closed spec fn view(&self) -> BuilderView {
        BuilderView {
            index: self.index,
            reader: self.reader,
            search_fields: self.search_fields@,
            columns: self.columns@,
            default_limit: self.default_limit,
        }
    }
}

/// A validated virtual table definition, ready to be registered.
pub struct ValidatedVTab {
    pub index: tantivy::Index,
    pub reader: tantivy::IndexReader,
    pub search_fields: Vec<tantivy::schema::Field>,
    pub columns: Vec<ColumnDef>,
    pub default_limit: usize,
}

/// A column reads no field, or one that a schema of `n` fields holds.
pub open spec fn column_field_ok(c: ColumnDef, n: nat) -> bool {
    match c.source {
        ColumnSource::StoredField(f) => field_number(f) < n,
        ColumnSource::Snippet(f) => field_number(f) < n,
        ColumnSource::Score => true,
    }
}

/// Every column reads a field that a schema of `n` fields holds.
pub open spec fn fields_in(cs: Seq<ColumnDef>, n: nat) -> bool {
    forall|i: int| 0 <= i < cs.len() ==> column_field_ok(#[trigger] cs[i], n)
}

/// The information read for a column: none for a score column, else what
/// the schema records of the column's own field.
pub open spec fn info_read(c: ColumnDef, info: Option<FieldInfo>, entries: Seq<FieldEntryView>) -> bool {
    match c.source {
        ColumnSource::StoredField(f) => info matches Some(fi) && info_matches(fi, entries[field_number(f) as int]),
        ColumnSource::Snippet(f) => info matches Some(fi) && info_matches(fi, entries[field_number(f) as int]),
        ColumnSource::Score => info is None,
    }
}

/// The information read for each column, from the schema's entries.
pub open spec fn infos_read(cs: Seq<ColumnDef>, infos: Seq<Option<FieldInfo>>, entries: Seq<FieldEntryView>) -> bool {
    &&& infos_fit(cs, infos)
    &&& forall|i: int| 0 <= i < cs.len() ==> info_read(#[trigger] cs[i], infos[i], entries)
}

/// The outcome of validation once the prechecks pass: the columns resolved
/// against what the index's schema records of each column's own field,
/// with the index, reader, search fields and limit carried over.
pub open spec fn validated_against_index(b: BuilderView, r: Result<ValidatedVTab, BuildError>) -> bool {
    match b.index {
        Some(i) => exists|infos: Seq<Option<FieldInfo>>|
            #![trigger resolved_columns(b.columns, infos)]
            infos_read(b.columns, infos, index_fields(i)) && match r {
                Ok(v) => resolved_columns(b.columns, infos) == Ok::<Seq<ColumnDef>, BuildErrorView>(
                    v.columns@,
                ) && b.index == Some(v.index) && b.reader == Some(v.reader) && v.search_fields@
                    == b.search_fields && v.default_limit == b.default_limit,
                Err(e) => resolved_columns(b.columns, infos) == Err::<Seq<ColumnDef>, BuildErrorView>(
                    e@,
                ),
            },
        None => false,
    }
}

/// The error that validation gives before it reads the schema, if any: a
/// missing index or reader, no search fields, no columns, or a repeated
/// column name (the first column that repeats one).
pub open spec fn precheck_error(b: BuilderView) -> Option<BuildErrorView> {
    if b.index is None {
        Some(BuildErrorView::MissingIndex)
    } else if b.reader is None {
        Some(BuildErrorView::MissingReader)
    } else if b.search_fields.len() == 0 {
        Some(BuildErrorView::NoSearchFields)
    } else if b.columns.len() == 0 {
        Some(BuildErrorView::NoColumns)
    } else {
        match duplicate_from(b.columns, 0) {
            Some(i) => Some(BuildErrorView::DuplicateColumnName(b.columns[i].name@)),
            None => None,
        }
    }
}

/// A new column of the builder.
pub open spec fn added_column(
    old: BuilderView,
    new: BuilderView,
    name: Seq<char>,
    source: ColumnSource,
    sql_type: Seq<char>,
) -> bool {
    &&& new.index == old.index
    &&& new.reader == old.reader
    &&& new.search_fields == old.search_fields
    &&& new.default_limit == old.default_limit
    &&& new.columns.len() == old.columns.len() + 1
    &&& new.columns.drop_last() == old.columns
    &&& new.columns.last().name@ == name
    &&& new.columns.last().source == source
    &&& new.columns.last().sql_type@ == sql_type
}

impl TantivyVTabBuilder {
    /// An empty builder with a default limit of 1000 results.
    pub fn new() -> (b: Self)
        ensures
            b@.index is None,
            b@.reader is None,
            b@.search_fields.len() == 0,
            b@.columns.len() == 0,
            b@.default_limit == 1000,
    {
        TantivyVTabBuilder {
            index: None,
            reader: None,
            search_fields: Vec::new(),
            columns: Vec::new(),
            default_limit: 1000,
        }
    }

    /// Set the index.
    pub fn index(self, index: tantivy::Index) -> (b: Self)
        ensures
            b@ == (BuilderView { index: Some(index), ..self@ }),
    {
        let mut s = self;
        s.index = Some(index);
        s
    }

    /// Set the index reader.
    pub fn reader(self, reader: tantivy::IndexReader) -> (b: Self)
        ensures
            b@ == (BuilderView { reader: Some(reader), ..self@ }),
    {
        let mut s = self;
        s.reader = Some(reader);
        s
    }

    /// Set the fields that queries search.
    pub fn search_fields(self, fields: Vec<tantivy::schema::Field>) -> (b: Self)
        ensures
            b@ == (BuilderView { search_fields: fields@, ..self@ }),
    {
        let mut s = self;
        s.search_fields = fields;
        s
    }

    /// Add a column with the value of a stored field; its type is resolved
    /// during validation.
    pub fn column(self, name: &str, field: tantivy::schema::Field) -> (b: Self)
        ensures
            added_column(self@, b@, name@, ColumnSource::StoredField(field), ""@),
    {
        let mut s = self;
        s.columns.push(ColumnDef { name: name.to_owned(), source: ColumnSource::StoredField(field), sql_type: "" });
        assert(s.columns@.drop_last() =~= self@.columns);
        s
    }

    /// Add a column with the relevance score.
    pub fn score_column(self, name: &str) -> (b: Self)
        ensures
            added_column(self@, b@, name@, ColumnSource::Score, "REAL"@),
    {
        let mut s = self;
        s.columns.push(ColumnDef { name: name.to_owned(), source: ColumnSource::Score, sql_type: "REAL" });
        assert(s.columns@.drop_last() =~= self@.columns);
        s
    }

    /// Add a column with a highlighted snippet of a text field.
    pub fn snippet_column(self, name: &str, field: tantivy::schema::Field) -> (b: Self)
        ensures
            added_column(self@, b@, name@, ColumnSource::Snippet(field), "TEXT"@),
    {
        let mut s = self;
        s.columns.push(ColumnDef { name: name.to_owned(), source: ColumnSource::Snippet(field), sql_type: "TEXT" });
        assert(s.columns@.drop_last() =~= self@.columns);
        s
    }

    /// Set the number of results returned when a query gives no limit.
    pub fn default_limit(self, limit: usize) -> (b: Self)
        ensures
            b@ == (BuilderView { default_limit: limit, ..self@ }),
    {
        let mut s = self;
        s.default_limit = limit;
        s
    }

    /// Validate and finalize the builder. The checks before the schema is
    /// read are exact (see `precheck_error`); after them, each column is
    /// resolved against the information the schema gives for its field.
    pub fn validate(self) -> (r: Result<ValidatedVTab, BuildError>)
        requires
            self@.index matches Some(i) ==> fields_in(self@.columns, index_fields(i).len()),
        ensures
            precheck_error(self@) matches Some(e) ==> r matches Err(x) && x@ == e,
            precheck_error(self@) is None ==> validated_against_index(self@, r),
    {
        let ghost sv = self@;
        let TantivyVTabBuilder { index, reader, search_fields, columns, default_limit } = self;
        let index = match index {
            Some(i) => i,
            None => return Err(BuildError::MissingIndex),
        };
        let reader = match reader {
            Some(r) => r,
            None => return Err(BuildError::MissingReader),
        };
        if search_fields.len() == 0 {
            return Err(BuildError::NoSearchFields);
        }
        if columns.len() == 0 {
            return Err(BuildError::NoColumns);
        }
        match first_duplicate_column(&columns) {
            Some(d) => {
                return Err(BuildError::DuplicateColumnName(columns[d].name.clone()));
            },
            None => {},
        }
        let schema = index_schema(&index);
        let ghost entries = schema_fields(schema);
        let mut infos: Vec<Option<FieldInfo>> = Vec::new();
        let mut i: usize = 0;
        while i < columns.len()
            invariant
                i <= columns.len(),
                infos@.len() == i,
                entries == schema_fields(schema),
                fields_in(columns@, entries.len()),
                forall|k: int|
                    0 <= k < i ==> ((#[trigger] columns@[k]).source is Score <==> infos@[k] is None),
                forall|k: int| 0 <= k < i ==> info_read(#[trigger] columns@[k], infos@[k], entries),
            decreases columns.len() - i,
        {
            assert(column_field_ok(columns@[i as int], entries.len()));
            match columns[i].source {
                ColumnSource::StoredField(f) => infos.push(Some(field_info(&schema, f))),
                ColumnSource::Snippet(f) => infos.push(Some(field_info(&schema, f))),
                ColumnSource::Score => infos.push(None),
            }
            i = i + 1;
        }
        let resolved = resolve_columns(columns, &infos);
        match resolved {
            Ok(cols) => Ok(
                ValidatedVTab { index, reader, search_fields, columns: cols, default_limit },
            ),
            Err(e) => Err(e),
        }
    }
}

impl Default for TantivyVTabBuilder {
    fn default() -> (b: Self)
        ensures
            b@.index is None,
            b@.reader is None,
            b@.search_fields.len() == 0,
            b@.columns.len() == 0,
            b@.default_limit == 1000,
    {
        Self::new()
    }
}

/// Entry point of the search virtual table.
pub struct TantivyVTab;

impl TantivyVTab {
    /// A new, empty builder.
    pub fn builder() -> (b: TantivyVTabBuilder)
        ensures
            b@.index is None,
            b@.reader is None,
            b@.search_fields.len() == 0,
            b@.columns.len() == 0,
            b@.default_limit == 1000,
    {
        TantivyVTabBuilder::new()
    }
}

} // verus!
