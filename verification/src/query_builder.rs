//! What kind of full-text query a query string and mode ask for.
use vstd::prelude::*;
use vstd::string::*;
use crate::symbols::{is_whitespace, is_ws};
use crate::text::{chars_of, eq_str, string_from_chars};
use crate::types::{field_number, index_fields};

verus! {

/// Why a full-text query could not be built.
#[derive(Debug, Clone, PartialEq, Eq)]
pub enum QueryBuildError {
    EmptyQuery,
    ParseError(String),
    UnknownMode(String),
}

/// The kind of query a mode asks for.
#[derive(Debug, Clone, PartialEq, Eq)]
pub enum QueryKind {
    /// The query parser's syntax over the search fields.
    Parsed,
    /// A regular expression matched against terms.
    Regex,
    /// One exact term.
    Term,
    /// The words, in order, as a phrase.
    Phrase(Vec<String>),
}

/// A query to build: its kind, and whether there is a single search field
/// (else one sub-query per field, any of which may match).
#[derive(Debug, Clone, PartialEq, Eq)]
pub struct QueryPlan {
    pub kind: QueryKind,
    pub single_field: bool,
}

/// The value of a query kind.
pub enum QueryKindView {
    Parsed,
    Regex,
    Term,
    Phrase(Seq<Seq<char>>),
}

/// The value of a query plan.
pub struct QueryPlanView {
    pub kind: QueryKindView,
    pub single_field: bool,
}

/// The value of a query build error.
pub enum QueryBuildErrorView {
    EmptyQuery,
    ParseError(Seq<char>),
    UnknownMode(Seq<char>),
}

impl View for QueryBuildError {
    type V = QueryBuildErrorView;

    open spec fn view(&self) -> QueryBuildErrorView {
        match self {
            QueryBuildError::EmptyQuery => QueryBuildErrorView::EmptyQuery,
            QueryBuildError::ParseError(e) => QueryBuildErrorView::ParseError(e@),
            QueryBuildError::UnknownMode(m) => QueryBuildErrorView::UnknownMode(m@),
        }
    }
}

impl View for QueryPlan {
    type V = QueryPlanView;

    open spec fn view(&self) -> QueryPlanView {
        QueryPlanView {
            kind: match self.kind {
                QueryKind::Parsed => QueryKindView::Parsed,
                QueryKind::Regex => QueryKindView::Regex,
                QueryKind::Term => QueryKindView::Term,
                QueryKind::Phrase(w) => QueryKindView::Phrase(w@.map_values(|s: String| s@)),
            },
            single_field: self.single_field,
        }
    }
}

/// The message of a query build error.
pub open spec fn query_error_message(e: QueryBuildErrorView) -> Seq<char> {
    match e {
        QueryBuildErrorView::EmptyQuery => "query string is empty"@,
        QueryBuildErrorView::ParseError(d) => "query parse error: "@ + d,
        QueryBuildErrorView::UnknownMode(m) => "unknown query mode: '"@ + m + "'"@,
    }
}

impl QueryBuildError {
    /// The error's message.
    pub fn message(&self) -> (r: String)
        ensures
            r@ == query_error_message(self@),
    {
        match self {
            QueryBuildError::EmptyQuery => "query string is empty".to_owned(),
            QueryBuildError::ParseError(e) => {
                let mut s = "query parse error: ".to_owned();
                s.append(e.as_str());
                s
            },
            QueryBuildError::UnknownMode(m) => {
                let mut s = "unknown query mode: '".to_owned();
                s.append(m.as_str());
                s.append("'");
                s
            },
        }
    }
}

/// The words of `s` after the current word `cur`: maximal runs of
/// non-white-space characters.
pub open spec fn words_from(s: Seq<char>, cur: Seq<char>) -> Seq<Seq<char>>
    decreases s.len(),
{
    if s.len() == 0 {
        if cur.len() > 0 {
            seq![cur]
        } else {
            Seq::empty()
        }
    } else if is_ws(s[0]) {
        (if cur.len() > 0 {
            seq![cur]
        } else {
            Seq::empty()
        }) + words_from(s.drop_first(), Seq::empty())
    } else {
        words_from(s.drop_first(), cur.push(s[0]))
    }
}

/// The white-space separated words of a text (`str::split_whitespace`).
pub open spec fn spec_words(s: Seq<char>) -> Seq<Seq<char>> {
    words_from(s, Seq::empty())
}

/// Split a text at white space into its non-empty words.
pub fn split_words(s: &str) -> (r: Vec<String>)
    ensures
        r@.map_values(|w: String| w@) == spec_words(s@),
{
    let v = chars_of(s);
    let mut out: Vec<String> = Vec::new();
    let mut cur: Vec<char> = Vec::new();
    let mut i: usize = 0;
    assert(v@.skip(0) =~= v@);
    while i < v.len()
        invariant
            i <= v.len(),
            v@ == s@,
            out@.map_values(|w: String| w@) + words_from(v@.skip(i as int), cur@) == spec_words(
                s@,
            ),
        decreases v.len() - i,
    {
        let c = v[i];
        let ghost rest = v@.skip(i as int);
        let ghost before = out@.map_values(|w: String| w@);
        assert(rest[0] == c);
        assert(rest.drop_first() =~= v@.skip(i + 1));
        if is_whitespace(c) {
            if cur.len() > 0 {
                let w = string_from_chars(&cur);
                out.push(w);
                assert(out@.map_values(|w: String| w@) =~= before.push(cur@));
                assert(before + (seq![cur@] + words_from(v@.skip(i + 1), Seq::empty())) =~= before.push(
                    cur@,
                ) + words_from(v@.skip(i + 1), Seq::empty()));
            } else {
                assert(before + (Seq::<Seq<char>>::empty() + words_from(v@.skip(i + 1), Seq::empty()))
                    =~= before + words_from(v@.skip(i + 1), Seq::empty()));
            }
            cur = Vec::new();
            assert(cur@ =~= Seq::<char>::empty());
        } else {
            cur.push(c);
        }
        i = i + 1;
    }
    let ghost before = out@.map_values(|w: String| w@);
    assert(v@.skip(i as int) =~= Seq::<char>::empty());
    if cur.len() > 0 {
        let w = string_from_chars(&cur);
        out.push(w);
        assert(out@.map_values(|w: String| w@) =~= before.push(cur@));
        assert(before + seq![cur@] =~= before.push(cur@));
    } else {
        assert(before + Seq::<Seq<char>>::empty() =~= before);
    }
    out
}

/// The query a query string and mode ask for over `n_fields` search fields:
/// an empty string is refused; the modes are `default` (parsed), `regex`,
/// `term` and `phrase` (refused when the string has no words).
pub open spec fn spec_plan_query(n_fields: usize, q: Seq<char>, mode: Seq<char>) -> Result<
    QueryPlanView,
    QueryBuildErrorView,
> {
    let single = n_fields == 1;
    if q.len() == 0 {
        Err(QueryBuildErrorView::EmptyQuery)
    } else if mode == "default"@ {
        Ok(QueryPlanView { kind: QueryKindView::Parsed, single_field: single })
    } else if mode == "regex"@ {
        Ok(QueryPlanView { kind: QueryKindView::Regex, single_field: single })
    } else if mode == "term"@ {
        Ok(QueryPlanView { kind: QueryKindView::Term, single_field: single })
    } else if mode == "phrase"@ {
        if spec_words(q).len() == 0 {
            Err(QueryBuildErrorView::EmptyQuery)
        } else {
            Ok(QueryPlanView { kind: QueryKindView::Phrase(spec_words(q)), single_field: single })
        }
    } else {
        Err(QueryBuildErrorView::UnknownMode(mode))
    }
}

/// Decide which query to build from a query string and mode.
pub fn plan_query(n_fields: usize, query_str: &str, mode: &str) -> (r: Result<
    QueryPlan,
    QueryBuildError,
>)
    ensures
        match r {
            Ok(p) => spec_plan_query(n_fields, query_str@, mode@) == Ok::<
                QueryPlanView,
                QueryBuildErrorView,
            >(p@),
            Err(e) => spec_plan_query(n_fields, query_str@, mode@) == Err::<
                QueryPlanView,
                QueryBuildErrorView,
            >(e@),
        },
{
    if query_str.is_empty() {
        return Err(QueryBuildError::EmptyQuery);
    }
    let single_field = n_fields == 1;
    let m = chars_of(mode);
    let m = m.as_slice();
    if eq_str(m, "default") {
        Ok(QueryPlan { kind: QueryKind::Parsed, single_field })
    } else if eq_str(m, "regex") {
        Ok(QueryPlan { kind: QueryKind::Regex, single_field })
    } else if eq_str(m, "term") {
        Ok(QueryPlan { kind: QueryKind::Term, single_field })
    } else if eq_str(m, "phrase") {
        let words = split_words(query_str);
        if words.len() == 0 {
            Err(QueryBuildError::EmptyQuery)
        } else {
            Ok(QueryPlan { kind: QueryKind::Phrase(words), single_field })
        }
    } else {
        Err(QueryBuildError::UnknownMode(mode.to_owned()))
    }
}

// ---------------------------------------------------------------------------
// Building the query
// ---------------------------------------------------------------------------

/// A full-text query ready to run.
#[verifier::external_body]
pub struct SearchQuery {
    pub inner: Box<dyn tantivy::query::Query>,
}

/// One query: parsed over default fields, or a regular expression, a term or
/// a phrase over one field (fields by number).
pub enum QueryLeaf {
    Parsed(Seq<u32>, Seq<char>),
    Regex(u32, Seq<char>),
    Term(u32, Seq<char>),
    Phrase(u32, Seq<Seq<char>>),
}

/// What a built query is: one query, or several of which any may match.
pub enum QueryShape {
    One(QueryLeaf),
    AnyOf(Seq<QueryLeaf>),
}

/// What a built query is made of.
pub uninterp spec fn query_shape(q: SearchQuery) -> QueryShape;

/// Whether a regular expression compiles.
pub uninterp spec fn regex_compiles(pattern: Seq<char>) -> bool;

/// The numbers of fields.
pub open spec fn field_numbers(fields: Seq<tantivy::schema::Field>) -> Seq<u32> {
    fields.map_values(|f: tantivy::schema::Field| field_number(f))
}

/// Every field is one of the index's schema.
pub open spec fn fields_in_index(index: tantivy::Index, fields: Seq<tantivy::schema::Field>) -> bool {
    forall|i: int| 0 <= i < fields.len() ==> field_number(#[trigger] fields[i]) < index_fields(index).len()
}

/// `QueryParser::for_index(index, fields)` and `parse_query(text)`: the query
/// parsed with the fields as default fields, or the parser's error message.
/// Which of the two comes back depends on the index's schema and tokenizers
/// and is not stated. The parser reads each default field's schema entry,
/// so the fields must be of the index's schema.
#[verifier::external_body]
fn parse_default_query(
    index: &tantivy::Index,
    fields: &Vec<tantivy::schema::Field>,
    text: &str,
) -> (r: Result<SearchQuery, String>)
    requires
        fields_in_index(*index, fields@),
    ensures
        r matches Ok(q) ==> query_shape(q) == QueryShape::One(
            QueryLeaf::Parsed(field_numbers(fields@), text@),
        ),
{
    tantivy::query::QueryParser::for_index(index, fields.clone())
        .parse_query(text)
        .map(|inner| SearchQuery { inner })
        .map_err(|e| e.to_string())
}

/// `RegexQuery::from_pattern`: the query matching terms of the field against
/// the pattern, or the error message where the pattern does not compile.
#[verifier::external_body]
fn regex_query(pattern: &str, field: tantivy::schema::Field) -> (r: Result<SearchQuery, String>)
    ensures
        r is Ok == regex_compiles(pattern@),
        r matches Ok(q) ==> query_shape(q) == QueryShape::One(
            QueryLeaf::Regex(field_number(field), pattern@),
        ),
{
    tantivy::query::RegexQuery::from_pattern(pattern, field)
        .map(|q| SearchQuery { inner: Box::new(q) })
        .map_err(|e| e.to_string())
}

/// `TermQuery::new` of `Term::from_field_text(field, text)`, with frequencies.
#[verifier::external_body]
fn term_query(field: tantivy::schema::Field, text: &str) -> (r: SearchQuery)
    ensures
        query_shape(r) == QueryShape::One(QueryLeaf::Term(field_number(field), text@)),
{
    let term = tantivy::Term::from_field_text(field, text);
    SearchQuery {
        inner: Box::new(
            tantivy::query::TermQuery::new(term, tantivy::schema::IndexRecordOption::WithFreqs),
        ),
    }
}

/// `PhraseQuery::new` of the words as terms of the field, in order. It
/// panics on fewer than two terms.
#[verifier::external_body]
fn phrase_query(field: tantivy::schema::Field, words: &Vec<String>) -> (r: SearchQuery)
    requires
        words.len() >= 2,
    ensures
        query_shape(r) == QueryShape::One(
            QueryLeaf::Phrase(field_number(field), words@.map_values(|w: String| w@)),
        ),
{
    let terms = words.iter().map(|w| tantivy::Term::from_field_text(field, w)).collect();
    SearchQuery { inner: Box::new(tantivy::query::PhraseQuery::new(terms)) }
}

/// `BooleanQuery::new` with each query as a `Should` clause: any may match.
#[verifier::external_body]
fn any_of(queries: Vec<SearchQuery>) -> (r: SearchQuery)
    requires
        forall|i: int| 0 <= i < queries.len() ==> query_shape(#[trigger] queries[i]) is One,
    ensures
        query_shape(r) == QueryShape::AnyOf(
            queries@.map_values(|q: SearchQuery| query_shape(q)->One_0),
        ),
{
    let clauses = queries.into_iter().map(|q| (tantivy::query::Occur::Should, q.inner)).collect();
    SearchQuery { inner: Box::new(tantivy::query::BooleanQuery::new(clauses)) }
}

/// The query of a (non-parsed) kind over one field.
pub open spec fn leaf_for(kind: QueryKindView, field: u32, q: Seq<char>) -> QueryLeaf {
    match kind {
        QueryKindView::Parsed => QueryLeaf::Parsed(seq![field], q),
        QueryKindView::Regex => QueryLeaf::Regex(field, q),
        QueryKindView::Term => QueryLeaf::Term(field, q),
        QueryKindView::Phrase(words) => QueryLeaf::Phrase(field, words),
    }
}

/// The query a plan builds over the fields: a parsed query over all of them
/// as default fields; else the kind's query over the single field, or one
/// per field, any of which may match.
pub open spec fn planned_shape(plan: QueryPlanView, fields: Seq<u32>, q: Seq<char>) -> QueryShape {
    match plan.kind {
        QueryKindView::Parsed => QueryShape::One(QueryLeaf::Parsed(fields, q)),
        _ => if plan.single_field {
            QueryShape::One(leaf_for(plan.kind, fields[0], q))
        } else {
            QueryShape::AnyOf(Seq::new(fields.len(), |i: int| leaf_for(plan.kind, fields[i], q)))
        },
    }
}

/// Build a full-text query from a query string and mode over the search
/// fields of an index. Errors: an empty query string (or, for `phrase`, one
/// with no words), an unknown mode, or a query the parser or the regular
/// expression compiler refuses. A phrase needs at least two words, and a
/// parsed query fields of the index's schema.
pub fn build_query(
    index: &tantivy::Index,
    search_fields: &Vec<tantivy::schema::Field>,
    query_str: &str,
    mode: &str,
) -> (r: Result<SearchQuery, QueryBuildError>)
    requires
        query_str@.len() > 0 && mode@ == "default"@ ==> fields_in_index(*index, search_fields@),
        mode@ == "phrase"@ ==> spec_words(query_str@).len() != 1,
    ensures
        match spec_plan_query(search_fields.len(), query_str@, mode@) {
            Err(e) => r matches Err(x) && x@ == e,
            Ok(plan) => match r {
                Ok(q) => query_shape(q) == planned_shape(
                    plan,
                    field_numbers(search_fields@),
                    query_str@,
                ),
                Err(x) => x@ is ParseError && (plan.kind is Parsed || (plan.kind is Regex
                    && !regex_compiles(query_str@))),
            },
        },
        spec_plan_query(search_fields.len(), query_str@, mode@) matches Ok(plan) && (
        plan.kind is Term || plan.kind is Phrase || (plan.kind is Regex && regex_compiles(
            query_str@,
        ))) ==> r is Ok,
{
    let plan = match plan_query(search_fields.len(), query_str, mode) {
        Ok(p) => p,
        Err(e) => return Err(e),
    };
    proof {
        reveal_strlit("default");
        reveal_strlit("phrase");
    }
    if let QueryKind::Parsed = plan.kind {
        return match parse_default_query(index, search_fields, query_str) {
            Ok(q) => Ok(q),
            Err(msg) => Err(QueryBuildError::ParseError(msg)),
        };
    }
    let ghost fields = field_numbers(search_fields@);
    let mut subqueries: Vec<SearchQuery> = Vec::new();
    let mut i: usize = 0;
    while i < search_fields.len()
        invariant
            i <= search_fields.len(),
            subqueries.len() == i,
            spec_plan_query(search_fields.len(), query_str@, mode@) == Ok::<
                QueryPlanView,
                QueryBuildErrorView,
            >(plan@),
            !(plan@.kind is Parsed),
            plan@.kind is Phrase ==> plan@.kind->Phrase_0.len() >= 2,
            !plan@.single_field || i == 0,
            plan@.kind is Regex && i > 0 ==> regex_compiles(query_str@),
            plan@.single_field == (search_fields.len() == 1),
            fields == field_numbers(search_fields@),
            forall|j: int|
                0 <= j < i ==> query_shape(#[trigger] subqueries[j]) == QueryShape::One(
                    leaf_for(plan@.kind, fields[j], query_str@),
                ),
        decreases search_fields.len() - i,
    {
        let field = search_fields[i];
        let q = match &plan.kind {
            QueryKind::Regex => match regex_query(query_str, field) {
                Ok(q) => q,
                Err(msg) => return Err(QueryBuildError::ParseError(msg)),
            },
            QueryKind::Term => term_query(field, query_str),
            QueryKind::Phrase(words) => phrase_query(field, words),
            QueryKind::Parsed => vstd::pervasive::unreached(),
        };
        assert(fields[i as int] == field_number(search_fields@[i as int]));
        if plan.single_field {
            return Ok(q);
        }
        subqueries.push(q);
        i = i + 1;
    }
    let ghost subs = subqueries@;
    let r = any_of(subqueries);
    proof {
        assert(subs.map_values(|q: SearchQuery| query_shape(q)->One_0) =~= Seq::new(
            fields.len(),
            |j: int| leaf_for(plan@.kind, fields[j], query_str@),
        ));
    }
    Ok(r)
}

} // verus!
