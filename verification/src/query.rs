//! Sourcegraph-style query strings: tokens, filters and the parsed query.
use vstd::prelude::*;
use vstd::string::*;
use crate::text::{
    chars_of, eq_str, find_char, first_index_of, join, join_strings, push_char, slice_chars,
    starts_with, starts_with_str, string_from_chars, strings_view, trim_char, trim_char_chars,
};

verus! {

/// Search type determined by the `type:` filter.
#[derive(Debug, Clone, Copy, PartialEq, Eq, Structural)]
pub enum SearchType {
    Code,
    Diff,
    Commit,
    Symbol,
}

/// Output selector determined by the `select:` filter.
#[derive(Debug, Clone, PartialEq)]
pub enum SelectType {
    Repo,
    File,
    Symbol,
    SymbolKind(String),
}

/// Mathematical value of a `SelectType`.
pub enum SelectView {
    Repo,
    File,
    Symbol,
    SymbolKind(Seq<char>),
}

impl View for SelectType {
    type V = SelectView;

    open spec fn view(&self) -> SelectView {
        match self {
            SelectType::Repo => SelectView::Repo,
            SelectType::File => SelectView::File,
            SelectType::Symbol => SelectView::Symbol,
            SelectType::SymbolKind(k) => SelectView::SymbolKind(k@),
        }
    }
}

/// Parsed filters from the query string.
#[derive(Debug, Clone, Default)]
pub struct Filters {
    pub repo: Option<String>,
    pub file: Option<String>,
    pub neg_file: Option<String>,
    pub lang: Option<String>,
    pub rev: Option<String>,
    pub count: Option<u32>,
    pub case_sensitive: bool,
    pub author: Option<String>,
    pub before: Option<String>,
    pub after: Option<String>,
    pub message: Option<String>,
    pub select: Option<SelectType>,
    pub calls: Option<String>,
    pub calledby: Option<String>,
    pub returns: Option<String>,
}

/// Mathematical value of `Filters`.
pub struct FiltersView {
    pub repo: Option<Seq<char>>,
    pub file: Option<Seq<char>>,
    pub neg_file: Option<Seq<char>>,
    pub lang: Option<Seq<char>>,
    pub rev: Option<Seq<char>>,
    pub count: Option<u32>,
    pub case_sensitive: bool,
    pub author: Option<Seq<char>>,
    pub before: Option<Seq<char>>,
    pub after: Option<Seq<char>>,
    pub message: Option<Seq<char>>,
    pub select: Option<SelectView>,
    pub calls: Option<Seq<char>>,
    pub calledby: Option<Seq<char>>,
    pub returns: Option<Seq<char>>,
}

/// View of an optional string.
pub open spec fn opt_view(o: Option<String>) -> Option<Seq<char>> {
    match o {
        Some(s) => Some(s@),
        None => None,
    }
}

/// View of an optional select modifier.
pub open spec fn select_opt_view(o: Option<SelectType>) -> Option<SelectView> {
    match o {
        Some(s) => Some(s@),
        None => None,
    }
}

impl View for Filters {
    type V = FiltersView;

    open spec fn view(&self) -> FiltersView {
        FiltersView {
            repo: opt_view(self.repo),
            file: opt_view(self.file),
            neg_file: opt_view(self.neg_file),
            lang: opt_view(self.lang),
            rev: opt_view(self.rev),
            count: self.count,
            case_sensitive: self.case_sensitive,
            author: opt_view(self.author),
            before: opt_view(self.before),
            after: opt_view(self.after),
            message: opt_view(self.message),
            select: select_opt_view(self.select),
            calls: opt_view(self.calls),
            calledby: opt_view(self.calledby),
            returns: opt_view(self.returns),
        }
    }
}

/// The filters of a query with no filter given.
pub open spec fn empty_filters() -> FiltersView {
    FiltersView {
        repo: None,
        file: None,
        neg_file: None,
        lang: None,
        rev: None,
        count: None,
        case_sensitive: false,
        author: None,
        before: None,
        after: None,
        message: None,
        select: None,
        calls: None,
        calledby: None,
        returns: None,
    }
}

fn new_filters() -> (f: Filters)
    ensures
        f@ == empty_filters(),
{
    Filters {
        repo: None,
        file: None,
        neg_file: None,
        lang: None,
        rev: None,
        count: None,
        case_sensitive: false,
        author: None,
        before: None,
        after: None,
        message: None,
        select: None,
        calls: None,
        calledby: None,
        returns: None,
    }
}

/// Result of parsing a Sourcegraph-style query string.
#[derive(Debug, Clone)]
pub struct ParsedQuery {
    pub search_pattern: String,
    pub search_type: SearchType,
    pub filters: Filters,
}

/// Mathematical value of a `ParsedQuery`.
pub struct ParsedQueryView {
    pub search_pattern: Seq<char>,
    pub search_type: SearchType,
    pub filters: FiltersView,
}

impl View for ParsedQuery {
    type V = ParsedQueryView;

    open spec fn view(&self) -> ParsedQueryView {
        ParsedQueryView {
            search_pattern: self.search_pattern@,
            search_type: self.search_type,
            filters: self.filters@,
        }
    }
}

/// SQL query ready for execution, with bound parameters.
#[derive(Debug, Clone)]
pub struct TranslatedQuery {
    pub sql: String,
    pub params: Vec<String>,
    pub search_type: SearchType,
}

/// Mathematical value of a `TranslatedQuery`.
pub struct TranslatedView {
    pub sql: Seq<char>,
    pub params: Seq<Seq<char>>,
    pub search_type: SearchType,
}

impl View for TranslatedQuery {
    type V = TranslatedView;

    open spec fn view(&self) -> TranslatedView {
        TranslatedView {
            sql: self.sql@,
            params: strings_view(self.params@),
            search_type: self.search_type,
        }
    }
}

/// A single row of search results.
#[derive(Debug, Clone)]
pub struct SearchResultRow {
    pub columns: Vec<(String, String)>,
}

/// Results from executing a search query.
#[derive(Debug, Clone)]
pub struct SearchResults {
    pub search_type: SearchType,
    pub rows: Vec<SearchResultRow>,
}

/// Why a query could not be parsed or translated.
#[derive(Debug, Clone)]
pub enum QueryError {
    /// `type:` names no known search type.
    UnknownSearchType(String),
    /// `count:` is not an unsigned 32-bit integer.
    InvalidCount(String),
    /// `select:` names no known output selector.
    UnknownSelect(String),
    /// A `-key:` negation on a filter other than `file:`.
    NegationUnsupported(String),
    /// The search of this type needs a pattern (or, for some types, a filter).
    MissingPattern(SearchType),
}

/// Mathematical value of a `QueryError`.
pub enum QueryErrorView {
    UnknownSearchType(Seq<char>),
    InvalidCount(Seq<char>),
    UnknownSelect(Seq<char>),
    NegationUnsupported(Seq<char>),
    MissingPattern(SearchType),
}

impl View for QueryError {
    type V = QueryErrorView;

    open spec fn view(&self) -> QueryErrorView {
        match self {
            QueryError::UnknownSearchType(s) => QueryErrorView::UnknownSearchType(s@),
            QueryError::InvalidCount(s) => QueryErrorView::InvalidCount(s@),
            QueryError::UnknownSelect(s) => QueryErrorView::UnknownSelect(s@),
            QueryError::NegationUnsupported(s) => QueryErrorView::NegationUnsupported(s@),
            QueryError::MissingPattern(t) => QueryErrorView::MissingPattern(*t),
        }
    }
}

/// The message that describes an error to the user.
pub open spec fn error_message(e: QueryErrorView) -> Seq<char> {
    match e {
        QueryErrorView::UnknownSearchType(v) => "Unknown search type '"@ + v
            + "'. Valid types: symbol, diff, commit"@,
        QueryErrorView::InvalidCount(v) => "count: must be a positive integer, got '"@ + v + "'"@,
        QueryErrorView::UnknownSelect(v) => "Unknown select type '"@ + v
            + "'. Valid: repo, file, symbol, symbol.<kind>"@,
        QueryErrorView::NegationUnsupported(k) => "Negation not supported for '"@ + k + ":'"@,
        QueryErrorView::MissingPattern(t) => match t {
            SearchType::Code => "Code search requires a search pattern"@,
            SearchType::Diff => "Diff search requires a search pattern"@,
            SearchType::Commit =>
                "Commit search requires a search pattern or at least one filter (author:, before:, after:, message:)"@,
            SearchType::Symbol =>
                "Symbol search requires a search pattern or filter (lang:, file:, select:symbol.<kind>, returns:)"@,
        },
    }
}

impl QueryError {
    /// The message that describes this error.
    pub fn message(&self) -> (m: String)
        ensures
            m@ == error_message(self@),
    {
        match self {
            QueryError::UnknownSearchType(v) => {
                let mut m = "Unknown search type '".to_owned();
                m.append(v.as_str());
                m.append("'. Valid types: symbol, diff, commit");
                m
            },
            QueryError::InvalidCount(v) => {
                let mut m = "count: must be a positive integer, got '".to_owned();
                m.append(v.as_str());
                m.append("'");
                m
            },
            QueryError::UnknownSelect(v) => {
                let mut m = "Unknown select type '".to_owned();
                m.append(v.as_str());
                m.append("'. Valid: repo, file, symbol, symbol.<kind>");
                m
            },
            QueryError::NegationUnsupported(k) => {
                let mut m = "Negation not supported for '".to_owned();
                m.append(k.as_str());
                m.append(":'");
                m
            },
            QueryError::MissingPattern(t) => match t {
                SearchType::Code => "Code search requires a search pattern".to_owned(),
                SearchType::Diff => "Diff search requires a search pattern".to_owned(),
                SearchType::Commit =>
                    "Commit search requires a search pattern or at least one filter (author:, before:, after:, message:)".to_owned(),
                SearchType::Symbol =>
                    "Symbol search requires a search pattern or filter (lang:, file:, select:symbol.<kind>, returns:)".to_owned(),
            },
        }
    }
}

// ---------------------------------------------------------------------------
// Tokenizer
// ---------------------------------------------------------------------------

/// Characters that separate tokens outside quotes.
pub open spec fn is_separator(c: char) -> bool {
    c == ' ' || c == '\t'
}

/// The token being read, as a list of at most one finished token.
pub open spec fn flush(cur: Seq<char>) -> Seq<Seq<char>> {
    if cur.len() > 0 {
        seq![cur]
    } else {
        Seq::empty()
    }
}

/// A quoted token as it is emitted: the body between double quotes.
pub open spec fn quoted(body: Seq<char>) -> Seq<char> {
    seq!['"'] + body + seq!['"']
}

/// Tokens of `s`, where `cur` holds the characters read so far of the current
/// token and `in_quote` tells whether reading is inside a quoted string.
/// Outside quotes, spaces and tabs end a token and `"` starts a quoted token;
/// inside quotes everything up to the next `"` (or the end) belongs to it.
pub open spec fn tokens_from(s: Seq<char>, cur: Seq<char>, in_quote: bool) -> Seq<Seq<char>>
    decreases s.len(),
{
    if in_quote {
        if s.len() == 0 {
            seq![quoted(cur)]
        } else if s[0] == '"' {
            seq![quoted(cur)] + tokens_from(s.drop_first(), Seq::empty(), false)
        } else {
            tokens_from(s.drop_first(), cur.push(s[0]), true)
        }
    } else {
        if s.len() == 0 {
            flush(cur)
        } else if s[0] == '"' {
            flush(cur) + tokens_from(s.drop_first(), Seq::empty(), true)
        } else if is_separator(s[0]) {
            flush(cur) + tokens_from(s.drop_first(), Seq::empty(), false)
        } else {
            tokens_from(s.drop_first(), cur.push(s[0]), false)
        }
    }
}

/// The tokens of a query string.
pub open spec fn spec_tokenize(s: Seq<char>) -> Seq<Seq<char>> {
    tokens_from(s, Seq::empty(), false)
}

proof fn lemma_strings_view_push(v: Seq<String>, s: String)
    ensures
        strings_view(v.push(s)) == strings_view(v).push(s@),
{
    assert(strings_view(v.push(s)) =~= strings_view(v).push(s@));
}

/// A token read outside quotes: no separator and no double quote in it.
pub open spec fn plain_token(t: Seq<char>) -> bool {
    forall|i: int| 0 <= i < t.len() ==> !is_separator(#[trigger] t[i]) && t[i] != '"'
}

/// A quoted token: double quotes around a body that holds none.
pub open spec fn quoted_token(t: Seq<char>) -> bool {
    &&& t.len() >= 2
    &&& t[0] == '"'
    &&& t[t.len() - 1] == '"'
    &&& forall|i: int| 0 < i < t.len() - 1 ==> #[trigger] t[i] != '"'
}

/// A token as the tokenizer emits it: not empty, and either plain or quoted.
pub open spec fn well_formed_token(t: Seq<char>) -> bool {
    t.len() > 0 && (plain_token(t) || quoted_token(t))
}

proof fn lemma_all_well_formed_concat(a: Seq<Seq<char>>, b: Seq<Seq<char>>)
    requires
        forall|k: int| 0 <= k < a.len() ==> well_formed_token(#[trigger] a[k]),
        forall|k: int| 0 <= k < b.len() ==> well_formed_token(#[trigger] b[k]),
    ensures
        forall|k: int| 0 <= k < (a + b).len() ==> well_formed_token(#[trigger] (a + b)[k]),
{
    assert forall|k: int| 0 <= k < (a + b).len() implies well_formed_token(#[trigger] (a + b)[k]) by {
        if k < a.len() {
            assert((a + b)[k] == a[k]);
        } else {
            assert((a + b)[k] == b[k - a.len()]);
        }
    }
}

proof fn lemma_flush_well_formed(cur: Seq<char>)
    requires
        plain_token(cur),
    ensures
        forall|k: int| 0 <= k < flush(cur).len() ==> well_formed_token(#[trigger] flush(cur)[k]),
{
    if cur.len() > 0 {
        assert(flush(cur)[0] == cur);
    }
}

proof fn lemma_tokens_from_well_formed(s: Seq<char>, cur: Seq<char>, in_quote: bool)
    requires
        in_quote ==> forall|i: int| 0 <= i < cur.len() ==> #[trigger] cur[i] != '"',
        !in_quote ==> plain_token(cur),
    ensures
        forall|k: int|
            0 <= k < tokens_from(s, cur, in_quote).len() ==> well_formed_token(
                #[trigger] tokens_from(s, cur, in_quote)[k],
            ),
    decreases s.len(),
{
    let e = Seq::<char>::empty();
    let r = tokens_from(s, cur, in_quote);
    if in_quote {
        let q = quoted(cur);
        assert(quoted_token(q)) by {
            assert forall|i: int| 0 < i < q.len() - 1 implies #[trigger] q[i] != '"' by {
                assert(q[i] == cur[i - 1]);
            }
        }
        let one = seq![q];
        assert(one[0] == q);
        assert(forall|k: int| 0 <= k < one.len() ==> well_formed_token(#[trigger] one[k]));
        if s.len() == 0 {
            assert(r == one);
        } else if s[0] == '"' {
            lemma_tokens_from_well_formed(s.drop_first(), e, false);
            lemma_all_well_formed_concat(one, tokens_from(s.drop_first(), e, false));
            assert(r == one + tokens_from(s.drop_first(), e, false));
        } else {
            let c2 = cur.push(s[0]);
            assert forall|i: int| 0 <= i < c2.len() implies #[trigger] c2[i] != '"' by {
                if i < cur.len() {
                    assert(c2[i] == cur[i]);
                }
            }
            lemma_tokens_from_well_formed(s.drop_first(), c2, true);
            assert(r == tokens_from(s.drop_first(), c2, true));
        }
    } else {
        lemma_flush_well_formed(cur);
        if s.len() == 0 {
            assert(r == flush(cur));
        } else if s[0] == '"' {
            lemma_tokens_from_well_formed(s.drop_first(), e, true);
            lemma_all_well_formed_concat(flush(cur), tokens_from(s.drop_first(), e, true));
            assert(r == flush(cur) + tokens_from(s.drop_first(), e, true));
        } else if is_separator(s[0]) {
            lemma_tokens_from_well_formed(s.drop_first(), e, false);
            lemma_all_well_formed_concat(flush(cur), tokens_from(s.drop_first(), e, false));
            assert(r == flush(cur) + tokens_from(s.drop_first(), e, false));
        } else {
            let c2 = cur.push(s[0]);
            assert(plain_token(c2)) by {
                assert forall|i: int| 0 <= i < c2.len() implies !is_separator(#[trigger] c2[i])
                    && c2[i] != '"' by {
                    if i < cur.len() {
                        assert(c2[i] == cur[i]);
                    }
                }
            }
            lemma_tokens_from_well_formed(s.drop_first(), c2, false);
            assert(r == tokens_from(s.drop_first(), c2, false));
        }
    }
}

/// Every token is non-empty and is either free of spaces, tabs and double
/// quotes, or a double-quoted string whose body holds no double quote.
pub proof fn law_tokens_are_well_formed(input: Seq<char>)
    ensures
        forall|k: int|
            0 <= k < spec_tokenize(input).len() ==> well_formed_token(
                #[trigger] spec_tokenize(input)[k],
            ),
{
    lemma_tokens_from_well_formed(input, Seq::empty(), false);
}

/// Split input into tokens, respecting quoted strings.
///
/// - Whitespace (space, tab) separates tokens
/// - `"foo bar"` is a single token (quotes preserved in output)
/// - An unclosed quote runs to the end of the input
pub fn tokenize(input: &str) -> (tokens: Vec<String>)
    ensures
        strings_view(tokens@) == spec_tokenize(input@),
{
    let s = chars_of(input);
    let mut tokens: Vec<String> = Vec::new();
    let mut cur: Vec<char> = Vec::new();
    let mut in_quote = false;
    let mut i: usize = 0;
    assert(s@.skip(0) =~= s@);
    while i < s.len()
        invariant
            i <= s.len(),
            s@ == input@,
            strings_view(tokens@) + tokens_from(s@.skip(i as int), cur@, in_quote)
                == spec_tokenize(input@),
        decreases s.len() - i,
    {
        let c = s[i];
        let ghost rest = s@.skip(i as int);
        let ghost before = strings_view(tokens@);
        assert(rest[0] == c);
        assert(rest.drop_first() =~= s@.skip(i + 1));
        if in_quote {
            if c == '"' {
                let ghost cb = cur@;
                let mut t = String::new();
                push_char(&mut t, '"');
                t.append(string_from_chars(&cur).as_str());
                push_char(&mut t, '"');
                assert(t@ =~= quoted(cb));
                proof {
                    lemma_strings_view_push(tokens@, t);
                }
                tokens.push(t);
                cur = Vec::new();
                in_quote = false;
                assert(before + (seq![quoted(cb)] + tokens_from(
                    s@.skip(i + 1),
                    Seq::empty(),
                    false,
                )) =~= strings_view(tokens@) + tokens_from(s@.skip(i + 1), cur@, in_quote));
            } else {
                cur.push(c);
            }
        } else {
            if c == '"' {
                let ghost f = flush(cur@);
                if cur.len() > 0 {
                    let t = string_from_chars(&cur);
                    proof {
                        lemma_strings_view_push(tokens@, t);
                    }
                    tokens.push(t);
                }
                assert(before + f =~= strings_view(tokens@));
                cur = Vec::new();
                in_quote = true;
                assert(before + (f + tokens_from(s@.skip(i + 1), Seq::empty(), true))
                    =~= strings_view(tokens@) + tokens_from(s@.skip(i + 1), cur@, in_quote));
            } else if c == ' ' || c == '\t' {
                let ghost f = flush(cur@);
                if cur.len() > 0 {
                    let t = string_from_chars(&cur);
                    proof {
                        lemma_strings_view_push(tokens@, t);
                    }
                    tokens.push(t);
                }
                assert(before + f =~= strings_view(tokens@));
                cur = Vec::new();
                assert(before + (f + tokens_from(s@.skip(i + 1), Seq::empty(), false))
                    =~= strings_view(tokens@) + tokens_from(s@.skip(i + 1), cur@, in_quote));
            } else {
                cur.push(c);
            }
        }
        i = i + 1;
    }
    assert(s@.skip(i as int).len() == 0);
    if in_quote {
        let mut t = String::new();
        push_char(&mut t, '"');
        t.append(string_from_chars(&cur).as_str());
        push_char(&mut t, '"');
        assert(t@ =~= quoted(cur@));
        proof {
            lemma_strings_view_push(tokens@, t);
        }
        tokens.push(t);
    } else if cur.len() > 0 {
        let t = string_from_chars(&cur);
        proof {
            lemma_strings_view_push(tokens@, t);
        }
        tokens.push(t);
    }
    proof {
        assert(strings_view(tokens@) =~= spec_tokenize(input@));
    }
    tokens
}


// ---------------------------------------------------------------------------
// Values of filters
// ---------------------------------------------------------------------------

/// Whether every character is an ASCII decimal digit.
pub open spec fn all_digits(s: Seq<char>) -> bool {
    forall|i: int| 0 <= i < s.len() ==> '0' <= #[trigger] s[i] <= '9'
}

/// Numeric value of a string of decimal digits.
pub open spec fn digits_value(s: Seq<char>) -> nat
    decreases s.len(),
{
    if s.len() == 0 {
        0
    } else {
        digits_value(s.drop_last()) * 10 + ((s.last() as nat) - 48) as nat
    }
}

/// `str::parse::<u32>`: an optional `+`, then one or more decimal digits whose
/// value fits in 32 bits.
pub open spec fn spec_parse_u32(s: Seq<char>) -> Option<u32> {
    let d = if s.len() > 0 && s[0] == '+' {
        s.drop_first()
    } else {
        s
    };
    if d.len() > 0 && all_digits(d) && digits_value(d) <= u32::MAX {
        Some(digits_value(d) as u32)
    } else {
        None
    }
}

/// Parses an unsigned 32-bit decimal integer as `str::parse::<u32>` does.
pub fn parse_u32(v: &[char]) -> (r: Option<u32>)
    ensures
        r == spec_parse_u32(v@),
{
    let start: usize = if v.len() > 0 && v[0] == '+' {
        1
    } else {
        0
    };
    let ghost d = if v@.len() > 0 && v@[0] == '+' {
        v@.drop_first()
    } else {
        v@
    };
    assert(d =~= v@.skip(start as int));
    if start >= v.len() {
        return None;
    }
    let cap: u64 = 0x1_0000_0000;
    let mut acc: u64 = 0;
    let mut i: usize = start;
    while i < v.len()
        invariant
            start <= i <= v.len(),
            d == v@.skip(start as int),
            d == (if v@.len() > 0 && v@[0] == '+' {
                v@.drop_first()
            } else {
                v@
            }),
            d.len() > 0,
            cap == u32::MAX + 1,
            all_digits(d.take(i - start)),
            acc == if digits_value(d.take(i - start)) < cap {
                digits_value(d.take(i - start))
            } else {
                cap as nat
            },
        decreases v.len() - i,
    {
        let c = v[i];
        if c < '0' || c > '9' {
            assert(d[i - start] == c);
            return None;
        }
        let dg: u64 = (c as u32 - 48) as u64;
        let ghost prev = d.take(i - start);
        let ghost next = d.take(i - start + 1);
        assert(next.drop_last() =~= prev);
        assert(next.last() == c);
        if acc >= cap {
            acc = cap;
            assert(digits_value(next) >= cap) by (nonlinear_arith)
                requires
                    digits_value(prev) >= cap,
                    digits_value(next) == digits_value(prev) * 10 + dg,
            ;
        } else {
            let n = acc * 10 + dg;
            if n >= cap {
                acc = cap;
            } else {
                acc = n;
            }
        }
        i = i + 1;
        assert forall|k: int| 0 <= k < d.take(i - start).len() implies '0' <= #[trigger] d.take(
            i - start,
        )[k] <= '9' by {
            if k < i - 1 - start {
                assert(d.take(i - start)[k] == prev[k]);
            }
        }
    }
    assert(d.take(i - start) =~= d);
    if acc >= cap {
        None
    } else {
        Some(acc as u32)
    }
}

/// The output selector named by a `select:` value.
pub open spec fn spec_parse_select(v: Seq<char>) -> Option<SelectView> {
    if v == "repo"@ {
        Some(SelectView::Repo)
    } else if v == "file"@ {
        Some(SelectView::File)
    } else if v == "symbol"@ {
        Some(SelectView::Symbol)
    } else if starts_with(v, "symbol."@) {
        Some(SelectView::SymbolKind(v.skip("symbol."@.len() as int)))
    } else {
        None
    }
}

/// Parses the value of a `select:` filter.
pub fn parse_select(value: &[char]) -> (r: Result<SelectType, QueryError>)
    ensures
        match r {
            Ok(s) => spec_parse_select(value@) == Some(s@),
            Err(e) => spec_parse_select(value@) is None && e@ == QueryErrorView::UnknownSelect(
                value@,
            ),
        },
{
    if eq_str(value, "repo") {
        Ok(SelectType::Repo)
    } else if eq_str(value, "file") {
        Ok(SelectType::File)
    } else if eq_str(value, "symbol") {
        Ok(SelectType::Symbol)
    } else if starts_with_str(value, "symbol.") {
        let n = "symbol.".unicode_len();
        let kind = slice_chars(value, n, value.len());
        assert(kind@ =~= value@.skip(n as int));
        Ok(SelectType::SymbolKind(string_from_chars(&kind)))
    } else {
        Err(QueryError::UnknownSelect(string_from_chars(value)))
    }
}

// ---------------------------------------------------------------------------
// Parser
// ---------------------------------------------------------------------------

/// What the parser has gathered after some tokens.
pub struct ParseStateView {
    pub filters: FiltersView,
    pub search_type: SearchType,
    pub terms: Seq<Seq<char>>,
}

/// The state before any token.
pub open spec fn initial_state() -> ParseStateView {
    ParseStateView { filters: empty_filters(), search_type: SearchType::Code, terms: Seq::empty() }
}

/// `st` with one more search term.
pub open spec fn add_term(st: ParseStateView, term: Seq<char>) -> ParseStateView {
    ParseStateView { terms: st.terms.push(term), ..st }
}

/// `st` with other filters.
pub open spec fn with_filters(st: ParseStateView, f: FiltersView) -> ParseStateView {
    ParseStateView { filters: f, ..st }
}

/// The filters after `repo:value`: `repo:NAME@REV` names the repository
/// `NAME` and the revision `REV` (split at the first `@`; an empty `REV`
/// leaves the revision as it was).
pub open spec fn spec_repo_filter(f: FiltersView, value: Seq<char>) -> FiltersView {
    match first_index_of(value, '@') {
        Some(i) => if i + 1 < value.len() {
            FiltersView { repo: Some(value.take(i)), rev: Some(value.skip(i + 1)), ..f }
        } else {
            FiltersView { repo: Some(value.take(i)), ..f }
        },
        None => FiltersView { repo: Some(value), ..f },
    }
}

/// The effect of a non-negated `key:value` token.
pub open spec fn apply_key(
    st: ParseStateView,
    key: Seq<char>,
    value: Seq<char>,
    token: Seq<char>,
) -> Result<ParseStateView, QueryErrorView> {
    let f = st.filters;
    if key == "repo"@ {
        Ok(with_filters(st, spec_repo_filter(f, value)))
    } else if key == "file"@ {
        Ok(with_filters(st, FiltersView { file: Some(value), ..f }))
    } else if key == "lang"@ || key == "language"@ || key == "l"@ {
        Ok(with_filters(st, FiltersView { lang: Some(value), ..f }))
    } else if key == "type"@ {
        if value == "code"@ {
            Ok(ParseStateView { search_type: SearchType::Code, ..st })
        } else if value == "diff"@ {
            Ok(ParseStateView { search_type: SearchType::Diff, ..st })
        } else if value == "commit"@ {
            Ok(ParseStateView { search_type: SearchType::Commit, ..st })
        } else if value == "symbol"@ {
            Ok(ParseStateView { search_type: SearchType::Symbol, ..st })
        } else {
            Err(QueryErrorView::UnknownSearchType(value))
        }
    } else if key == "rev"@ || key == "revision"@ {
        Ok(with_filters(st, FiltersView { rev: Some(value), ..f }))
    } else if key == "count"@ {
        match spec_parse_u32(value) {
            Some(n) => Ok(with_filters(st, FiltersView { count: Some(n), ..f })),
            None => Err(QueryErrorView::InvalidCount(value)),
        }
    } else if key == "case"@ {
        Ok(with_filters(st, FiltersView { case_sensitive: value == "yes"@, ..f }))
    } else if key == "author"@ {
        Ok(with_filters(st, FiltersView { author: Some(value), ..f }))
    } else if key == "before"@ {
        Ok(with_filters(st, FiltersView { before: Some(value), ..f }))
    } else if key == "after"@ {
        Ok(with_filters(st, FiltersView { after: Some(value), ..f }))
    } else if key == "message"@ {
        Ok(with_filters(st, FiltersView { message: Some(value), ..f }))
    } else if key == "select"@ {
        match spec_parse_select(value) {
            Some(sel) => Ok(with_filters(st, FiltersView { select: Some(sel), ..f })),
            None => Err(QueryErrorView::UnknownSelect(value)),
        }
    } else if key == "calls"@ {
        Ok(with_filters(st, FiltersView { calls: Some(value), ..f }))
    } else if key == "calledby"@ {
        Ok(with_filters(st, FiltersView { calledby: Some(value), ..f }))
    } else if key == "returns"@ {
        Ok(with_filters(st, FiltersView { returns: Some(value), ..f }))
    } else {
        // Not a known filter: the whole token is a search term.
        Ok(add_term(st, token))
    }
}

/// Whether a token starts with the negation sign.
pub open spec fn is_negated(token: Seq<char>) -> bool {
    token.len() > 0 && token[0] == '-'
}

/// The token without its negation sign.
pub open spec fn unnegated(token: Seq<char>) -> Seq<char> {
    if is_negated(token) {
        token.subrange(1, token.len() as int)
    } else {
        token
    }
}

/// The effect of one token: a filter when it holds a `:`, a search term otherwise.
pub open spec fn parse_step(st: ParseStateView, token: Seq<char>) -> Result<
    ParseStateView,
    QueryErrorView,
> {
    let rest = unnegated(token);
    match first_index_of(rest, ':') {
        None => Ok(add_term(st, trim_char(token, '"'))),
        Some(k) => {
            let key = rest.subrange(0, k);
            let value = rest.subrange(k + 1, rest.len() as int);
            if is_negated(token) {
                if key == "file"@ {
                    Ok(with_filters(st, FiltersView { neg_file: Some(value), ..st.filters }))
                } else {
                    Err(QueryErrorView::NegationUnsupported(key))
                }
            } else {
                apply_key(st, key, value, token)
            }
        },
    }
}

/// The state after all `tokens`, or the first error.
pub open spec fn parse_tokens(st: ParseStateView, tokens: Seq<Seq<char>>) -> Result<
    ParseStateView,
    QueryErrorView,
>
    decreases tokens.len(),
{
    if tokens.len() == 0 {
        Ok(st)
    } else {
        match parse_step(st, tokens[0]) {
            Ok(next) => parse_tokens(next, tokens.drop_first()),
            Err(e) => Err(e),
        }
    }
}

/// The parsed query for an input string, or why it is rejected.
pub open spec fn spec_parse_query(input: Seq<char>) -> Result<ParsedQueryView, QueryErrorView> {
    match parse_tokens(initial_state(), spec_tokenize(input)) {
        Ok(st) => Ok(
            ParsedQueryView {
                search_pattern: join(st.terms, " "@),
                search_type: st.search_type,
                filters: st.filters,
            },
        ),
        Err(e) => Err(e),
    }
}

struct ParseState {
    filters: Filters,
    search_type: SearchType,
    terms: Vec<String>,
}

impl View for ParseState {
    type V = ParseStateView;

    closed spec fn view(&self) -> ParseStateView {
        ParseStateView {
            filters: self.filters@,
            search_type: self.search_type,
            terms: strings_view(self.terms@),
        }
    }
}

fn apply_key_exec(st: &mut ParseState, key: &[char], value: &[char], token: &String) -> (r: Result<
    (),
    QueryError,
>)
    ensures
        match r {
            Ok(_) => apply_key(old(st)@, key@, value@, token@) == Ok::<
                ParseStateView,
                QueryErrorView,
            >(final(st)@),
            Err(e) => apply_key(old(st)@, key@, value@, token@) == Err::<
                ParseStateView,
                QueryErrorView,
            >(e@),
        },
{
    if eq_str(key, "repo") {
        match find_char(value, '@') {
            Some(i) => {
                st.filters.repo = Some(string_from_chars(slice_chars(value, 0, i).as_slice()));
                if i + 1 < value.len() {
                    st.filters.rev = Some(string_from_chars(slice_chars(value, i + 1, value.len()).as_slice()));
                }
            },
            None => {
                st.filters.repo = Some(string_from_chars(value));
            },
        }
    } else if eq_str(key, "file") {
        st.filters.file = Some(string_from_chars(value));
    } else if eq_str(key, "lang") || eq_str(key, "language") || eq_str(key, "l") {
        st.filters.lang = Some(string_from_chars(value));
    } else if eq_str(key, "type") {
        if eq_str(value, "code") {
            st.search_type = SearchType::Code;
        } else if eq_str(value, "diff") {
            st.search_type = SearchType::Diff;
        } else if eq_str(value, "commit") {
            st.search_type = SearchType::Commit;
        } else if eq_str(value, "symbol") {
            st.search_type = SearchType::Symbol;
        } else {
            return Err(QueryError::UnknownSearchType(string_from_chars(value)));
        }
    } else if eq_str(key, "rev") || eq_str(key, "revision") {
        st.filters.rev = Some(string_from_chars(value));
    } else if eq_str(key, "count") {
        match parse_u32(value) {
            Some(n) => {
                st.filters.count = Some(n);
            },
            None => {
                return Err(QueryError::InvalidCount(string_from_chars(value)));
            },
        }
    } else if eq_str(key, "case") {
        st.filters.case_sensitive = eq_str(value, "yes");
    } else if eq_str(key, "author") {
        st.filters.author = Some(string_from_chars(value));
    } else if eq_str(key, "before") {
        st.filters.before = Some(string_from_chars(value));
    } else if eq_str(key, "after") {
        st.filters.after = Some(string_from_chars(value));
    } else if eq_str(key, "message") {
        st.filters.message = Some(string_from_chars(value));
    } else if eq_str(key, "select") {
        let sel = parse_select(value)?;
        st.filters.select = Some(sel);
    } else if eq_str(key, "calls") {
        st.filters.calls = Some(string_from_chars(value));
    } else if eq_str(key, "calledby") {
        st.filters.calledby = Some(string_from_chars(value));
    } else if eq_str(key, "returns") {
        st.filters.returns = Some(string_from_chars(value));
    } else {
        let t = token.clone();
        proof {
            lemma_strings_view_push(st.terms@, t);
        }
        st.terms.push(t);
    }
    Ok(())
}

fn parse_step_exec(st: &mut ParseState, token: &String) -> (r: Result<(), QueryError>)
    ensures
        match r {
            Ok(_) => parse_step(old(st)@, token@) == Ok::<ParseStateView, QueryErrorView>(
                final(st)@,
            ),
            Err(e) => parse_step(old(st)@, token@) == Err::<ParseStateView, QueryErrorView>(
                e@,
            ),
        },
{
    let tv = chars_of(token.as_str());
    let negated = tv.len() > 0 && tv[0] == '-';
    let rest = if negated {
        slice_chars(&tv, 1, tv.len())
    } else {
        slice_chars(&tv, 0, tv.len())
    };
    assert(rest@ =~= unnegated(tv@));
    match find_char(&rest, ':') {
        None => {
            let t = trim_char_chars(&tv, '"');
            let ts = string_from_chars(&t);
            proof {
                lemma_strings_view_push(st.terms@, ts);
            }
            st.terms.push(ts);
            Ok(())
        },
        Some(k) => {
            let key = slice_chars(&rest, 0, k);
            let value = slice_chars(&rest, k + 1, rest.len());
            if negated {
                if eq_str(&key, "file") {
                    st.filters.neg_file = Some(string_from_chars(&value));
                    Ok(())
                } else {
                    Err(QueryError::NegationUnsupported(string_from_chars(&key)))
                }
            } else {
                apply_key_exec(st, &key, &value, token)
            }
        },
    }
}

/// Parse a Sourcegraph-style query string into a structured representation.
///
/// Supports filters: `repo:`, `file:`, `-file:`, `lang:`, `type:`, `rev:`,
/// `count:`, `case:`, `author:`, `before:`, `after:`, `message:`, `select:`,
/// `calls:`, `calledby:`, `returns:`.
///
/// Everything that isn't a filter becomes the search pattern.
pub fn parse_query(input: &str) -> (r: Result<ParsedQuery, QueryError>)
    ensures
        match r {
            Ok(q) => spec_parse_query(input@) == Ok::<ParsedQueryView, QueryErrorView>(q@),
            Err(e) => spec_parse_query(input@) == Err::<ParsedQueryView, QueryErrorView>(e@),
        },
{
    let tokens = tokenize(input);
    let ghost toks = strings_view(tokens@);
    let mut st = ParseState {
        filters: new_filters(),
        search_type: SearchType::Code,
        terms: Vec::new(),
    };
    assert(st@.terms =~= Seq::<Seq<char>>::empty());
    let mut i: usize = 0;
    assert(toks.skip(0) =~= toks);
    while i < tokens.len()
        invariant
            i <= tokens.len(),
            toks == strings_view(tokens@),
            toks == spec_tokenize(input@),
            parse_tokens(initial_state(), toks) == parse_tokens(st@, toks.skip(i as int)),
        decreases tokens.len() - i,
    {
        let ghost before = st@;
        assert(toks.skip(i as int)[0] == tokens@[i as int]@);
        assert(toks.skip(i as int).drop_first() =~= toks.skip(i + 1));
        parse_step_exec(&mut st, &tokens[i])?;
        i = i + 1;
    }
    let pattern = join_strings(&st.terms, " ");
    Ok(ParsedQuery { search_pattern: pattern, search_type: st.search_type, filters: st.filters })
}

// ---------------------------------------------------------------------------
// Filters read back
// ---------------------------------------------------------------------------

/// The keys whose filter holds the text after the `:`.
pub open spec fn is_text_filter_key(key: Seq<char>) -> bool {
    key == "repo"@ || key == "file"@ || key == "lang"@ || key == "language"@ || key == "l"@ || key
        == "rev"@ || key == "revision"@ || key == "author"@ || key == "before"@ || key == "after"@
        || key == "message"@ || key == "calls"@ || key == "calledby"@ || key == "returns"@
}

/// The filter that a text key sets, read from the filters.
pub open spec fn text_filter(f: FiltersView, key: Seq<char>) -> Option<Seq<char>> {
    if key == "repo"@ {
        f.repo
    } else if key == "file"@ {
        f.file
    } else if key == "lang"@ || key == "language"@ || key == "l"@ {
        f.lang
    } else if key == "rev"@ || key == "revision"@ {
        f.rev
    } else if key == "author"@ {
        f.author
    } else if key == "before"@ {
        f.before
    } else if key == "after"@ {
        f.after
    } else if key == "message"@ {
        f.message
    } else if key == "calls"@ {
        f.calls
    } else if key == "calledby"@ {
        f.calledby
    } else if key == "returns"@ {
        f.returns
    } else {
        None
    }
}

proof fn lemma_key_literals()
    ensures
        "repo"@ == seq!['r', 'e', 'p', 'o'],
        "file"@ == seq!['f', 'i', 'l', 'e'],
        "lang"@ == seq!['l', 'a', 'n', 'g'],
        "language"@ == seq!['l', 'a', 'n', 'g', 'u', 'a', 'g', 'e'],
        "l"@ == seq!['l'],
        "type"@ == seq!['t', 'y', 'p', 'e'],
        "rev"@ == seq!['r', 'e', 'v'],
        "revision"@ == seq!['r', 'e', 'v', 'i', 's', 'i', 'o', 'n'],
        "count"@ == seq!['c', 'o', 'u', 'n', 't'],
        "case"@ == seq!['c', 'a', 's', 'e'],
        "author"@ == seq!['a', 'u', 't', 'h', 'o', 'r'],
        "before"@ == seq!['b', 'e', 'f', 'o', 'r', 'e'],
        "after"@ == seq!['a', 'f', 't', 'e', 'r'],
        "message"@ == seq!['m', 'e', 's', 's', 'a', 'g', 'e'],
        "select"@ == seq!['s', 'e', 'l', 'e', 'c', 't'],
        "calls"@ == seq!['c', 'a', 'l', 'l', 's'],
        "calledby"@ == seq!['c', 'a', 'l', 'l', 'e', 'd', 'b', 'y'],
        "returns"@ == seq!['r', 'e', 't', 'u', 'r', 'n', 's'],
{
    reveal_strlit("repo");
    reveal_strlit("file");
    reveal_strlit("lang");
    reveal_strlit("language");
    reveal_strlit("l");
    reveal_strlit("type");
    reveal_strlit("rev");
    reveal_strlit("revision");
    reveal_strlit("count");
    reveal_strlit("case");
    reveal_strlit("author");
    reveal_strlit("before");
    reveal_strlit("after");
    reveal_strlit("message");
    reveal_strlit("select");
    reveal_strlit("calls");
    reveal_strlit("calledby");
    reveal_strlit("returns");
}

proof fn lemma_plain_tokens(s: Seq<char>, cur: Seq<char>)
    requires
        plain_token(s),
    ensures
        tokens_from(s, cur, false) == flush(cur + s),
    decreases s.len(),
{
    if s.len() == 0 {
        assert(cur + s =~= cur);
    } else {
        assert(plain_token(s.drop_first()));
        lemma_plain_tokens(s.drop_first(), cur.push(s[0]));
        assert(cur.push(s[0]) + s.drop_first() =~= cur + s);
    }
}

proof fn lemma_first_index_after(a: Seq<char>, rest: Seq<char>, c: char)
    requires
        forall|i: int| 0 <= i < a.len() ==> a[i] != c,
        rest.len() > 0,
        rest[0] == c,
    ensures
        first_index_of(a + rest, c) == Some(a.len() as int),
    decreases a.len(),
{
    if a.len() == 0 {
        assert(a + rest =~= rest);
    } else {
        lemma_first_index_after(a.drop_first(), rest, c);
        assert((a + rest).drop_first() =~= a.drop_first() + rest);
        assert((a + rest)[0] == a[0]);
    }
}

proof fn lemma_no_index(s: Seq<char>, c: char)
    requires
        forall|i: int| 0 <= i < s.len() ==> s[i] != c,
    ensures
        first_index_of(s, c) is None,
    decreases s.len(),
{
    if s.len() > 0 {
        assert(s[0] != c);
        lemma_no_index(s.drop_first(), c);
    }
}

/// A `key:value` filter holds exactly the text after the first `:`: a query
/// made of one such token (with no space, tab or double quote in it, and,
/// for `repo:`, no `@` revision) parses with that filter set to the value,
/// the search type left as code and no search pattern.
pub proof fn law_text_filter_holds_the_value(key: Seq<char>, value: Seq<char>)
    requires
        is_text_filter_key(key),
        plain_token(key + ":"@ + value),
        key == "repo"@ ==> forall|i: int| 0 <= i < value.len() ==> value[i] != '@',
    ensures
        spec_parse_query(key + ":"@ + value) matches Ok(q) && text_filter(q.filters, key) == Some(value)
            && q.search_type == SearchType::Code && q.search_pattern.len() == 0,
{
    lemma_key_literals();
    reveal_strlit(":");
    let t = key + ":"@ + value;
    assert(":"@ == seq![':']);
    lemma_plain_tokens(t, Seq::empty());
    assert(Seq::<char>::empty() + t =~= t);
    assert(t.len() > 0);
    assert(spec_tokenize(t) == seq![t]);
    assert(forall|i: int| 0 <= i < key.len() ==> key[i] != ':');
    assert(t =~= key + (seq![':'] + value));
    lemma_first_index_after(key, seq![':'] + value, ':');
    assert(!is_negated(t)) by {
        assert(t[0] == key[0]);
    }
    assert(unnegated(t) == t);
    assert(t.subrange(0, key.len() as int) =~= key);
    assert(t.subrange(key.len() as int + 1, t.len() as int) =~= value);
    if key == "repo"@ {
        lemma_no_index(value, '@');
    }
    let st = initial_state();
    let next = parse_step(st, t);
    assert(seq![t].drop_first() =~= Seq::<Seq<char>>::empty());
    assert(next is Ok);
    let n = next->Ok_0;
    assert(parse_tokens(n, seq![t].drop_first()) == Ok::<ParseStateView, QueryErrorView>(n));
    assert(parse_tokens(st, seq![t]) == next);
}
} // verus!
