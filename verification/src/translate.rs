//! Translation of parsed queries into parameterised SQL.
use vstd::prelude::*;
use vstd::string::*;
use crate::query::{
    FiltersView, ParsedQuery, ParsedQueryView, QueryError, QueryErrorView, SearchType, SelectType,
    SelectView, TranslatedQuery, TranslatedView,
};
use crate::text::{chars_of, contains_char, decimal, has_char, push_decimal, starts_with,
    starts_with_str, strings_view,
};

verus! {

// ---------------------------------------------------------------------------
// Pieces of SQL
// ---------------------------------------------------------------------------

/// The `?N` placeholder of the `n`-th bound parameter.
pub open spec fn placeholder(n: nat) -> Seq<char> {
    "?"@ + decimal(n)
}

/// A pattern with `*` or `?` is matched with GLOB, any other by substring.
pub open spec fn is_glob(p: Seq<char>) -> bool {
    has_char(p, '*') || has_char(p, '?')
}

/// The value bound for a pattern: itself for GLOB, `%pattern%` for LIKE.
pub open spec fn pattern_param(p: Seq<char>) -> Seq<char> {
    if is_glob(p) {
        p
    } else {
        "%"@ + p + "%"@
    }
}

/// The condition that matches `column` against the pattern bound as parameter `n`.
pub open spec fn pattern_clause(column: Seq<char>, p: Seq<char>, n: nat) -> Seq<char> {
    if is_glob(p) {
        column + " GLOB "@ + placeholder(n)
    } else {
        column + " LIKE "@ + placeholder(n)
    }
}

/// The parts of a statement gathered so far: its JOIN lines, its conditions
/// (each on a line of its own, after `WHERE 1=1`) and the bound parameters.
pub struct SqlParts {
    pub joins: Seq<char>,
    pub conds: Seq<char>,
    pub params: Seq<Seq<char>>,
}

pub open spec fn with_join(b: SqlParts, j: Seq<char>) -> SqlParts {
    SqlParts { joins: b.joins + "\n"@ + j, ..b }
}

pub open spec fn with_cond(b: SqlParts, text: Seq<char>) -> SqlParts {
    SqlParts { conds: b.conds + "\n  "@ + text, ..b }
}

pub open spec fn with_param(b: SqlParts, v: Seq<char>) -> SqlParts {
    SqlParts { params: b.params.push(v), ..b }
}

/// Adds the condition `AND column matches p` (or `AND NOT (...)`), binding the pattern.
pub open spec fn pattern_cond(b: SqlParts, column: Seq<char>, p: Seq<char>, negate: bool) -> SqlParts {
    let b1 = with_param(b, pattern_param(p));
    let clause = pattern_clause(column, p, b1.params.len());
    if negate {
        with_cond(b1, "AND NOT ("@ + clause + ")"@)
    } else {
        with_cond(b1, "AND "@ + clause)
    }
}

pub open spec fn opt_pattern_cond(
    b: SqlParts,
    column: Seq<char>,
    p: Option<Seq<char>>,
    negate: bool,
) -> SqlParts {
    match p {
        Some(p) => pattern_cond(b, column, p, negate),
        None => b,
    }
}

/// Adds `prefix ?N` binding `v` as parameter `N`.
pub open spec fn value_cond(b: SqlParts, prefix: Seq<char>, v: Seq<char>) -> SqlParts {
    let b1 = with_param(b, v);
    with_cond(b1, prefix + placeholder(b1.params.len()))
}

pub open spec fn opt_value_cond(b: SqlParts, prefix: Seq<char>, v: Option<Seq<char>>) -> SqlParts {
    match v {
        Some(v) => value_cond(b, prefix, v),
        None => b,
    }
}

/// Adds a bound on the commit time: `op` is `<` for `before:` and `>` for `after:`.
pub open spec fn time_cond(b: SqlParts, op: Seq<char>, v: Option<Seq<char>>) -> SqlParts {
    match v {
        Some(v) => {
            let b1 = with_param(b, v);
            with_cond(
                b1,
                "AND c.timestamp "@ + op + " CAST(strftime('%s', "@ + placeholder(b1.params.len())
                    + ") AS INTEGER)"@,
            )
        },
        None => b,
    }
}

/// The `repo:` filter: joins the repos table and matches its name.
pub open spec fn repo_cond(b: SqlParts, repo: Option<Seq<char>>, join_line: Seq<char>) -> SqlParts {
    match repo {
        Some(p) => pattern_cond(with_join(b, join_line), "rp.name"@, p, false),
        None => b,
    }
}

/// The ref named by `rev:` (default `main`); short names live under `refs/heads/`.
pub open spec fn rev_ref(rev: Option<Seq<char>>) -> Seq<char> {
    let r = match rev {
        Some(r) => r,
        None => "main"@,
    };
    if starts_with(r, "refs/"@) {
        r
    } else {
        "refs/heads/"@ + r
    }
}

/// The result limit: `count:` or 20.
pub open spec fn limit(f: FiltersView) -> u32 {
    match f.count {
        Some(n) => n,
        None => 20,
    }
}

/// Whether the `select:` modifier is `select:repo`.
pub open spec fn selects_repo(f: FiltersView) -> bool {
    f.select matches Some(SelectView::Repo)
}

/// Whether the `select:` modifier is `select:file`.
pub open spec fn selects_file(f: FiltersView) -> bool {
    f.select matches Some(SelectView::File)
}

// ---------------------------------------------------------------------------
// The statements of each search type
// ---------------------------------------------------------------------------

pub open spec fn code_joins() -> Seq<char> {
    "JOIN blobs b ON b.id = cs.blob_id"@ + "\n"@ + "JOIN file_revs fr ON fr.blob_id = b.id"@ + "\n"@
        + "JOIN refs r ON r.commit_id = fr.commit_id"@
}

/// The JOINs, conditions and parameters of a code search.
pub open spec fn code_parts(q: ParsedQueryView) -> SqlParts {
    let f = q.filters;
    let b0 = SqlParts { joins: code_joins(), conds: Seq::empty(), params: seq![q.search_pattern] };
    let b1 = repo_cond(b0, f.repo, "JOIN repos rp ON rp.id = r.repo_id"@);
    let b2 = opt_pattern_cond(b1, "fr.path"@, f.file, false);
    let b3 = opt_pattern_cond(b2, "fr.path"@, f.neg_file, true);
    let b4 = opt_value_cond(b3, "AND b.language = "@, f.lang);
    let b5 = value_cond(b4, "AND r.name = "@, rev_ref(f.rev));
    if selects_repo(f) && f.repo is None {
        with_join(b5, "JOIN repos rp ON rp.id = r.repo_id"@)
    } else {
        b5
    }
}

/// Code search: full-text match on file contents at a ref, with path and language filters.
pub open spec fn spec_translate_code(q: ParsedQueryView) -> Result<TranslatedView, QueryErrorView> {
    if q.search_pattern.len() == 0 {
        Err(QueryErrorView::MissingPattern(SearchType::Code))
    } else {
        let f = q.filters;
        let b = code_parts(q);
        let head = if selects_repo(f) {
            "SELECT DISTINCT rp.name"@
        } else if selects_file(f) {
            "SELECT DISTINCT fr.path"@
        } else {
            "SELECT fr.path, cs.score, cs.snippet"@
        };
        let tail = if selects_repo(f) {
            "ORDER BY rp.name"@
        } else if selects_file(f) {
            "ORDER BY fr.path"@
        } else {
            "GROUP BY fr.path\nORDER BY cs.score DESC"@
        };
        Ok(
            TranslatedView {
                sql: head + "\nFROM code_search(?1) cs\n"@ + b.joins + "\nWHERE 1=1"@ + b.conds
                    + "\n"@ + tail + "\nLIMIT "@ + decimal(limit(f) as nat),
                params: b.params,
                search_type: SearchType::Code,
            },
        )
    }
}

pub open spec fn diff_joins() -> Seq<char> {
    "JOIN diffs d ON d.id = ds.diff_id"@ + "\n"@ + "JOIN commits c ON c.id = d.commit_id"@
}

pub open spec fn diff_columns() -> Seq<char> {
    "SELECT substr(c.hash, 1, 10) AS hash,\n       substr(c.message, 1, 80) AS message,\n       d.path, round(ds.score, 2) AS score"@
}

/// The JOINs, conditions and parameters of a diff search.
pub open spec fn diff_parts(q: ParsedQueryView) -> SqlParts {
    let f = q.filters;
    let b0 = SqlParts { joins: diff_joins(), conds: Seq::empty(), params: seq![q.search_pattern] };
    let b1 = repo_cond(b0, f.repo, "JOIN repos rp ON rp.id = c.repo_id"@);
    let b2 = opt_pattern_cond(b1, "d.path"@, f.file, false);
    let b3 = opt_pattern_cond(b2, "d.path"@, f.neg_file, true);
    let b4 = opt_pattern_cond(b3, "c.author"@, f.author, false);
    let b5 = time_cond(b4, "<"@, f.before);
    time_cond(b5, ">"@, f.after)
}

/// Diff search: full-text match on commit diffs, with path, author and date filters.
pub open spec fn spec_translate_diff(q: ParsedQueryView) -> Result<TranslatedView, QueryErrorView> {
    if q.search_pattern.len() == 0 {
        Err(QueryErrorView::MissingPattern(SearchType::Diff))
    } else {
        let f = q.filters;
        let b = diff_parts(q);
        let head = if selects_file(f) {
            "SELECT DISTINCT d.path"@
        } else {
            diff_columns()
        };
        let order = if selects_file(f) {
            "ORDER BY d.path"@
        } else {
            "ORDER BY ds.score DESC"@
        };
        Ok(
            TranslatedView {
                sql: head + "\nFROM diff_search(?1) ds\n"@ + b.joins + "\nWHERE 1=1"@ + b.conds
                    + "\n"@ + order + "\nLIMIT "@ + decimal(limit(f) as nat),
                params: b.params,
                search_type: SearchType::Diff,
            },
        )
    }
}

/// The JOINs, conditions and parameters of a commit search.
pub open spec fn commit_parts(q: ParsedQueryView) -> SqlParts {
    let f = q.filters;
    let b0 = SqlParts { joins: Seq::empty(), conds: Seq::empty(), params: Seq::empty() };
    let b1 = if q.search_pattern.len() > 0 {
        pattern_cond(b0, "c.message"@, q.search_pattern, false)
    } else {
        b0
    };
    let b2 = opt_pattern_cond(b1, "c.message"@, f.message, false);
    let b3 = repo_cond(b2, f.repo, "JOIN repos rp ON rp.id = c.repo_id"@);
    let b4 = opt_pattern_cond(b3, "c.author"@, f.author, false);
    let b5 = time_cond(b4, "<"@, f.before);
    time_cond(b5, ">"@, f.after)
}

/// Commit search: metadata match on message, author, repo and dates.
pub open spec fn spec_translate_commit(q: ParsedQueryView) -> Result<TranslatedView, QueryErrorView> {
    let b = commit_parts(q);
    if b.conds.len() == 0 {
        Err(QueryErrorView::MissingPattern(SearchType::Commit))
    } else {
        Ok(
            TranslatedView {
                sql: "SELECT substr(c.hash, 1, 10) AS hash, c.author,\n       substr(c.message, 1, 80) AS message\nFROM commits c"@
                    + b.joins + "\nWHERE 1=1"@ + b.conds + "\nORDER BY c.timestamp DESC"@
                    + "\nLIMIT "@ + decimal(limit(q.filters) as nat),
                params: b.params,
                search_type: SearchType::Commit,
            },
        )
    }
}

pub open spec fn symbol_joins() -> Seq<char> {
    "JOIN blobs b ON b.id = s.blob_id"@ + "\n"@ + "JOIN file_revs fr ON fr.blob_id = b.id"@ + "\n"@
        + "JOIN refs r ON r.commit_id = fr.commit_id"@
}

/// The kind named by `select:symbol.KIND`, if given.
pub open spec fn symbol_kind(f: FiltersView) -> Option<Seq<char>> {
    match f.select {
        Some(SelectView::SymbolKind(k)) => Some(k),
        _ => None,
    }
}

/// Whether a symbol search has something to search by.
pub open spec fn symbol_search_has_criteria(q: ParsedQueryView) -> bool {
    q.search_pattern.len() > 0 || symbol_kind(q.filters) is Some || q.filters.lang is Some
        || q.filters.file is Some || q.filters.returns is Some
}

/// The `returns:` filter: a return-type match, restricted to functions and methods.
pub open spec fn returns_cond(b: SqlParts, r: Option<Seq<char>>) -> SqlParts {
    match r {
        Some(r) => with_cond(
            pattern_cond(b, "s.return_type"@, r, false),
            "AND s.kind IN ('function', 'method')"@,
        ),
        None => b,
    }
}

/// The JOINs, conditions and parameters of a symbol search.
pub open spec fn symbol_parts(q: ParsedQueryView) -> SqlParts {
    let f = q.filters;
    let b0 = SqlParts { joins: symbol_joins(), conds: Seq::empty(), params: Seq::empty() };
    let b1 = if q.search_pattern.len() > 0 {
        pattern_cond(b0, "s.name"@, q.search_pattern, false)
    } else {
        b0
    };
    let b2 = repo_cond(b1, f.repo, "JOIN repos rp ON rp.id = r.repo_id"@);
    let b3 = opt_pattern_cond(b2, "fr.path"@, f.file, false);
    let b4 = opt_pattern_cond(b3, "fr.path"@, f.neg_file, true);
    let b5 = opt_value_cond(b4, "AND b.language = "@, f.lang);
    let b6 = opt_value_cond(b5, "AND s.kind = "@, symbol_kind(f));
    let b7 = returns_cond(b6, f.returns);
    value_cond(b7, "AND r.name = "@, rev_ref(f.rev))
}

/// Symbol search: symbol names, kinds and return types at a ref.
pub open spec fn spec_translate_symbol(q: ParsedQueryView) -> Result<TranslatedView, QueryErrorView> {
    let b = symbol_parts(q);
    if !symbol_search_has_criteria(q) {
        Err(QueryErrorView::MissingPattern(SearchType::Symbol))
    } else {
        Ok(
            TranslatedView {
                sql: "SELECT fr.path, s.name, s.kind, s.line\nFROM symbols s\n"@ + b.joins
                    + "\nWHERE 1=1"@ + b.conds + "\nORDER BY fr.path, s.line"@ + "\nLIMIT "@
                    + decimal(limit(q.filters) as nat),
                params: b.params,
                search_type: SearchType::Symbol,
            },
        )
    }
}

/// Filters shared by `calls:` and `calledby:` after their own conditions.
pub open spec fn xref_filters(b: SqlParts, f: FiltersView) -> SqlParts {
    let b1 = repo_cond(b, f.repo, "JOIN repos rp ON rp.id = r.repo_id"@);
    let b2 = opt_pattern_cond(b1, "fr.path"@, f.file, false);
    let b3 = opt_pattern_cond(b2, "fr.path"@, f.neg_file, true);
    let b4 = opt_value_cond(b3, "AND b.language = "@, f.lang);
    value_cond(b4, "AND r.name = "@, rev_ref(f.rev))
}

pub open spec fn callers_joins() -> Seq<char> {
    "JOIN symbols s ON s.id = sr.symbol_id"@ + "\n"@ + "JOIN blobs b ON b.id = sr.blob_id"@ + "\n"@
        + "JOIN file_revs fr ON fr.blob_id = b.id"@ + "\n"@
        + "JOIN refs r ON r.commit_id = fr.commit_id"@
}

/// The JOINs, conditions and parameters of a `calls:` search.
pub open spec fn callers_parts(q: ParsedQueryView, target: Seq<char>) -> SqlParts {
    let b0 = SqlParts { joins: callers_joins(), conds: Seq::empty(), params: Seq::empty() };
    let b1 = pattern_cond(b0, "sr.ref_name"@, target, false);
    let b2 = with_cond(with_cond(b1, "AND sr.kind = 'call'"@), "AND s.kind = 'function'"@);
    xref_filters(b2, q.filters)
}

/// `calls:X`: the functions that call `X`.
pub open spec fn spec_translate_callers(q: ParsedQueryView, target: Seq<char>) -> TranslatedView {
    let b = callers_parts(q, target);
    TranslatedView {
        sql: "SELECT DISTINCT fr.path, s.name, s.kind, s.line\nFROM symbol_refs sr\n"@ + b.joins
            + "\nWHERE 1=1"@ + b.conds + "\nORDER BY fr.path, s.line"@ + "\nLIMIT "@ + decimal(
            limit(q.filters) as nat,
        ),
        params: b.params,
        search_type: SearchType::Symbol,
    }
}

pub open spec fn callees_joins() -> Seq<char> {
    "JOIN symbol_refs sr ON sr.symbol_id = s.id AND sr.blob_id = s.blob_id"@ + "\n"@
        + "JOIN blobs b ON b.id = sr.blob_id"@ + "\n"@ + "JOIN file_revs fr ON fr.blob_id = b.id"@
        + "\n"@ + "JOIN refs r ON r.commit_id = fr.commit_id"@
}

/// The JOINs, conditions and parameters of a `calledby:` search.
pub open spec fn callees_parts(q: ParsedQueryView, caller: Seq<char>) -> SqlParts {
    let b0 = SqlParts { joins: callees_joins(), conds: Seq::empty(), params: Seq::empty() };
    let b1 = pattern_cond(b0, "s.name"@, caller, false);
    let b2 = with_cond(b1, "AND s.kind = 'function'"@);
    xref_filters(b2, q.filters)
}

/// `calledby:X`: what the function `X` calls.
pub open spec fn spec_translate_callees(q: ParsedQueryView, caller: Seq<char>) -> TranslatedView {
    let b = callees_parts(q, caller);
    TranslatedView {
        sql: "SELECT DISTINCT fr.path, sr.ref_name AS name, sr.kind, sr.line\nFROM symbols s\n"@
            + b.joins + "\nWHERE 1=1"@ + b.conds + "\nORDER BY sr.line"@ + "\nLIMIT "@ + decimal(
            limit(q.filters) as nat,
        ),
        params: b.params,
        search_type: SearchType::Symbol,
    }
}

/// The SQL for a parsed query: `calls:`, `calledby:` and `returns:` imply a
/// symbol search whatever `type:` says; otherwise `type:` decides.
pub open spec fn spec_translate(q: ParsedQueryView) -> Result<TranslatedView, QueryErrorView> {
    match q.filters.calls {
        Some(t) => Ok(spec_translate_callers(q, t)),
        None => match q.filters.calledby {
            Some(c) => Ok(spec_translate_callees(q, c)),
            None => if q.filters.returns is Some {
                spec_translate_symbol(q)
            } else {
                match q.search_type {
                    SearchType::Code => spec_translate_code(q),
                    SearchType::Diff => spec_translate_diff(q),
                    SearchType::Commit => spec_translate_commit(q),
                    SearchType::Symbol => spec_translate_symbol(q),
                }
            },
        },
    }
}

// ---------------------------------------------------------------------------
// Executable construction
// ---------------------------------------------------------------------------

/// Tracks SQL parameters and hands out their `?N` placeholders.
pub struct ParamCollector {
    pub params: Vec<String>,
}

impl View for ParamCollector {
    type V = Seq<Seq<char>>;

    open spec fn view(&self) -> Seq<Seq<char>> {
        strings_view(self.params@)
    }
}

impl ParamCollector {
    pub fn new() -> (p: Self)
        ensures
            p@ == Seq::<Seq<char>>::empty(),
    {
        let p = ParamCollector { params: Vec::new() };
        assert(p@ =~= Seq::<Seq<char>>::empty());
        p
    }

    /// Adds a parameter and returns its `?N` placeholder.
    pub fn add(&mut self, value: String) -> (ph: String)
        ensures
            final(self)@ == old(self)@.push(value@),
            ph@ == placeholder(final(self)@.len()),
    {
        let ghost v = value@;
        self.params.push(value);
        assert(strings_view(self.params@) =~= strings_view(old(self).params@).push(v));
        let mut ph = "?".to_owned();
        push_decimal(&mut ph, self.params.len() as u64);
        ph
    }
}

/// `column GLOB ?N` when the pattern holds `*` or `?`, else `column LIKE ?N`
/// with the pattern bound as a `%pattern%` substring match.
pub fn pattern_match_clause(column: &str, pattern: &String, p: &mut ParamCollector) -> (clause:
    String)
    ensures
        final(p)@ == old(p)@.push(pattern_param(pattern@)),
        clause@ == pattern_clause(column@, pattern@, final(p)@.len()),
{
    let pv = chars_of(pattern.as_str());
    if contains_char(&pv, '*') || contains_char(&pv, '?') {
        let ph = p.add(pattern.clone());
        let mut clause = column.to_owned();
        clause.append(" GLOB ");
        clause.append(ph.as_str());
        clause
    } else {
        let mut v = "%".to_owned();
        v.append(pattern.as_str());
        v.append("%");
        let ph = p.add(v);
        let mut clause = column.to_owned();
        clause.append(" LIKE ");
        clause.append(ph.as_str());
        clause
    }
}

struct SqlBuilder {
    joins: String,
    conds: String,
    p: ParamCollector,
}

impl View for SqlBuilder {
    type V = SqlParts;

    closed spec fn view(&self) -> SqlParts {
        SqlParts { joins: self.joins@, conds: self.conds@, params: self.p@ }
    }
}

impl SqlBuilder {
    fn add_join(&mut self, j: &str)
        ensures
            final(self)@ == with_join(old(self)@, j@),
    {
        self.joins.append("\n");
        self.joins.append(j);
    }

    fn add_cond(&mut self, text: &str)
        ensures
            final(self)@ == with_cond(old(self)@, text@),
    {
        self.conds.append("\n  ");
        self.conds.append(text);
    }

    fn add_pattern_cond(&mut self, column: &str, pattern: &String, negate: bool)
        ensures
            final(self)@ == pattern_cond(old(self)@, column@, pattern@, negate),
    {
        let clause = pattern_match_clause(column, pattern, &mut self.p);
        if negate {
            let mut t = "AND NOT (".to_owned();
            t.append(clause.as_str());
            t.append(")");
            self.add_cond(t.as_str());
        } else {
            let mut t = "AND ".to_owned();
            t.append(clause.as_str());
            self.add_cond(t.as_str());
        }
    }

    fn add_opt_pattern_cond(&mut self, column: &str, pattern: &Option<String>, negate: bool)
        ensures
            final(self)@ == opt_pattern_cond(
                old(self)@,
                column@,
                crate::query::opt_view(*pattern),
                negate,
            ),
    {
        match pattern {
            Some(p) => self.add_pattern_cond(column, p, negate),
            None => {},
        }
    }

    fn add_value_cond(&mut self, prefix: &str, v: String)
        ensures
            final(self)@ == value_cond(old(self)@, prefix@, v@),
    {
        let ph = self.p.add(v);
        let mut t = prefix.to_owned();
        t.append(ph.as_str());
        self.add_cond(t.as_str());
    }

    fn add_opt_value_cond(&mut self, prefix: &str, v: &Option<String>)
        ensures
            final(self)@ == opt_value_cond(old(self)@, prefix@, crate::query::opt_view(*v)),
    {
        match v {
            Some(v) => self.add_value_cond(prefix, v.clone()),
            None => {},
        }
    }

    fn add_time_cond(&mut self, op: &str, v: &Option<String>)
        ensures
            final(self)@ == time_cond(old(self)@, op@, crate::query::opt_view(*v)),
    {
        match v {
            Some(v) => {
                let ph = self.p.add(v.clone());
                let mut t = "AND c.timestamp ".to_owned();
                t.append(op);
                t.append(" CAST(strftime('%s', ");
                t.append(ph.as_str());
                t.append(") AS INTEGER)");
                self.add_cond(t.as_str());
            },
            None => {},
        }
    }

    fn add_repo_cond(&mut self, repo: &Option<String>, join_line: &str)
        ensures
            final(self)@ == repo_cond(old(self)@, crate::query::opt_view(*repo), join_line@),
    {
        match repo {
            Some(p) => {
                self.add_join(join_line);
                self.add_pattern_cond("rp.name", p, false);
            },
            None => {},
        }
    }

    fn add_rev_cond(&mut self, rev: &Option<String>)
        ensures
            final(self)@ == value_cond(
                old(self)@,
                "AND r.name = "@,
                rev_ref(crate::query::opt_view(*rev)),
            ),
    {
        let r = match rev {
            Some(r) => r.clone(),
            None => "main".to_owned(),
        };
        let rv = chars_of(r.as_str());
        let full = if starts_with_str(&rv, "refs/") {
            r
        } else {
            let mut full = "refs/heads/".to_owned();
            full.append(r.as_str());
            full
        };
        self.add_value_cond("AND r.name = ", full);
    }

    fn add_xref_filters(&mut self, q: &ParsedQuery)
        ensures
            final(self)@ == xref_filters(old(self)@, q@.filters),
    {
        self.add_repo_cond(&q.filters.repo, "JOIN repos rp ON rp.id = r.repo_id");
        self.add_opt_pattern_cond("fr.path", &q.filters.file, false);
        self.add_opt_pattern_cond("fr.path", &q.filters.neg_file, true);
        self.add_opt_value_cond("AND b.language = ", &q.filters.lang);
        self.add_rev_cond(&q.filters.rev);
    }
}

fn new_builder(first_join: &str) -> (b: SqlBuilder)
    ensures
        b@ == (SqlParts { joins: first_join@, conds: Seq::empty(), params: Seq::empty() }),
{
    SqlBuilder { joins: first_join.to_owned(), conds: String::new(), p: ParamCollector::new() }
}

/// Appends `LIMIT n` with the query's limit.
fn push_limit(sql: &mut String, q: &ParsedQuery)
    ensures
        final(sql)@ == old(sql)@ + "\nLIMIT "@ + decimal(limit(q@.filters) as nat),
{
    sql.append("\nLIMIT ");
    let n: u32 = match q.filters.count {
        Some(n) => n,
        None => 20,
    };
    push_decimal(sql, n as u64);
}

fn translate_code(q: &ParsedQuery) -> (r: Result<TranslatedQuery, QueryError>)
    ensures
        match r {
            Ok(t) => spec_translate_code(q@) == Ok::<TranslatedView, QueryErrorView>(t@),
            Err(e) => spec_translate_code(q@) == Err::<TranslatedView, QueryErrorView>(e@),
        },
{
    if q.search_pattern.as_str().is_empty() {
        return Err(QueryError::MissingPattern(SearchType::Code));
    }
    let mut b = new_builder("JOIN blobs b ON b.id = cs.blob_id");
    b.add_join("JOIN file_revs fr ON fr.blob_id = b.id");
    b.add_join("JOIN refs r ON r.commit_id = fr.commit_id");
    let _search_param = b.p.add(q.search_pattern.clone());
    assert(b@.params =~= seq![q@.search_pattern]);
    b.add_repo_cond(&q.filters.repo, "JOIN repos rp ON rp.id = r.repo_id");
    b.add_opt_pattern_cond("fr.path", &q.filters.file, false);
    b.add_opt_pattern_cond("fr.path", &q.filters.neg_file, true);
    b.add_opt_value_cond("AND b.language = ", &q.filters.lang);
    b.add_rev_cond(&q.filters.rev);
    let (sel_repo, sel_file) = match &q.filters.select {
        Some(SelectType::Repo) => (true, false),
        Some(SelectType::File) => (false, true),
        _ => (false, false),
    };
    if sel_repo && q.filters.repo.is_none() {
        b.add_join("JOIN repos rp ON rp.id = r.repo_id");
    }
    let mut sql = if sel_repo {
        "SELECT DISTINCT rp.name".to_owned()
    } else if sel_file {
        "SELECT DISTINCT fr.path".to_owned()
    } else {
        "SELECT fr.path, cs.score, cs.snippet".to_owned()
    };
    sql.append("\nFROM code_search(?1) cs\n");
    sql.append(b.joins.as_str());
    sql.append("\nWHERE 1=1");
    sql.append(b.conds.as_str());
    sql.append("\n");
    if sel_repo {
        sql.append("ORDER BY rp.name");
    } else if sel_file {
        sql.append("ORDER BY fr.path");
    } else {
        sql.append("GROUP BY fr.path\nORDER BY cs.score DESC");
    }
    push_limit(&mut sql, q);
    Ok(TranslatedQuery { sql, params: b.p.params, search_type: SearchType::Code })
}

fn translate_diff(q: &ParsedQuery) -> (r: Result<TranslatedQuery, QueryError>)
    ensures
        match r {
            Ok(t) => spec_translate_diff(q@) == Ok::<TranslatedView, QueryErrorView>(t@),
            Err(e) => spec_translate_diff(q@) == Err::<TranslatedView, QueryErrorView>(e@),
        },
{
    if q.search_pattern.as_str().is_empty() {
        return Err(QueryError::MissingPattern(SearchType::Diff));
    }
    let mut b = new_builder("JOIN diffs d ON d.id = ds.diff_id");
    b.add_join("JOIN commits c ON c.id = d.commit_id");
    let _search_param = b.p.add(q.search_pattern.clone());
    assert(b@.params =~= seq![q@.search_pattern]);
    b.add_repo_cond(&q.filters.repo, "JOIN repos rp ON rp.id = c.repo_id");
    b.add_opt_pattern_cond("d.path", &q.filters.file, false);
    b.add_opt_pattern_cond("d.path", &q.filters.neg_file, true);
    b.add_opt_pattern_cond("c.author", &q.filters.author, false);
    b.add_time_cond("<", &q.filters.before);
    b.add_time_cond(">", &q.filters.after);
    let sel_file = match &q.filters.select {
        Some(SelectType::File) => true,
        _ => false,
    };
    let mut sql = if sel_file {
        "SELECT DISTINCT d.path".to_owned()
    } else {
        "SELECT substr(c.hash, 1, 10) AS hash,\n       substr(c.message, 1, 80) AS message,\n       d.path, round(ds.score, 2) AS score".to_owned()
    };
    sql.append("\nFROM diff_search(?1) ds\n");
    sql.append(b.joins.as_str());
    sql.append("\nWHERE 1=1");
    sql.append(b.conds.as_str());
    sql.append("\n");
    if sel_file {
        sql.append("ORDER BY d.path");
    } else {
        sql.append("ORDER BY ds.score DESC");
    }
    push_limit(&mut sql, q);
    Ok(TranslatedQuery { sql, params: b.p.params, search_type: SearchType::Diff })
}

#[verifier::spinoff_prover]
fn translate_commit(q: &ParsedQuery) -> (r: Result<TranslatedQuery, QueryError>)
    ensures
        match r {
            Ok(t) => spec_translate_commit(q@) == Ok::<TranslatedView, QueryErrorView>(t@),
            Err(e) => spec_translate_commit(q@) == Err::<TranslatedView, QueryErrorView>(e@),
        },
{
    let mut b = SqlBuilder { joins: String::new(), conds: String::new(), p: ParamCollector::new() };
    if !q.search_pattern.as_str().is_empty() {
        b.add_pattern_cond("c.message", &q.search_pattern, false);
    }
    b.add_opt_pattern_cond("c.message", &q.filters.message, false);
    b.add_repo_cond(&q.filters.repo, "JOIN repos rp ON rp.id = c.repo_id");
    b.add_opt_pattern_cond("c.author", &q.filters.author, false);
    b.add_time_cond("<", &q.filters.before);
    b.add_time_cond(">", &q.filters.after);
    assert(b@ == commit_parts(q@));
    if b.conds.as_str().is_empty() {
        return Err(QueryError::MissingPattern(SearchType::Commit));
    }
    let mut sql =
        "SELECT substr(c.hash, 1, 10) AS hash, c.author,\n       substr(c.message, 1, 80) AS message\nFROM commits c".to_owned();
    sql.append(b.joins.as_str());
    sql.append("\nWHERE 1=1");
    sql.append(b.conds.as_str());
    sql.append("\nORDER BY c.timestamp DESC");
    push_limit(&mut sql, q);
    Ok(TranslatedQuery { sql, params: b.p.params, search_type: SearchType::Commit })
}

fn translate_symbol(q: &ParsedQuery) -> (r: Result<TranslatedQuery, QueryError>)
    ensures
        match r {
            Ok(t) => spec_translate_symbol(q@) == Ok::<TranslatedView, QueryErrorView>(t@),
            Err(e) => spec_translate_symbol(q@) == Err::<TranslatedView, QueryErrorView>(e@),
        },
{
    let mut b = new_builder("JOIN blobs b ON b.id = s.blob_id");
    b.add_join("JOIN file_revs fr ON fr.blob_id = b.id");
    b.add_join("JOIN refs r ON r.commit_id = fr.commit_id");
    if !q.search_pattern.as_str().is_empty() {
        b.add_pattern_cond("s.name", &q.search_pattern, false);
    }
    b.add_repo_cond(&q.filters.repo, "JOIN repos rp ON rp.id = r.repo_id");
    b.add_opt_pattern_cond("fr.path", &q.filters.file, false);
    b.add_opt_pattern_cond("fr.path", &q.filters.neg_file, true);
    b.add_opt_value_cond("AND b.language = ", &q.filters.lang);
    let kind: Option<String> = match &q.filters.select {
        Some(SelectType::SymbolKind(k)) => Some(k.clone()),
        _ => None,
    };
    b.add_opt_value_cond("AND s.kind = ", &kind);
    match &q.filters.returns {
        Some(ret) => {
            b.add_pattern_cond("s.return_type", ret, false);
            b.add_cond("AND s.kind IN ('function', 'method')");
        },
        None => {},
    }
    b.add_rev_cond(&q.filters.rev);
    if q.search_pattern.as_str().is_empty() && kind.is_none() && q.filters.lang.is_none()
        && q.filters.file.is_none() && q.filters.returns.is_none() {
        return Err(QueryError::MissingPattern(SearchType::Symbol));
    }
    let mut sql = "SELECT fr.path, s.name, s.kind, s.line\nFROM symbols s\n".to_owned();
    sql.append(b.joins.as_str());
    sql.append("\nWHERE 1=1");
    sql.append(b.conds.as_str());
    sql.append("\nORDER BY fr.path, s.line");
    push_limit(&mut sql, q);
    Ok(TranslatedQuery { sql, params: b.p.params, search_type: SearchType::Symbol })
}

/// Translate `calls:X` — find functions that call X.
fn translate_callers(q: &ParsedQuery, target: &String) -> (t: TranslatedQuery)
    ensures
        t@ == spec_translate_callers(q@, target@),
{
    let mut b = new_builder("JOIN symbols s ON s.id = sr.symbol_id");
    b.add_join("JOIN blobs b ON b.id = sr.blob_id");
    b.add_join("JOIN file_revs fr ON fr.blob_id = b.id");
    b.add_join("JOIN refs r ON r.commit_id = fr.commit_id");
    b.add_pattern_cond("sr.ref_name", target, false);
    b.add_cond("AND sr.kind = 'call'");
    b.add_cond("AND s.kind = 'function'");
    b.add_xref_filters(q);
    let mut sql = "SELECT DISTINCT fr.path, s.name, s.kind, s.line\nFROM symbol_refs sr\n".to_owned();
    sql.append(b.joins.as_str());
    sql.append("\nWHERE 1=1");
    sql.append(b.conds.as_str());
    sql.append("\nORDER BY fr.path, s.line");
    push_limit(&mut sql, q);
    TranslatedQuery { sql, params: b.p.params, search_type: SearchType::Symbol }
}

/// Translate `calledby:X` — find what function X calls.
fn translate_callees(q: &ParsedQuery, caller: &String) -> (t: TranslatedQuery)
    ensures
        t@ == spec_translate_callees(q@, caller@),
{
    let mut b = new_builder("JOIN symbol_refs sr ON sr.symbol_id = s.id AND sr.blob_id = s.blob_id");
    b.add_join("JOIN blobs b ON b.id = sr.blob_id");
    b.add_join("JOIN file_revs fr ON fr.blob_id = b.id");
    b.add_join("JOIN refs r ON r.commit_id = fr.commit_id");
    b.add_pattern_cond("s.name", caller, false);
    b.add_cond("AND s.kind = 'function'");
    b.add_xref_filters(q);
    let mut sql =
        "SELECT DISTINCT fr.path, sr.ref_name AS name, sr.kind, sr.line\nFROM symbols s\n".to_owned();
    sql.append(b.joins.as_str());
    sql.append("\nWHERE 1=1");
    sql.append(b.conds.as_str());
    sql.append("\nORDER BY sr.line");
    push_limit(&mut sql, q);
    TranslatedQuery { sql, params: b.p.params, search_type: SearchType::Symbol }
}

/// Translate a parsed query into SQL.
///
/// `calls:`, `calledby:` and `returns:` imply symbol search regardless of `type:`.
pub fn translate(query: &ParsedQuery) -> (r: Result<TranslatedQuery, QueryError>)
    ensures
        match r {
            Ok(t) => spec_translate(query@) == Ok::<TranslatedView, QueryErrorView>(t@),
            Err(e) => spec_translate(query@) == Err::<TranslatedView, QueryErrorView>(e@),
        },
{
    if let Some(target) = &query.filters.calls {
        return Ok(translate_callers(query, target));
    }
    if let Some(caller) = &query.filters.calledby {
        return Ok(translate_callees(query, caller));
    }
    if query.filters.returns.is_some() {
        return translate_symbol(query);
    }
    match query.search_type {
        SearchType::Code => translate_code(query),
        SearchType::Diff => translate_diff(query),
        SearchType::Commit => translate_commit(query),
        SearchType::Symbol => translate_symbol(query),
    }
}


// ---------------------------------------------------------------------------
// Laws
// ---------------------------------------------------------------------------

/// `calls:`, `calledby:` and `returns:` always give a symbol search, whatever
/// `type:` says and whether or not a search pattern is given.
pub proof fn law_cross_reference_filters_imply_symbol_search(q: ParsedQueryView)
    requires
        q.filters.calls is Some || q.filters.calledby is Some || q.filters.returns is Some,
    ensures
        spec_translate(q) matches Ok(t) && t.search_type == SearchType::Symbol,
{
}

/// Code and diff search fail exactly when the search pattern is empty.
pub proof fn law_text_search_needs_pattern(q: ParsedQueryView)
    requires
        q.filters.calls is None,
        q.filters.calledby is None,
        q.filters.returns is None,
        q.search_type == SearchType::Code || q.search_type == SearchType::Diff,
    ensures
        spec_translate(q) is Err <==> q.search_pattern.len() == 0,
        spec_translate(q) is Err ==> spec_translate(q) == Err::<TranslatedView, QueryErrorView>(
            QueryErrorView::MissingPattern(q.search_type),
        ),
{
}

proof fn lemma_with_cond_grows(b: SqlParts, text: Seq<char>)
    ensures
        with_cond(b, text).conds.len() > b.conds.len(),
{
    reveal_strlit("\n  ");
}

proof fn lemma_pattern_cond_grows(b: SqlParts, column: Seq<char>, p: Seq<char>, negate: bool)
    ensures
        pattern_cond(b, column, p, negate).conds.len() > b.conds.len(),
{
    let b1 = with_param(b, pattern_param(p));
    let clause = pattern_clause(column, p, b1.params.len());
    lemma_with_cond_grows(b1, "AND NOT ("@ + clause + ")"@);
    lemma_with_cond_grows(b1, "AND "@ + clause);
}

proof fn lemma_opt_pattern_cond(b: SqlParts, column: Seq<char>, p: Option<Seq<char>>, negate: bool)
    ensures
        p is Some ==> opt_pattern_cond(b, column, p, negate).conds.len() > b.conds.len(),
        p is None ==> opt_pattern_cond(b, column, p, negate) == b,
{
    if let Some(p) = p {
        lemma_pattern_cond_grows(b, column, p, negate);
    }
}

proof fn lemma_repo_cond(b: SqlParts, repo: Option<Seq<char>>, join_line: Seq<char>)
    ensures
        repo is Some ==> repo_cond(b, repo, join_line).conds.len() > b.conds.len(),
        repo is None ==> repo_cond(b, repo, join_line) == b,
{
    if let Some(p) = repo {
        lemma_pattern_cond_grows(with_join(b, join_line), "rp.name"@, p, false);
    }
}

proof fn lemma_time_cond(b: SqlParts, op: Seq<char>, v: Option<Seq<char>>)
    ensures
        v is Some ==> time_cond(b, op, v).conds.len() > b.conds.len(),
        v is None ==> time_cond(b, op, v) == b,
{
    if let Some(x) = v {
        let b1 = with_param(b, x);
        lemma_with_cond_grows(
            b1,
            "AND c.timestamp "@ + op + " CAST(strftime('%s', "@ + placeholder(b1.params.len())
                + ") AS INTEGER)"@,
        );
    }
}

/// Commit search fails exactly when there is neither a search pattern nor any of
/// `message:`, `repo:`, `author:`, `before:`, `after:`.
pub proof fn law_commit_search_needs_criteria(q: ParsedQueryView)
    requires
        q.filters.calls is None,
        q.filters.calledby is None,
        q.filters.returns is None,
        q.search_type == SearchType::Commit,
    ensures
        spec_translate(q) is Err <==> (q.search_pattern.len() == 0 && q.filters.message is None
            && q.filters.repo is None && q.filters.author is None && q.filters.before is None
            && q.filters.after is None),
{
    let f = q.filters;
    let b0 = SqlParts { joins: Seq::empty(), conds: Seq::empty(), params: Seq::empty() };
    let b1 = if q.search_pattern.len() > 0 {
        pattern_cond(b0, "c.message"@, q.search_pattern, false)
    } else {
        b0
    };
    if q.search_pattern.len() > 0 {
        lemma_pattern_cond_grows(b0, "c.message"@, q.search_pattern, false);
    }
    let b2 = opt_pattern_cond(b1, "c.message"@, f.message, false);
    lemma_opt_pattern_cond(b1, "c.message"@, f.message, false);
    let b3 = repo_cond(b2, f.repo, "JOIN repos rp ON rp.id = c.repo_id"@);
    lemma_repo_cond(b2, f.repo, "JOIN repos rp ON rp.id = c.repo_id"@);
    let b4 = opt_pattern_cond(b3, "c.author"@, f.author, false);
    lemma_opt_pattern_cond(b3, "c.author"@, f.author, false);
    let b5 = time_cond(b4, "<"@, f.before);
    lemma_time_cond(b4, "<"@, f.before);
    let b6 = time_cond(b5, ">"@, f.after);
    lemma_time_cond(b5, ">"@, f.after);
    assert(spec_translate(q) == spec_translate_commit(q));
    assert(spec_translate_commit(q) is Err <==> b6.conds.len() == 0);
}

/// Symbol search fails exactly when there is neither a search pattern nor any of
/// `select:symbol.KIND`, `lang:`, `file:`, `returns:`.
pub proof fn law_symbol_search_needs_criteria(q: ParsedQueryView)
    requires
        q.filters.calls is None,
        q.filters.calledby is None,
        q.search_type == SearchType::Symbol || q.filters.returns is Some,
    ensures
        spec_translate(q) is Err <==> !symbol_search_has_criteria(q),
{
}

/// Code and diff search bind the search pattern as the first parameter, the
/// one that `code_search(?1)` / `diff_search(?1)` reads.
pub proof fn law_search_pattern_is_first_parameter(q: ParsedQueryView)
    requires
        q.filters.calls is None,
        q.filters.calledby is None,
        q.filters.returns is None,
        q.search_type == SearchType::Code || q.search_type == SearchType::Diff,
    ensures
        spec_translate(q) matches Ok(t) ==> t.params.len() > 0 && t.params[0] == q.search_pattern,
{
    let f = q.filters;
    if q.search_pattern.len() > 0 {
        if q.search_type == SearchType::Code {
            let b0 = SqlParts { joins: code_joins(), conds: Seq::empty(), params: seq![q.search_pattern] };
            let b1 = repo_cond(b0, f.repo, "JOIN repos rp ON rp.id = r.repo_id"@);
            let b2 = opt_pattern_cond(b1, "fr.path"@, f.file, false);
            let b3 = opt_pattern_cond(b2, "fr.path"@, f.neg_file, true);
            let b4 = opt_value_cond(b3, "AND b.language = "@, f.lang);
            let b5 = value_cond(b4, "AND r.name = "@, rev_ref(f.rev));
            assert(b1.params.len() >= 1 && b1.params[0] == q.search_pattern);
            assert(b2.params.len() >= 1 && b2.params[0] == q.search_pattern);
            assert(b3.params.len() >= 1 && b3.params[0] == q.search_pattern);
            assert(b4.params.len() >= 1 && b4.params[0] == q.search_pattern);
            assert(b5.params.len() >= 1 && b5.params[0] == q.search_pattern);
        } else {
            let b0 = SqlParts { joins: diff_joins(), conds: Seq::empty(), params: seq![q.search_pattern] };
            let b1 = repo_cond(b0, f.repo, "JOIN repos rp ON rp.id = c.repo_id"@);
            let b2 = opt_pattern_cond(b1, "d.path"@, f.file, false);
            let b3 = opt_pattern_cond(b2, "d.path"@, f.neg_file, true);
            let b4 = opt_pattern_cond(b3, "c.author"@, f.author, false);
            let b5 = time_cond(b4, "<"@, f.before);
            let b6 = time_cond(b5, ">"@, f.after);
            assert(b1.params.len() >= 1 && b1.params[0] == q.search_pattern);
            assert(b2.params.len() >= 1 && b2.params[0] == q.search_pattern);
            assert(b3.params.len() >= 1 && b3.params[0] == q.search_pattern);
            assert(b4.params.len() >= 1 && b4.params[0] == q.search_pattern);
            assert(b5.params.len() >= 1 && b5.params[0] == q.search_pattern);
            assert(b6.params.len() >= 1 && b6.params[0] == q.search_pattern);
        }
    }
}

/// Without `rev:`, searches at a ref look at `refs/heads/main`; a `rev:` that
/// does not start with `refs/` names a branch under `refs/heads/`.
pub proof fn law_default_ref()
    ensures
        rev_ref(None) == "refs/heads/main"@,
        forall|r: Seq<char>| !starts_with(r, "refs/"@) ==> rev_ref(Some(r)) == "refs/heads/"@ + r,
        forall|r: Seq<char>| starts_with(r, "refs/"@) ==> rev_ref(Some(r)) == r,
{
    reveal_strlit("main");
    reveal_strlit("refs/");
    reveal_strlit("refs/heads/");
    reveal_strlit("refs/heads/main");
    assert(!starts_with("main"@, "refs/"@)) by {
        assert("main"@.len() < "refs/"@.len());
    }
    assert("refs/heads/"@ + "main"@ =~= "refs/heads/main"@);
}

/// What of a pattern filter shapes the SQL: whether it is given, and how it is matched.
pub enum PatternShape {
    Absent,
    Glob,
    Substring,
}

pub open spec fn pattern_shape(p: Option<Seq<char>>) -> PatternShape {
    match p {
        None => PatternShape::Absent,
        Some(p) => if is_glob(p) {
            PatternShape::Glob
        } else {
            PatternShape::Substring
        },
    }
}

/// The `select:` modifier without the kind named in `select:symbol.KIND`.
pub enum SelectShape {
    Unset,
    Repo,
    File,
    Symbol,
    SymbolKind,
}

pub open spec fn select_shape(s: Option<SelectView>) -> SelectShape {
    match s {
        None => SelectShape::Unset,
        Some(SelectView::Repo) => SelectShape::Repo,
        Some(SelectView::File) => SelectShape::File,
        Some(SelectView::Symbol) => SelectShape::Symbol,
        Some(SelectView::SymbolKind(_)) => SelectShape::SymbolKind,
    }
}

/// Everything of a parsed query that the generated SQL text may depend on:
/// which filters are present, whether patterns are GLOB or substring matches,
/// the search type, the select modifier and the limit. User-supplied text
/// itself is not part of it.
pub struct QueryShape {
    pub search_type: SearchType,
    pub pattern: PatternShape,
    pub repo: PatternShape,
    pub file: PatternShape,
    pub neg_file: PatternShape,
    pub author: PatternShape,
    pub message: PatternShape,
    pub calls: PatternShape,
    pub calledby: PatternShape,
    pub returns: PatternShape,
    pub lang: bool,
    pub before: bool,
    pub after: bool,
    pub select: SelectShape,
    pub limit: u32,
}

pub open spec fn query_shape(q: ParsedQueryView) -> QueryShape {
    QueryShape {
        search_type: q.search_type,
        pattern: if q.search_pattern.len() == 0 {
            PatternShape::Absent
        } else {
            pattern_shape(Some(q.search_pattern))
        },
        repo: pattern_shape(q.filters.repo),
        file: pattern_shape(q.filters.file),
        neg_file: pattern_shape(q.filters.neg_file),
        author: pattern_shape(q.filters.author),
        message: pattern_shape(q.filters.message),
        calls: pattern_shape(q.filters.calls),
        calledby: pattern_shape(q.filters.calledby),
        returns: pattern_shape(q.filters.returns),
        lang: q.filters.lang is Some,
        before: q.filters.before is Some,
        after: q.filters.after is Some,
        select: select_shape(q.filters.select),
        limit: limit(q.filters),
    }
}

/// Two partial statements with the same text and the same number of parameters.
pub open spec fn same_sql(a: SqlParts, b: SqlParts) -> bool {
    a.joins == b.joins && a.conds == b.conds && a.params.len() == b.params.len()
}

/// Two translations that differ at most in the values bound to the parameters.
pub open spec fn same_statement(
    a: Result<TranslatedView, QueryErrorView>,
    b: Result<TranslatedView, QueryErrorView>,
) -> bool {
    match (a, b) {
        (Ok(x), Ok(y)) => x.sql == y.sql && x.params.len() == y.params.len() && x.search_type
            == y.search_type,
        (Err(x), Err(y)) => x == y,
        _ => false,
    }
}

proof fn lemma_same_pattern_cond(
    b1: SqlParts,
    b2: SqlParts,
    column: Seq<char>,
    p1: Seq<char>,
    p2: Seq<char>,
    negate: bool,
)
    requires
        same_sql(b1, b2),
        is_glob(p1) == is_glob(p2),
    ensures
        same_sql(pattern_cond(b1, column, p1, negate), pattern_cond(b2, column, p2, negate)),
{
}

proof fn lemma_same_opt_pattern_cond(
    b1: SqlParts,
    b2: SqlParts,
    column: Seq<char>,
    p1: Option<Seq<char>>,
    p2: Option<Seq<char>>,
    negate: bool,
)
    requires
        same_sql(b1, b2),
        pattern_shape(p1) == pattern_shape(p2),
    ensures
        same_sql(opt_pattern_cond(b1, column, p1, negate), opt_pattern_cond(b2, column, p2, negate)),
{
    if p1 is Some {
        lemma_same_pattern_cond(b1, b2, column, p1->0, p2->0, negate);
    }
}

proof fn lemma_same_repo_cond(
    b1: SqlParts,
    b2: SqlParts,
    p1: Option<Seq<char>>,
    p2: Option<Seq<char>>,
    join_line: Seq<char>,
)
    requires
        same_sql(b1, b2),
        pattern_shape(p1) == pattern_shape(p2),
    ensures
        same_sql(repo_cond(b1, p1, join_line), repo_cond(b2, p2, join_line)),
{
    if p1 is Some {
        lemma_same_pattern_cond(
            with_join(b1, join_line),
            with_join(b2, join_line),
            "rp.name"@,
            p1->0,
            p2->0,
            false,
        );
    }
}

proof fn lemma_same_opt_value_cond(
    b1: SqlParts,
    b2: SqlParts,
    prefix: Seq<char>,
    v1: Option<Seq<char>>,
    v2: Option<Seq<char>>,
)
    requires
        same_sql(b1, b2),
        v1 is Some == v2 is Some,
    ensures
        same_sql(opt_value_cond(b1, prefix, v1), opt_value_cond(b2, prefix, v2)),
{
}

proof fn lemma_same_time_cond(
    b1: SqlParts,
    b2: SqlParts,
    op: Seq<char>,
    v1: Option<Seq<char>>,
    v2: Option<Seq<char>>,
)
    requires
        same_sql(b1, b2),
        v1 is Some == v2 is Some,
    ensures
        same_sql(time_cond(b1, op, v1), time_cond(b2, op, v2)),
{
}

proof fn lemma_same_xref_filters(b1: SqlParts, b2: SqlParts, q1: ParsedQueryView, q2: ParsedQueryView)
    requires
        same_sql(b1, b2),
        query_shape(q1) == query_shape(q2),
    ensures
        same_sql(xref_filters(b1, q1.filters), xref_filters(b2, q2.filters)),
{
    let (f1, f2) = (q1.filters, q2.filters);
    let j = "JOIN repos rp ON rp.id = r.repo_id"@;
    lemma_same_repo_cond(b1, b2, f1.repo, f2.repo, j);
    let (c1, c2) = (repo_cond(b1, f1.repo, j), repo_cond(b2, f2.repo, j));
    lemma_same_opt_pattern_cond(c1, c2, "fr.path"@, f1.file, f2.file, false);
    let (d1, d2) = (opt_pattern_cond(c1, "fr.path"@, f1.file, false), opt_pattern_cond(c2, "fr.path"@, f2.file, false));
    lemma_same_opt_pattern_cond(d1, d2, "fr.path"@, f1.neg_file, f2.neg_file, true);
    let (e1, e2) = (opt_pattern_cond(d1, "fr.path"@, f1.neg_file, true), opt_pattern_cond(d2, "fr.path"@, f2.neg_file, true));
    lemma_same_opt_value_cond(e1, e2, "AND b.language = "@, f1.lang, f2.lang);
}

proof fn lemma_same_code_parts(q1: ParsedQueryView, q2: ParsedQueryView)
    requires
        query_shape(q1) == query_shape(q2),
    ensures
        same_sql(code_parts(q1), code_parts(q2)),
{
    let (f1, f2) = (q1.filters, q2.filters);
    let a1 = SqlParts { joins: code_joins(), conds: Seq::empty(), params: seq![q1.search_pattern] };
    let a2 = SqlParts { joins: code_joins(), conds: Seq::empty(), params: seq![q2.search_pattern] };
    let j = "JOIN repos rp ON rp.id = r.repo_id"@;
    lemma_same_repo_cond(a1, a2, f1.repo, f2.repo, j);
    let (c1, c2) = (repo_cond(a1, f1.repo, j), repo_cond(a2, f2.repo, j));
    lemma_same_opt_pattern_cond(c1, c2, "fr.path"@, f1.file, f2.file, false);
    let (d1, d2) = (opt_pattern_cond(c1, "fr.path"@, f1.file, false), opt_pattern_cond(c2, "fr.path"@, f2.file, false));
    lemma_same_opt_pattern_cond(d1, d2, "fr.path"@, f1.neg_file, f2.neg_file, true);
    let (e1, e2) = (opt_pattern_cond(d1, "fr.path"@, f1.neg_file, true), opt_pattern_cond(d2, "fr.path"@, f2.neg_file, true));
    lemma_same_opt_value_cond(e1, e2, "AND b.language = "@, f1.lang, f2.lang);
}

proof fn lemma_same_diff_parts(q1: ParsedQueryView, q2: ParsedQueryView)
    requires
        query_shape(q1) == query_shape(q2),
    ensures
        same_sql(diff_parts(q1), diff_parts(q2)),
{
    let (f1, f2) = (q1.filters, q2.filters);
    let a1 = SqlParts { joins: diff_joins(), conds: Seq::empty(), params: seq![q1.search_pattern] };
    let a2 = SqlParts { joins: diff_joins(), conds: Seq::empty(), params: seq![q2.search_pattern] };
    let j = "JOIN repos rp ON rp.id = c.repo_id"@;
    lemma_same_repo_cond(a1, a2, f1.repo, f2.repo, j);
    let (c1, c2) = (repo_cond(a1, f1.repo, j), repo_cond(a2, f2.repo, j));
    lemma_same_opt_pattern_cond(c1, c2, "d.path"@, f1.file, f2.file, false);
    let (d1, d2) = (opt_pattern_cond(c1, "d.path"@, f1.file, false), opt_pattern_cond(c2, "d.path"@, f2.file, false));
    lemma_same_opt_pattern_cond(d1, d2, "d.path"@, f1.neg_file, f2.neg_file, true);
    let (e1, e2) = (opt_pattern_cond(d1, "d.path"@, f1.neg_file, true), opt_pattern_cond(d2, "d.path"@, f2.neg_file, true));
    lemma_same_opt_pattern_cond(e1, e2, "c.author"@, f1.author, f2.author, false);
    let (g1, g2) = (opt_pattern_cond(e1, "c.author"@, f1.author, false), opt_pattern_cond(e2, "c.author"@, f2.author, false));
    lemma_same_time_cond(g1, g2, "<"@, f1.before, f2.before);
    lemma_same_time_cond(time_cond(g1, "<"@, f1.before), time_cond(g2, "<"@, f2.before), ">"@, f1.after, f2.after);
}

proof fn lemma_same_commit_parts(q1: ParsedQueryView, q2: ParsedQueryView)
    requires
        query_shape(q1) == query_shape(q2),
    ensures
        same_sql(commit_parts(q1), commit_parts(q2)),
{
    let (f1, f2) = (q1.filters, q2.filters);
    let a = SqlParts { joins: Seq::empty(), conds: Seq::empty(), params: Seq::empty() };
    let a1 = if q1.search_pattern.len() > 0 { pattern_cond(a, "c.message"@, q1.search_pattern, false) } else { a };
    let a2 = if q2.search_pattern.len() > 0 { pattern_cond(a, "c.message"@, q2.search_pattern, false) } else { a };
    if q1.search_pattern.len() > 0 {
        lemma_same_pattern_cond(a, a, "c.message"@, q1.search_pattern, q2.search_pattern, false);
    }
    lemma_same_opt_pattern_cond(a1, a2, "c.message"@, f1.message, f2.message, false);
    let (b1, b2) = (opt_pattern_cond(a1, "c.message"@, f1.message, false), opt_pattern_cond(a2, "c.message"@, f2.message, false));
    let j = "JOIN repos rp ON rp.id = c.repo_id"@;
    lemma_same_repo_cond(b1, b2, f1.repo, f2.repo, j);
    let (c1, c2) = (repo_cond(b1, f1.repo, j), repo_cond(b2, f2.repo, j));
    lemma_same_opt_pattern_cond(c1, c2, "c.author"@, f1.author, f2.author, false);
    let (g1, g2) = (opt_pattern_cond(c1, "c.author"@, f1.author, false), opt_pattern_cond(c2, "c.author"@, f2.author, false));
    lemma_same_time_cond(g1, g2, "<"@, f1.before, f2.before);
    lemma_same_time_cond(time_cond(g1, "<"@, f1.before), time_cond(g2, "<"@, f2.before), ">"@, f1.after, f2.after);
}

proof fn lemma_same_symbol_parts(q1: ParsedQueryView, q2: ParsedQueryView)
    requires
        query_shape(q1) == query_shape(q2),
    ensures
        same_sql(symbol_parts(q1), symbol_parts(q2)),
{
    let (f1, f2) = (q1.filters, q2.filters);
    let a = SqlParts { joins: symbol_joins(), conds: Seq::empty(), params: Seq::empty() };
    let a1 = if q1.search_pattern.len() > 0 { pattern_cond(a, "s.name"@, q1.search_pattern, false) } else { a };
    let a2 = if q2.search_pattern.len() > 0 { pattern_cond(a, "s.name"@, q2.search_pattern, false) } else { a };
    if q1.search_pattern.len() > 0 {
        lemma_same_pattern_cond(a, a, "s.name"@, q1.search_pattern, q2.search_pattern, false);
    }
    let j = "JOIN repos rp ON rp.id = r.repo_id"@;
    lemma_same_repo_cond(a1, a2, f1.repo, f2.repo, j);
    let (c1, c2) = (repo_cond(a1, f1.repo, j), repo_cond(a2, f2.repo, j));
    lemma_same_opt_pattern_cond(c1, c2, "fr.path"@, f1.file, f2.file, false);
    let (d1, d2) = (opt_pattern_cond(c1, "fr.path"@, f1.file, false), opt_pattern_cond(c2, "fr.path"@, f2.file, false));
    lemma_same_opt_pattern_cond(d1, d2, "fr.path"@, f1.neg_file, f2.neg_file, true);
    let (e1, e2) = (opt_pattern_cond(d1, "fr.path"@, f1.neg_file, true), opt_pattern_cond(d2, "fr.path"@, f2.neg_file, true));
    lemma_same_opt_value_cond(e1, e2, "AND b.language = "@, f1.lang, f2.lang);
    let (g1, g2) = (opt_value_cond(e1, "AND b.language = "@, f1.lang), opt_value_cond(e2, "AND b.language = "@, f2.lang));
    lemma_same_opt_value_cond(g1, g2, "AND s.kind = "@, symbol_kind(f1), symbol_kind(f2));
    let (h1, h2) = (opt_value_cond(g1, "AND s.kind = "@, symbol_kind(f1)), opt_value_cond(g2, "AND s.kind = "@, symbol_kind(f2)));
    lemma_same_returns_cond(h1, h2, f1.returns, f2.returns);
    let (k1, k2) = (returns_cond(h1, f1.returns), returns_cond(h2, f2.returns));
    assert(symbol_parts(q1) == value_cond(k1, "AND r.name = "@, rev_ref(f1.rev)));
    assert(symbol_parts(q2) == value_cond(k2, "AND r.name = "@, rev_ref(f2.rev)));
}

proof fn lemma_same_returns_cond(b1: SqlParts, b2: SqlParts, r1: Option<Seq<char>>, r2: Option<Seq<char>>)
    requires
        same_sql(b1, b2),
        pattern_shape(r1) == pattern_shape(r2),
    ensures
        same_sql(returns_cond(b1, r1), returns_cond(b2, r2)),
{
    if r1 is Some {
        lemma_same_pattern_cond(b1, b2, "s.return_type"@, r1->0, r2->0, false);
    }
}

proof fn lemma_same_translate_code(q1: ParsedQueryView, q2: ParsedQueryView)
    requires
        query_shape(q1) == query_shape(q2),
    ensures
        same_statement(spec_translate_code(q1), spec_translate_code(q2)),
{
    lemma_same_code_parts(q1, q2);
}

proof fn lemma_same_translate_diff(q1: ParsedQueryView, q2: ParsedQueryView)
    requires
        query_shape(q1) == query_shape(q2),
    ensures
        same_statement(spec_translate_diff(q1), spec_translate_diff(q2)),
{
    lemma_same_diff_parts(q1, q2);
}

proof fn lemma_same_translate_commit(q1: ParsedQueryView, q2: ParsedQueryView)
    requires
        query_shape(q1) == query_shape(q2),
    ensures
        same_statement(spec_translate_commit(q1), spec_translate_commit(q2)),
{
    lemma_same_commit_parts(q1, q2);
}

proof fn lemma_same_translate_symbol(q1: ParsedQueryView, q2: ParsedQueryView)
    requires
        query_shape(q1) == query_shape(q2),
    ensures
        same_statement(spec_translate_symbol(q1), spec_translate_symbol(q2)),
{
    lemma_same_symbol_parts(q1, q2);
    assert(symbol_search_has_criteria(q1) == symbol_search_has_criteria(q2));
}

proof fn lemma_same_translate_callers(q1: ParsedQueryView, q2: ParsedQueryView)
    requires
        query_shape(q1) == query_shape(q2),
        q1.filters.calls is Some,
    ensures
        same_statement(
            Ok::<TranslatedView, QueryErrorView>(spec_translate_callers(q1, q1.filters.calls->0)),
            Ok::<TranslatedView, QueryErrorView>(spec_translate_callers(q2, q2.filters.calls->0)),
        ),
{
    let (f1, f2) = (q1.filters, q2.filters);
    let b1 = SqlParts { joins: callers_joins(), conds: Seq::empty(), params: Seq::empty() };
    lemma_same_pattern_cond(b1, b1, "sr.ref_name"@, f1.calls->0, f2.calls->0, false);
    let c1 = pattern_cond(b1, "sr.ref_name"@, f1.calls->0, false);
    let c2 = pattern_cond(b1, "sr.ref_name"@, f2.calls->0, false);
    lemma_same_xref_filters(
        with_cond(with_cond(c1, "AND sr.kind = 'call'"@), "AND s.kind = 'function'"@),
        with_cond(with_cond(c2, "AND sr.kind = 'call'"@), "AND s.kind = 'function'"@),
        q1,
        q2,
    );
}

proof fn lemma_same_translate_callees(q1: ParsedQueryView, q2: ParsedQueryView)
    requires
        query_shape(q1) == query_shape(q2),
        q1.filters.calledby is Some,
    ensures
        same_statement(
            Ok::<TranslatedView, QueryErrorView>(spec_translate_callees(q1, q1.filters.calledby->0)),
            Ok::<TranslatedView, QueryErrorView>(spec_translate_callees(q2, q2.filters.calledby->0)),
        ),
{
    let (f1, f2) = (q1.filters, q2.filters);
    let b1 = SqlParts { joins: callees_joins(), conds: Seq::empty(), params: Seq::empty() };
    lemma_same_pattern_cond(b1, b1, "s.name"@, f1.calledby->0, f2.calledby->0, false);
    let c1 = pattern_cond(b1, "s.name"@, f1.calledby->0, false);
    let c2 = pattern_cond(b1, "s.name"@, f2.calledby->0, false);
    lemma_same_xref_filters(
        with_cond(c1, "AND s.kind = 'function'"@),
        with_cond(c2, "AND s.kind = 'function'"@),
        q1,
        q2,
    );
}

/// The SQL text depends on the shape of the query only: two queries that differ
/// just in the text of their search pattern and filter values (keeping whether
/// each pattern is a GLOB or a substring match) translate to the same SQL with
/// the same number of parameters, or fail alike. User text reaches the
/// database only as bound parameters, never inside the SQL.
pub proof fn law_sql_depends_only_on_shape(q1: ParsedQueryView, q2: ParsedQueryView)
    requires
        query_shape(q1) == query_shape(q2),
    ensures
        same_statement(spec_translate(q1), spec_translate(q2)),
{
    let (f1, f2) = (q1.filters, q2.filters);
    if f1.calls is Some {
        lemma_same_translate_callers(q1, q2);
    } else if f1.calledby is Some {
        lemma_same_translate_callees(q1, q2);
    } else if f1.returns is Some || q1.search_type == SearchType::Symbol {
        lemma_same_translate_symbol(q1, q2);
    } else if q1.search_type == SearchType::Code {
        lemma_same_translate_code(q1, q2);
    } else if q1.search_type == SearchType::Diff {
        lemma_same_translate_diff(q1, q2);
    } else {
        lemma_same_translate_commit(q1, q2);
    }
}

/// A diff search reads neither the language, the revision, the message
/// filter nor case sensitivity: two diff queries (with no cross-reference
/// filter, which would make them symbol searches) that differ only in those
/// translate alike.
pub proof fn law_diff_search_ignores_lang_rev_message_case(q1: ParsedQueryView, q2: ParsedQueryView)
    requires
        q1.search_type == SearchType::Diff,
        q2.search_type == SearchType::Diff,
        q1.search_pattern == q2.search_pattern,
        q1.filters.repo == q2.filters.repo,
        q1.filters.file == q2.filters.file,
        q1.filters.neg_file == q2.filters.neg_file,
        q1.filters.count == q2.filters.count,
        q1.filters.author == q2.filters.author,
        q1.filters.before == q2.filters.before,
        q1.filters.after == q2.filters.after,
        q1.filters.select == q2.filters.select,
        q1.filters.calls is None && q1.filters.calledby is None && q1.filters.returns is None,
        q2.filters.calls is None && q2.filters.calledby is None && q2.filters.returns is None,
    ensures
        spec_translate(q1) == spec_translate(q2),
{
    assert(diff_parts(q1) == diff_parts(q2));
}

/// A commit search reads neither the revision, the language, the file
/// filters nor `select:`: two commit queries (with no cross-reference
/// filter, which would make them symbol searches) that differ only in those
/// translate alike.
pub proof fn law_commit_search_ignores_rev_lang_file_select(q1: ParsedQueryView, q2: ParsedQueryView)
    requires
        q1.search_type == SearchType::Commit,
        q2.search_type == SearchType::Commit,
        q1.search_pattern == q2.search_pattern,
        q1.filters.repo == q2.filters.repo,
        q1.filters.count == q2.filters.count,
        q1.filters.case_sensitive == q2.filters.case_sensitive,
        q1.filters.author == q2.filters.author,
        q1.filters.before == q2.filters.before,
        q1.filters.after == q2.filters.after,
        q1.filters.message == q2.filters.message,
        q1.filters.calls is None && q1.filters.calledby is None && q1.filters.returns is None,
        q2.filters.calls is None && q2.filters.calledby is None && q2.filters.returns is None,
    ensures
        spec_translate(q1) == spec_translate(q2),
{
    assert(commit_parts(q1) == commit_parts(q2));
}

// ---------------------------------------------------------------------------
// The repo: filter restricts every search
// ---------------------------------------------------------------------------

/// Whether `x` occurs in `s`.
pub open spec fn has_infix(s: Seq<char>, x: Seq<char>) -> bool {
    exists|i: int| 0 <= i && i + x.len() <= s.len() && #[trigger] s.subrange(i, i + x.len()) == x
}

/// The condition matching the repository name against parameter `n`, by
/// substring (`LIKE`) or by glob.
pub open spec fn repo_name_clause_at(s: Seq<char>, n: int) -> bool {
    has_infix(s, "rp.name"@ + " LIKE "@ + placeholder(n as nat)) || has_infix(
        s,
        "rp.name"@ + " GLOB "@ + placeholder(n as nat),
    )
}

/// The parts join the repos table with `join` and match the repository
/// name against parameter `n`, which is bound to the pattern of `p`.
spec fn repo_bound(b: SqlParts, p: Seq<char>, join: Seq<char>, n: int) -> bool {
    &&& has_infix(b.joins, join)
    &&& 1 <= n <= b.params.len()
    &&& b.params[n - 1] == pattern_param(p)
    &&& repo_name_clause_at(b.conds, n)
}

proof fn lemma_infix_at_end(y: Seq<char>, x: Seq<char>)
    ensures
        has_infix(y + x, x),
{
    assert((y + x).subrange(y.len() as int, (y.len() + x.len()) as int) =~= x);
}

proof fn lemma_infix_extend(y: Seq<char>, a: Seq<char>, z: Seq<char>, x: Seq<char>)
    requires
        has_infix(a, x),
    ensures
        has_infix(y + a + z, x),
        has_infix(y + a, x),
        has_infix(a + z, x),
{
    let i = choose|i: int| 0 <= i && i + x.len() <= a.len() && #[trigger] a.subrange(i, i + x.len()) == x;
    assert((y + a + z).subrange(y.len() + i, y.len() + i + x.len()) =~= a.subrange(i, i + x.len()));
    assert((y + a).subrange(y.len() + i, y.len() + i + x.len()) =~= a.subrange(i, i + x.len()));
    assert((a + z).subrange(i, i + x.len()) =~= a.subrange(i, i + x.len()));
}

proof fn lemma_clause_extend(y: Seq<char>, a: Seq<char>, z: Seq<char>, n: int)
    requires
        repo_name_clause_at(a, n),
    ensures
        repo_name_clause_at(y + a + z, n),
        repo_name_clause_at(y + a, n),
        repo_name_clause_at(a + z, n),
{
    if has_infix(a, "rp.name"@ + " LIKE "@ + placeholder(n as nat)) {
        lemma_infix_extend(y, a, z, "rp.name"@ + " LIKE "@ + placeholder(n as nat));
    } else {
        lemma_infix_extend(y, a, z, "rp.name"@ + " GLOB "@ + placeholder(n as nat));
    }
}

proof fn lemma_keep_join(b: SqlParts, j: Seq<char>, p: Seq<char>, join: Seq<char>, n: int)
    requires
        repo_bound(b, p, join, n),
    ensures
        repo_bound(with_join(b, j), p, join, n),
{
    lemma_infix_extend(Seq::empty(), b.joins, "\n"@ + j, join);
    assert(Seq::<char>::empty() + b.joins + ("\n"@ + j) =~= b.joins + "\n"@ + j);
}

proof fn lemma_keep_cond(b: SqlParts, c: Seq<char>, p: Seq<char>, join: Seq<char>, n: int)
    requires
        repo_bound(b, p, join, n),
    ensures
        repo_bound(with_cond(b, c), p, join, n),
{
    lemma_clause_extend(Seq::empty(), b.conds, "\n  "@ + c, n);
    assert(Seq::<char>::empty() + b.conds + ("\n  "@ + c) =~= b.conds + "\n  "@ + c);
}

proof fn lemma_keep_param(b: SqlParts, v: Seq<char>, p: Seq<char>, join: Seq<char>, n: int)
    requires
        repo_bound(b, p, join, n),
    ensures
        repo_bound(with_param(b, v), p, join, n),
{
    assert(with_param(b, v).params[n - 1] == b.params[n - 1]);
}

proof fn lemma_keep_pattern(b: SqlParts, col: Seq<char>, q: Seq<char>, neg: bool, p: Seq<char>, join: Seq<char>, n: int)
    requires
        repo_bound(b, p, join, n),
    ensures
        repo_bound(pattern_cond(b, col, q, neg), p, join, n),
{
    let b1 = with_param(b, pattern_param(q));
    lemma_keep_param(b, pattern_param(q), p, join, n);
    let clause = pattern_clause(col, q, b1.params.len());
    lemma_keep_cond(b1, "AND NOT ("@ + clause + ")"@, p, join, n);
    lemma_keep_cond(b1, "AND "@ + clause, p, join, n);
}

proof fn lemma_keep_opt_pattern(b: SqlParts, col: Seq<char>, q: Option<Seq<char>>, neg: bool, p: Seq<char>, join: Seq<char>, n: int)
    requires
        repo_bound(b, p, join, n),
    ensures
        repo_bound(opt_pattern_cond(b, col, q, neg), p, join, n),
{
    if let Some(x) = q {
        lemma_keep_pattern(b, col, x, neg, p, join, n);
    }
}

proof fn lemma_keep_value(b: SqlParts, prefix: Seq<char>, v: Seq<char>, p: Seq<char>, join: Seq<char>, n: int)
    requires
        repo_bound(b, p, join, n),
    ensures
        repo_bound(value_cond(b, prefix, v), p, join, n),
{
    let b1 = with_param(b, v);
    lemma_keep_param(b, v, p, join, n);
    lemma_keep_cond(b1, prefix + placeholder(b1.params.len()), p, join, n);
}

proof fn lemma_keep_opt_value(b: SqlParts, prefix: Seq<char>, v: Option<Seq<char>>, p: Seq<char>, join: Seq<char>, n: int)
    requires
        repo_bound(b, p, join, n),
    ensures
        repo_bound(opt_value_cond(b, prefix, v), p, join, n),
{
    if let Some(x) = v {
        lemma_keep_value(b, prefix, x, p, join, n);
    }
}

proof fn lemma_keep_time(b: SqlParts, op: Seq<char>, v: Option<Seq<char>>, p: Seq<char>, join: Seq<char>, n: int)
    requires
        repo_bound(b, p, join, n),
    ensures
        repo_bound(time_cond(b, op, v), p, join, n),
{
    if let Some(x) = v {
        let b1 = with_param(b, x);
        lemma_keep_param(b, x, p, join, n);
        lemma_keep_cond(
            b1,
            "AND c.timestamp "@ + op + " CAST(strftime('%s', "@ + placeholder(b1.params.len())
                + ") AS INTEGER)"@,
            p,
            join,
            n,
        );
    }
}

proof fn lemma_keep_returns(b: SqlParts, r: Option<Seq<char>>, p: Seq<char>, join: Seq<char>, n: int)
    requires
        repo_bound(b, p, join, n),
    ensures
        repo_bound(returns_cond(b, r), p, join, n),
{
    if let Some(x) = r {
        lemma_keep_pattern(b, "s.return_type"@, x, false, p, join, n);
        lemma_keep_cond(
            pattern_cond(b, "s.return_type"@, x, false),
            "AND s.kind IN ('function', 'method')"@,
            p,
            join,
            n,
        );
    }
}

proof fn lemma_repo_cond_binds(b: SqlParts, p: Seq<char>, join: Seq<char>)
    ensures
        repo_bound(repo_cond(b, Some(p), join), p, join, b.params.len() + 1 as int),
{
    let b0 = with_join(b, join);
    lemma_infix_at_end(b.joins + "\n"@, join);
    let b1 = with_param(b0, pattern_param(p));
    let n = b1.params.len();
    let clause = pattern_clause("rp.name"@, p, n);
    lemma_infix_at_end(b1.conds + "\n  "@ + "AND "@, clause);
    assert(b1.conds + "\n  "@ + ("AND "@ + clause) =~= b1.conds + "\n  "@ + "AND "@ + clause);
}

/// The final statement holds the repos join and the name condition of its parts.
proof fn lemma_statement_holds_parts(
    b: SqlParts,
    p: Seq<char>,
    join: Seq<char>,
    n: int,
    head: Seq<char>,
    mid: Seq<char>,
    tail: Seq<char>,
)
    requires
        repo_bound(b, p, join, n),
    ensures
        has_infix(head + b.joins + mid + b.conds + tail, join),
        repo_name_clause_at(head + b.joins + mid + b.conds + tail, n),
{
    let sql = head + b.joins + mid + b.conds + tail;
    lemma_infix_extend(head, b.joins, mid + b.conds + tail, join);
    assert(head + b.joins + (mid + b.conds + tail) =~= sql);
    lemma_clause_extend(head + b.joins + mid, b.conds, tail, n);
}

/// The statement joins the repos table with `join` and matches the
/// repository name against a parameter bound to the pattern of `p`.
pub open spec fn repo_restricted(t: TranslatedView, p: Seq<char>, join: Seq<char>) -> bool {
    &&& has_infix(t.sql, join)
    &&& exists|n: int|
        1 <= n <= t.params.len() && t.params[n - 1] == pattern_param(p)
            && #[trigger] repo_name_clause_at(t.sql, n)
}

/// The filters that follow a cross-reference search's own conditions keep
/// the repository restriction.
proof fn lemma_xref_filters_bound(b2: SqlParts, f: FiltersView)
    requires
        f.repo is Some,
    ensures
        repo_bound(
            xref_filters(b2, f),
            f.repo->0,
            "JOIN repos rp ON rp.id = r.repo_id"@,
            b2.params.len() as int + 1,
        ),
{
    let p = f.repo->0;
    let jr = "JOIN repos rp ON rp.id = r.repo_id"@;
    let n: int = b2.params.len() as int + 1;
    let c1 = repo_cond(b2, f.repo, jr);
    lemma_repo_cond_binds(b2, p, jr);
    let c2 = opt_pattern_cond(c1, "fr.path"@, f.file, false);
    lemma_keep_opt_pattern(c1, "fr.path"@, f.file, false, p, jr, n);
    let c3 = opt_pattern_cond(c2, "fr.path"@, f.neg_file, true);
    lemma_keep_opt_pattern(c2, "fr.path"@, f.neg_file, true, p, jr, n);
    let c4 = opt_value_cond(c3, "AND b.language = "@, f.lang);
    lemma_keep_opt_value(c3, "AND b.language = "@, f.lang, p, jr, n);
    lemma_keep_value(c4, "AND r.name = "@, rev_ref(f.rev), p, jr, n);
}

proof fn lemma_callers_restricted(q: ParsedQueryView, target: Seq<char>)
    requires
        q.filters.repo is Some,
    ensures
        repo_restricted(
            spec_translate_callers(q, target),
            q.filters.repo->0,
            "JOIN repos rp ON rp.id = r.repo_id"@,
        ),
{
    let f = q.filters;
    let b0 = SqlParts { joins: callers_joins(), conds: Seq::empty(), params: Seq::empty() };
    let b1 = pattern_cond(b0, "sr.ref_name"@, target, false);
    let b2 = with_cond(with_cond(b1, "AND sr.kind = 'call'"@), "AND s.kind = 'function'"@);
    let n: int = b2.params.len() as int + 1;
    lemma_xref_filters_bound(b2, f);
    let b = callers_parts(q, target);
    let head = "SELECT DISTINCT fr.path, s.name, s.kind, s.line\nFROM symbol_refs sr\n"@;
    let tail = "\nORDER BY fr.path, s.line"@ + "\nLIMIT "@ + decimal(limit(f) as nat);
    lemma_statement_holds_parts(b, f.repo->0, "JOIN repos rp ON rp.id = r.repo_id"@, n, head, "\nWHERE 1=1"@, tail);
    let t = spec_translate_callers(q, target);
    assert(t.sql =~= head + b.joins + "\nWHERE 1=1"@ + b.conds + tail);
    assert(repo_name_clause_at(t.sql, n));
}

proof fn lemma_callees_restricted(q: ParsedQueryView, caller: Seq<char>)
    requires
        q.filters.repo is Some,
    ensures
        repo_restricted(
            spec_translate_callees(q, caller),
            q.filters.repo->0,
            "JOIN repos rp ON rp.id = r.repo_id"@,
        ),
{
    let f = q.filters;
    let b0 = SqlParts { joins: callees_joins(), conds: Seq::empty(), params: Seq::empty() };
    let b1 = pattern_cond(b0, "s.name"@, caller, false);
    let b2 = with_cond(b1, "AND s.kind = 'function'"@);
    let n: int = b2.params.len() as int + 1;
    lemma_xref_filters_bound(b2, f);
    let b = callees_parts(q, caller);
    let head = "SELECT DISTINCT fr.path, sr.ref_name AS name, sr.kind, sr.line\nFROM symbols s\n"@;
    let tail = "\nORDER BY sr.line"@ + "\nLIMIT "@ + decimal(limit(f) as nat);
    lemma_statement_holds_parts(b, f.repo->0, "JOIN repos rp ON rp.id = r.repo_id"@, n, head, "\nWHERE 1=1"@, tail);
    let t = spec_translate_callees(q, caller);
    assert(t.sql =~= head + b.joins + "\nWHERE 1=1"@ + b.conds + tail);
    assert(repo_name_clause_at(t.sql, n));
}

proof fn lemma_symbol_restricted(q: ParsedQueryView)
    requires
        q.filters.repo is Some,
        spec_translate_symbol(q) is Ok,
    ensures
        repo_restricted(
            spec_translate_symbol(q)->Ok_0,
            q.filters.repo->0,
            "JOIN repos rp ON rp.id = r.repo_id"@,
        ),
{
    let f = q.filters;
    let p = f.repo->0;
    let jr = "JOIN repos rp ON rp.id = r.repo_id"@;
    let b0 = SqlParts { joins: symbol_joins(), conds: Seq::empty(), params: Seq::empty() };
    let b1 = if q.search_pattern.len() > 0 {
        pattern_cond(b0, "s.name"@, q.search_pattern, false)
    } else {
        b0
    };
    let n: int = b1.params.len() as int + 1;
    let b2 = repo_cond(b1, f.repo, jr);
    lemma_repo_cond_binds(b1, p, jr);
    let b3 = opt_pattern_cond(b2, "fr.path"@, f.file, false);
    lemma_keep_opt_pattern(b2, "fr.path"@, f.file, false, p, jr, n);
    let b4 = opt_pattern_cond(b3, "fr.path"@, f.neg_file, true);
    lemma_keep_opt_pattern(b3, "fr.path"@, f.neg_file, true, p, jr, n);
    let b5 = opt_value_cond(b4, "AND b.language = "@, f.lang);
    lemma_keep_opt_value(b4, "AND b.language = "@, f.lang, p, jr, n);
    let b6 = opt_value_cond(b5, "AND s.kind = "@, symbol_kind(f));
    lemma_keep_opt_value(b5, "AND s.kind = "@, symbol_kind(f), p, jr, n);
    let b7 = returns_cond(b6, f.returns);
    lemma_keep_returns(b6, f.returns, p, jr, n);
    lemma_keep_value(b7, "AND r.name = "@, rev_ref(f.rev), p, jr, n);
    let b = symbol_parts(q);
    let head = "SELECT fr.path, s.name, s.kind, s.line\nFROM symbols s\n"@;
    let tail = "\nORDER BY fr.path, s.line"@ + "\nLIMIT "@ + decimal(limit(f) as nat);
    lemma_statement_holds_parts(b, p, jr, n, head, "\nWHERE 1=1"@, tail);
    let t = spec_translate_symbol(q)->Ok_0;
    assert(t.sql =~= head + b.joins + "\nWHERE 1=1"@ + b.conds + tail);
    assert(repo_name_clause_at(t.sql, n));
}

proof fn lemma_code_restricted(q: ParsedQueryView)
    requires
        q.filters.repo is Some,
        spec_translate_code(q) is Ok,
    ensures
        repo_restricted(
            spec_translate_code(q)->Ok_0,
            q.filters.repo->0,
            "JOIN repos rp ON rp.id = r.repo_id"@,
        ),
{
    let f = q.filters;
    let p = f.repo->0;
    let jr = "JOIN repos rp ON rp.id = r.repo_id"@;
    let b0 = SqlParts { joins: code_joins(), conds: Seq::empty(), params: seq![q.search_pattern] };
    let n: int = b0.params.len() as int + 1;
    let b1 = repo_cond(b0, f.repo, jr);
    lemma_repo_cond_binds(b0, p, jr);
    let b2 = opt_pattern_cond(b1, "fr.path"@, f.file, false);
    lemma_keep_opt_pattern(b1, "fr.path"@, f.file, false, p, jr, n);
    let b3 = opt_pattern_cond(b2, "fr.path"@, f.neg_file, true);
    lemma_keep_opt_pattern(b2, "fr.path"@, f.neg_file, true, p, jr, n);
    let b4 = opt_value_cond(b3, "AND b.language = "@, f.lang);
    lemma_keep_opt_value(b3, "AND b.language = "@, f.lang, p, jr, n);
    lemma_keep_value(b4, "AND r.name = "@, rev_ref(f.rev), p, jr, n);
    let b = code_parts(q);
    let head = if selects_repo(f) {
        "SELECT DISTINCT rp.name"@
    } else if selects_file(f) {
        "SELECT DISTINCT fr.path"@
    } else {
        "SELECT fr.path, cs.score, cs.snippet"@
    };
    let tl = if selects_repo(f) {
        "ORDER BY rp.name"@
    } else if selects_file(f) {
        "ORDER BY fr.path"@
    } else {
        "GROUP BY fr.path\nORDER BY cs.score DESC"@
    };
    let h = head + "\nFROM code_search(?1) cs\n"@;
    let tail = "\n"@ + tl + "\nLIMIT "@ + decimal(limit(f) as nat);
    lemma_statement_holds_parts(b, p, jr, n, h, "\nWHERE 1=1"@, tail);
    let t = spec_translate_code(q)->Ok_0;
    assert(t.sql =~= h + b.joins + "\nWHERE 1=1"@ + b.conds + tail);
    assert(repo_name_clause_at(t.sql, n));
}

proof fn lemma_diff_restricted(q: ParsedQueryView)
    requires
        q.filters.repo is Some,
        spec_translate_diff(q) is Ok,
    ensures
        repo_restricted(
            spec_translate_diff(q)->Ok_0,
            q.filters.repo->0,
            "JOIN repos rp ON rp.id = c.repo_id"@,
        ),
{
    let f = q.filters;
    let p = f.repo->0;
    let jc = "JOIN repos rp ON rp.id = c.repo_id"@;
    let b0 = SqlParts { joins: diff_joins(), conds: Seq::empty(), params: seq![q.search_pattern] };
    let n: int = b0.params.len() as int + 1;
    let b1 = repo_cond(b0, f.repo, jc);
    lemma_repo_cond_binds(b0, p, jc);
    let b2 = opt_pattern_cond(b1, "d.path"@, f.file, false);
    lemma_keep_opt_pattern(b1, "d.path"@, f.file, false, p, jc, n);
    let b3 = opt_pattern_cond(b2, "d.path"@, f.neg_file, true);
    lemma_keep_opt_pattern(b2, "d.path"@, f.neg_file, true, p, jc, n);
    let b4 = opt_pattern_cond(b3, "c.author"@, f.author, false);
    lemma_keep_opt_pattern(b3, "c.author"@, f.author, false, p, jc, n);
    let b5 = time_cond(b4, "<"@, f.before);
    lemma_keep_time(b4, "<"@, f.before, p, jc, n);
    lemma_keep_time(b5, ">"@, f.after, p, jc, n);
    let b = diff_parts(q);
    let head = if selects_file(f) {
        "SELECT DISTINCT d.path"@
    } else {
        diff_columns()
    };
    let order = if selects_file(f) {
        "ORDER BY d.path"@
    } else {
        "ORDER BY ds.score DESC"@
    };
    let h = head + "\nFROM diff_search(?1) ds\n"@;
    let tail = "\n"@ + order + "\nLIMIT "@ + decimal(limit(f) as nat);
    lemma_statement_holds_parts(b, p, jc, n, h, "\nWHERE 1=1"@, tail);
    let t = spec_translate_diff(q)->Ok_0;
    assert(t.sql =~= h + b.joins + "\nWHERE 1=1"@ + b.conds + tail);
    assert(repo_name_clause_at(t.sql, n));
}

proof fn lemma_commit_restricted(q: ParsedQueryView)
    requires
        q.filters.repo is Some,
        spec_translate_commit(q) is Ok,
    ensures
        repo_restricted(
            spec_translate_commit(q)->Ok_0,
            q.filters.repo->0,
            "JOIN repos rp ON rp.id = c.repo_id"@,
        ),
{
    let f = q.filters;
    let p = f.repo->0;
    let jc = "JOIN repos rp ON rp.id = c.repo_id"@;
    let b0 = SqlParts { joins: Seq::empty(), conds: Seq::empty(), params: Seq::empty() };
    let b1 = if q.search_pattern.len() > 0 {
        pattern_cond(b0, "c.message"@, q.search_pattern, false)
    } else {
        b0
    };
    let b2 = opt_pattern_cond(b1, "c.message"@, f.message, false);
    let n: int = b2.params.len() as int + 1;
    let b3 = repo_cond(b2, f.repo, jc);
    lemma_repo_cond_binds(b2, p, jc);
    let b4 = opt_pattern_cond(b3, "c.author"@, f.author, false);
    lemma_keep_opt_pattern(b3, "c.author"@, f.author, false, p, jc, n);
    let b5 = time_cond(b4, "<"@, f.before);
    lemma_keep_time(b4, "<"@, f.before, p, jc, n);
    lemma_keep_time(b5, ">"@, f.after, p, jc, n);
    let b = commit_parts(q);
    let h = "SELECT substr(c.hash, 1, 10) AS hash, c.author,\n       substr(c.message, 1, 80) AS message\nFROM commits c"@;
    let tail = "\nORDER BY c.timestamp DESC"@ + "\nLIMIT "@ + decimal(limit(f) as nat);
    lemma_statement_holds_parts(b, p, jc, n, h, "\nWHERE 1=1"@, tail);
    let t = spec_translate_commit(q)->Ok_0;
    assert(t.sql =~= h + b.joins + "\nWHERE 1=1"@ + b.conds + tail);
    assert(repo_name_clause_at(t.sql, n));
}

/// Whether a query searches at a ref: code and symbol searches, and the
/// cross-reference filters (which make a symbol search).
pub open spec fn runs_on_refs(q: ParsedQueryView) -> bool {
    q.filters.calls is Some || q.filters.calledby is Some || q.filters.returns is Some
        || q.search_type == SearchType::Code || q.search_type == SearchType::Symbol
}

/// Every search is restricted to the repositories that `repo:` names: the
/// statement joins the repos table (through the ref for code, symbol and
/// cross-reference searches, through the commit for diff and commit
/// searches) and matches the repository name, by substring or glob,
/// against a parameter bound to the `repo:` pattern.
pub proof fn law_repo_filter_restricts_every_search(q: ParsedQueryView)
    requires
        q.filters.repo is Some,
        spec_translate(q) is Ok,
    ensures
        runs_on_refs(q) ==> repo_restricted(
            spec_translate(q)->Ok_0,
            q.filters.repo->0,
            "JOIN repos rp ON rp.id = r.repo_id"@,
        ),
        !runs_on_refs(q) ==> repo_restricted(
            spec_translate(q)->Ok_0,
            q.filters.repo->0,
            "JOIN repos rp ON rp.id = c.repo_id"@,
        ),
{
    let f = q.filters;
    if f.calls is Some {
        lemma_callers_restricted(q, f.calls->0);
    } else if f.calledby is Some {
        lemma_callees_restricted(q, f.calledby->0);
    } else if f.returns is Some || q.search_type == SearchType::Symbol {
        lemma_symbol_restricted(q);
    } else if q.search_type == SearchType::Code {
        lemma_code_restricted(q);
    } else if q.search_type == SearchType::Diff {
        lemma_diff_restricted(q);
    } else {
        lemma_commit_restricted(q);
    }
}

} // verus!
