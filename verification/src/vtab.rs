//! The decisions of the search virtual table: which constraints a plan uses
//! and in which argument slots, where the filter finds its arguments, and
//! what each column returns.
use vstd::prelude::*;
use crate::types::{ColumnDef, ColumnSource};
use crate::vtab_helpers::{
    decode_idx_num, encode_idx_num, law_idx_num_round_trip, spec_encode_idx_num, FilterArgs,
    IDX_LIMIT_COL, IDX_MODE, IDX_QUERY,
};

verus! {

/// Everything a search virtual table needs: the index, its reader, the
/// fields searched, the visible columns, the table's DDL and the default limit.
pub struct VTabState {
    pub index: tantivy::Index,
    pub reader: tantivy::IndexReader,
    pub search_fields: Vec<tantivy::schema::Field>,
    pub columns: Vec<ColumnDef>,
    pub ddl: String,
    pub default_limit: usize,
}

/// Whether the hidden columns' numbers fit SQLite's column numbers.
pub open spec fn columns_fit(n: nat) -> bool {
    n + 2 <= i32::MAX
}

/// Whether a table with `n` visible columns can number its hidden columns.
pub fn columns_fit_len(n: usize) -> (b: bool)
    ensures
        b == columns_fit(n as nat),
{
    n <= (i32::MAX - 2) as usize
}

impl VTabState {
    /// Column number of the hidden query argument (after the visible columns).
    pub fn query_col(&self) -> (c: i32)
        requires
            columns_fit(self.columns@.len()),
        ensures
            c == self.columns@.len(),
    {
        self.columns.len() as i32
    }

    /// Column number of the hidden mode argument.
    pub fn mode_col(&self) -> (c: i32)
        requires
            columns_fit(self.columns@.len()),
        ensures
            c == self.columns@.len() + 1,
    {
        self.columns.len() as i32 + 1
    }

    /// Column number of the hidden limit argument.
    pub fn limit_col(&self) -> (c: i32)
        requires
            columns_fit(self.columns@.len()),
        ensures
            c == self.columns@.len() + 2,
    {
        self.columns.len() as i32 + 2
    }
}

// ---------------------------------------------------------------------------
// Index planning
// ---------------------------------------------------------------------------

/// A constraint that the planner is offered: whether it is usable, its
/// column, and whether its operator is equality.
#[derive(Debug, Clone, Copy, PartialEq, Eq, Structural)]
pub struct ConstraintInfo {
    pub usable: bool,
    pub column: i32,
    pub is_eq: bool,
}

/// A plan: the plan number, and for each constraint the (one-based)
/// argument slot in which its value is handed to the filter, if it is used.
#[derive(Debug)]
pub struct IndexPlan {
    pub idx_num: i32,
    pub argv_index: Vec<Option<i32>>,
}

/// The hidden argument a constraint feeds, for a table of `n` visible
/// columns: 0 for the query, 1 for the mode, 2 for the limit.
pub open spec fn hidden_slot(c: ConstraintInfo, n: int) -> Option<int> {
    if !c.usable || !c.is_eq {
        None
    } else if c.column == n {
        Some(0)
    } else if c.column == n + 1 {
        Some(1)
    } else if c.column == n + 2 {
        Some(2)
    } else {
        None
    }
}

/// How many of the first `k` constraints are used.
pub open spec fn used_before(cs: Seq<ConstraintInfo>, n: int, k: int) -> int
    decreases k,
{
    if k <= 0 {
        0
    } else {
        used_before(cs, n, k - 1) + if hidden_slot(cs[k - 1], n) is Some {
            1int
        } else {
            0int
        }
    }
}

/// Whether one of the first `k` constraints feeds hidden argument `s`.
pub open spec fn slot_used(cs: Seq<ConstraintInfo>, n: int, s: int, k: int) -> bool {
    exists|i: int| 0 <= i < k && #[trigger] hidden_slot(cs[i], n) == Some(s)
}

/// The hidden arguments a set of constraints provides.
pub open spec fn spec_plan_args(cs: Seq<ConstraintInfo>, n: int) -> FilterArgs {
    FilterArgs {
        has_query: slot_used(cs, n, 0, cs.len() as int),
        has_mode: slot_used(cs, n, 1, cs.len() as int),
        has_limit_col: slot_used(cs, n, 2, cs.len() as int),
    }
}

/// The argument slot of each constraint: used constraints are numbered
/// from 1 in the order they are offered.
pub open spec fn spec_argv(cs: Seq<ConstraintInfo>, n: int) -> Seq<Option<i32>> {
    Seq::new(
        cs.len(),
        |i: int|
            if hidden_slot(cs[i], n) is Some {
                Some((used_before(cs, n, i) + 1) as i32)
            } else {
                None
            },
    )
}

proof fn lemma_used_before_bounds(cs: Seq<ConstraintInfo>, n: int, k: int)
    requires
        0 <= k <= cs.len(),
    ensures
        0 <= used_before(cs, n, k) <= k,
    decreases k,
{
    if k > 0 {
        lemma_used_before_bounds(cs, n, k - 1);
    }
}

/// Choose which constraints the table uses: equality on the hidden query,
/// mode and limit columns.
pub fn plan_best_index(state: &VTabState, constraints: &Vec<ConstraintInfo>) -> (p: IndexPlan)
    requires
        columns_fit(state.columns@.len()),
        constraints@.len() < i32::MAX,
    ensures
        p.idx_num == spec_encode_idx_num(
            spec_plan_args(constraints@, state.columns@.len() as int),
        ),
        p.argv_index@ == spec_argv(constraints@, state.columns@.len() as int),
{
    let ghost n = state.columns@.len() as int;
    let q = state.query_col();
    let m = state.mode_col();
    let l = state.limit_col();
    let mut args = FilterArgs { has_query: false, has_mode: false, has_limit_col: false };
    let mut argv: Vec<Option<i32>> = Vec::new();
    let mut next: i32 = 1;
    let mut i: usize = 0;
    while i < constraints.len()
        invariant
            i <= constraints.len(),
            constraints@.len() < i32::MAX,
            q == n,
            m == n + 1,
            l == n + 2,
            next == used_before(constraints@, n, i as int) + 1,
            args.has_query == slot_used(constraints@, n, 0, i as int),
            args.has_mode == slot_used(constraints@, n, 1, i as int),
            args.has_limit_col == slot_used(constraints@, n, 2, i as int),
            argv@ == spec_argv(constraints@, n).take(i as int),
        decreases constraints.len() - i,
    {
        proof {
            lemma_used_before_bounds(constraints@, n, i as int);
        }
        let c = constraints[i];
        let ghost slot = hidden_slot(c, n);
        let mut used = false;
        if c.usable && c.is_eq {
            if c.column == q {
                args.has_query = true;
                used = true;
            } else if c.column == m {
                args.has_mode = true;
                used = true;
            } else if c.column == l {
                args.has_limit_col = true;
                used = true;
            }
        }
        assert(used == slot is Some);
        proof {
            assert forall|s: int| #[trigger] slot_used(constraints@, n, s, i + 1) == (slot_used(
                constraints@,
                n,
                s,
                i as int,
            ) || slot == Some(s)) by {
                if slot == Some(s) {
                    assert(hidden_slot(constraints@[i as int], n) == Some(s));
                }
            }
        }
        if used {
            argv.push(Some(next));
            next = next + 1;
        } else {
            argv.push(None);
        }
        assert(argv@ =~= spec_argv(constraints@, n).take(i + 1));
        i = i + 1;
    }
    assert(argv@ =~= spec_argv(constraints@, n));
    IndexPlan { idx_num: encode_idx_num(args), argv_index: argv }
}

// ---------------------------------------------------------------------------
// Filtering
// ---------------------------------------------------------------------------

/// Where the filter finds its arguments: whether there is a query (at
/// argument 0; without one there are no results), and the positions of the
/// mode and limit arguments, if given.
#[derive(Debug, Clone, Copy, PartialEq, Eq, Structural)]
pub struct FilterPlan {
    pub has_query: bool,
    pub mode_arg: Option<usize>,
    pub limit_arg: Option<usize>,
}

/// The argument positions that a plan number announces: the query first,
/// then the mode if given, then the limit if given.
pub open spec fn spec_filter_plan(args: FilterArgs) -> FilterPlan {
    FilterPlan {
        has_query: args.has_query,
        mode_arg: if args.has_query && args.has_mode {
            Some(1usize)
        } else {
            None
        },
        limit_arg: if args.has_query && args.has_limit_col {
            Some(
                if args.has_mode {
                    2usize
                } else {
                    1usize
                },
            )
        } else {
            None
        },
    }
}

/// The plan number's arguments.
pub open spec fn spec_decode(idx_num: i32) -> FilterArgs {
    FilterArgs {
        has_query: idx_num & IDX_QUERY != 0,
        has_mode: idx_num & IDX_MODE != 0,
        has_limit_col: idx_num & IDX_LIMIT_COL != 0,
    }
}

/// Where the filter reads its arguments, given the plan number.
pub fn plan_filter(idx_num: i32) -> (p: FilterPlan)
    ensures
        p == spec_filter_plan(spec_decode(idx_num)),
{
    let flags = decode_idx_num(idx_num);
    if !flags.has_query {
        return FilterPlan { has_query: false, mode_arg: None, limit_arg: None };
    }
    let mut arg_idx: usize = 1;
    let mode_arg = if flags.has_mode {
        arg_idx = arg_idx + 1;
        Some(1usize)
    } else {
        None
    };
    let limit_arg = if flags.has_limit_col {
        Some(arg_idx)
    } else {
        None
    };
    FilterPlan { has_query: true, mode_arg, limit_arg }
}

/// The number of results a limit argument asks for: negative limits ask for none.
pub fn clamp_limit(l: i64) -> (r: usize)
    ensures
        r == (if l < 0 {
            0
        } else {
            l
        }) as usize,
{
    if l < 0 {
        0
    } else {
        l as usize
    }
}

/// The query mode: the mode argument if given, else `default`.
pub fn effective_mode(mode: Option<String>) -> (r: String)
    ensures
        r@ == match mode {
            Some(m) => m@,
            None => "default"@,
        },
{
    match mode {
        Some(m) => m,
        None => "default".to_owned(),
    }
}

/// The number of results to fetch: the limit argument if given (negative
/// meaning none), else the table's default.
pub fn effective_limit(limit: Option<i64>, default_limit: usize) -> (r: usize)
    ensures
        r == match limit {
            Some(l) => (if l < 0 {
                0
            } else {
                l
            }) as usize,
            None => default_limit,
        },
{
    match limit {
        Some(l) => clamp_limit(l),
        None => default_limit,
    }
}

/// Used constraints are offered in the order of their hidden columns, each
/// hidden column at most once, and the query is among them.
pub open spec fn constraints_in_order(cs: Seq<ConstraintInfo>, n: int) -> bool {
    &&& forall|i: int, j: int|
        0 <= i < j < cs.len() && (#[trigger] hidden_slot(cs[i], n)) is Some && (#[trigger] hidden_slot(
            cs[j],
            n,
        )) is Some ==> hidden_slot(cs[i], n)->0 < hidden_slot(cs[j], n)->0
    &&& slot_used(cs, n, 0, cs.len() as int)
}

/// The argument position at which the filter reads hidden argument `s`.
pub open spec fn filter_position(p: FilterPlan, s: int) -> Option<int> {
    if s == 0 {
        if p.has_query {
            Some(0)
        } else {
            None
        }
    } else if s == 1 {
        match p.mode_arg {
            Some(a) => Some(a as int),
            None => None,
        }
    } else if s == 2 {
        match p.limit_arg {
            Some(a) => Some(a as int),
            None => None,
        }
    } else {
        None
    }
}

proof fn lemma_used_before_counts(cs: Seq<ConstraintInfo>, n: int, k: int)
    requires
        0 <= k <= cs.len(),
        forall|i: int, j: int|
            0 <= i < j < cs.len() && (#[trigger] hidden_slot(cs[i], n)) is Some && (#[trigger] hidden_slot(
                cs[j],
                n,
            )) is Some ==> hidden_slot(cs[i], n)->0 < hidden_slot(cs[j], n)->0,
    ensures
        used_before(cs, n, k) == (if slot_used(cs, n, 0, k) {
            1int
        } else {
            0int
        }) + (if slot_used(cs, n, 1, k) {
            1int
        } else {
            0int
        }) + (if slot_used(cs, n, 2, k) {
            1int
        } else {
            0int
        }),
    decreases k,
{
    if k > 0 {
        lemma_used_before_counts(cs, n, k - 1);
        let sl = hidden_slot(cs[k - 1], n);
        assert forall|s: int| #[trigger] slot_used(cs, n, s, k) == (slot_used(cs, n, s, k - 1) || sl
            == Some(s)) by {
            if sl == Some(s) {
                assert(hidden_slot(cs[k - 1], n) == Some(s));
            }
            if slot_used(cs, n, s, k) && sl != Some(s) {
                let i = choose|i: int| 0 <= i < k && #[trigger] hidden_slot(cs[i], n) == Some(s);
                assert(i < k - 1);
            }
        }
        if let Some(s) = sl {
            assert(!slot_used(cs, n, s, k - 1)) by {
                if slot_used(cs, n, s, k - 1) {
                    let i = choose|i: int| 0 <= i < k - 1 && #[trigger] hidden_slot(cs[i], n) == Some(s);
                    assert(hidden_slot(cs[i], n)->0 < hidden_slot(cs[k - 1], n)->0);
                }
            }
        }
    }
}

/// The plan's argument slots are where the filter reads its arguments: a
/// constraint used for the query, mode or limit hands its value in slot
/// `a`, and the filter, given the plan number, reads that argument at
/// position `a - 1`. This holds where the used constraints are offered in
/// the order of their hidden columns, each at most once, with the query
/// among them.
pub proof fn law_plan_slots_match_filter_positions(cs: Seq<ConstraintInfo>, n: int, i: int)
    requires
        constraints_in_order(cs, n),
        0 <= i < cs.len(),
        hidden_slot(cs[i], n) is Some,
        cs.len() < i32::MAX,
    ensures
        spec_argv(cs, n)[i] matches Some(a) && filter_position(
            spec_filter_plan(spec_decode(spec_encode_idx_num(spec_plan_args(cs, n)))),
            hidden_slot(cs[i], n)->0,
        ) == Some(a - 1),
{
    let args = spec_plan_args(cs, n);
    law_idx_num_round_trip(args);
    assert(spec_decode(spec_encode_idx_num(args)) == args);
    let s = hidden_slot(cs[i], n)->0;
    lemma_used_before_counts(cs, n, i);
    lemma_used_before_bounds(cs, n, i);
    let k = cs.len() as int;
    // the slots used before `i` are exactly those below `s`
    assert forall|t: int| #[trigger] slot_used(cs, n, t, i) == (0 <= t < s && slot_used(cs, n, t, k)) by {
        if slot_used(cs, n, t, i) {
            let j = choose|j: int| 0 <= j < i && #[trigger] hidden_slot(cs[j], n) == Some(t);
            assert(hidden_slot(cs[j], n)->0 < hidden_slot(cs[i], n)->0);
            assert(slot_used(cs, n, t, k));
        }
        if 0 <= t < s && slot_used(cs, n, t, k) {
            let j = choose|j: int| 0 <= j < k && #[trigger] hidden_slot(cs[j], n) == Some(t);
            if j >= i {
                if j > i {
                    assert(hidden_slot(cs[i], n)->0 < hidden_slot(cs[j], n)->0);
                }
            }
            assert(slot_used(cs, n, t, i));
        }
    }
    assert(hidden_slot(cs[i], n) == Some(s));
    assert(slot_used(cs, n, s, k));
    assert(0 <= s <= 2);
}

// ---------------------------------------------------------------------------
// Column values
// ---------------------------------------------------------------------------

/// What a column of a result row returns.
#[derive(Debug, Clone, Copy, PartialEq, Eq, Structural)]
pub enum ColumnOutput {
    /// SQL NULL (the hidden argument columns).
    Null,
    /// The relevance score.
    Score,
    /// The highlighted snippet, if the row has one.
    Snippet,
    /// The stored value of the field of the visible column with this number.
    Stored(usize),
}

/// What column number `col` returns.
pub open spec fn spec_column_output(columns: Seq<ColumnDef>, col: i32) -> ColumnOutput {
    let c = col as usize;
    if c >= columns.len() {
        ColumnOutput::Null
    } else {
        match columns[c as int].source {
            ColumnSource::Score => ColumnOutput::Score,
            ColumnSource::Snippet(_) => ColumnOutput::Snippet,
            ColumnSource::StoredField(_) => ColumnOutput::Stored(c),
        }
    }
}

/// Decide what a column returns: hidden columns give NULL.
pub fn column_output(columns: &Vec<ColumnDef>, col: i32) -> (r: ColumnOutput)
    ensures
        r == spec_column_output(columns@, col),
{
    let c = col as usize;
    if c >= columns.len() {
        return ColumnOutput::Null;
    }
    match columns[c].source {
        ColumnSource::Score => ColumnOutput::Score,
        ColumnSource::Snippet(_) => ColumnOutput::Snippet,
        ColumnSource::StoredField(_) => ColumnOutput::Stored(c),
    }
}

} // verus!
