//! Plain decisions of the search virtual table: its DDL, how constraints are
//! used, and how the chosen constraints are read back.
use vstd::prelude::*;
use vstd::string::*;
use crate::text::{join, strings_view};
use crate::types::ColumnDef;

verus! {

pub const IDX_QUERY: i32 = 0x01;
pub const IDX_MODE: i32 = 0x02;
pub const IDX_LIMIT_COL: i32 = 0x04;

/// The DDL text of one visible column.
pub open spec fn column_ddl(c: ColumnDef) -> Seq<char> {
    c.name@ + " "@ + c.sql_type@
}

/// The DDL parts: visible columns, then the hidden query, mode and limit arguments.
pub open spec fn ddl_parts(columns: Seq<ColumnDef>) -> Seq<Seq<char>> {
    columns.map_values(|c: ColumnDef| column_ddl(c)) + seq![
        "query TEXT HIDDEN"@,
        "mode TEXT HIDDEN"@,
        "query_limit INTEGER HIDDEN"@,
    ]
}

/// `CREATE TABLE name(col type, ..., hidden columns)`.
pub open spec fn spec_ddl(table_name: Seq<char>, columns: Seq<ColumnDef>) -> Seq<char> {
    "CREATE TABLE "@ + table_name + "("@ + join(ddl_parts(columns), ", "@) + ")"@
}

/// Generate the CREATE TABLE DDL for the virtual table.
pub fn generate_ddl(table_name: &str, columns: &[ColumnDef]) -> (ddl: String)
    ensures
        ddl@ == spec_ddl(table_name@, columns@),
{
    let mut parts: Vec<String> = Vec::new();
    let mut i: usize = 0;
    while i < columns.len()
        invariant
            i <= columns.len(),
            strings_view(parts@) == columns@.take(i as int).map_values(
                |c: ColumnDef| column_ddl(c),
            ),
        decreases columns.len() - i,
    {
        let mut part = columns[i].name.clone();
        part.append(" ");
        part.append(columns[i].sql_type);
        let ghost pv = part@;
        let ghost before = parts@;
        assert(pv == column_ddl(columns@[i as int]));
        parts.push(part);
        assert(strings_view(parts@) =~= strings_view(before).push(pv));
        assert(columns@.take(i + 1).map_values(|c: ColumnDef| column_ddl(c)) =~= columns@.take(
            i as int,
        ).map_values(|c: ColumnDef| column_ddl(c)).push(column_ddl(columns@[i as int])));
        i = i + 1;
    }
    let ghost cols_view = strings_view(parts@);
    parts.push("query TEXT HIDDEN".to_owned());
    parts.push("mode TEXT HIDDEN".to_owned());
    parts.push("query_limit INTEGER HIDDEN".to_owned());
    assert(columns@.take(columns.len() as int) =~= columns@);
    assert(strings_view(parts@) =~= ddl_parts(columns@));
    let joined = crate::text::join_strings(&parts, ", ");
    let mut ddl = "CREATE TABLE ".to_owned();
    ddl.append(table_name);
    ddl.append("(");
    ddl.append(joined.as_str());
    ddl.append(")");
    ddl
}

/// Which hidden arguments a filter call received.
#[derive(Debug, Clone, Copy, PartialEq, Eq, Structural)]
pub struct FilterArgs {
    pub has_query: bool,
    pub has_mode: bool,
    pub has_limit_col: bool,
}

/// The plan number that records which hidden arguments are given.
pub open spec fn spec_encode_idx_num(args: FilterArgs) -> i32 {
    (if args.has_query { IDX_QUERY } else { 0i32 }) | (if args.has_mode { IDX_MODE } else { 0i32 })
        | (if args.has_limit_col { IDX_LIMIT_COL } else { 0i32 })
}

/// Reads the hidden arguments back from a plan number.
pub fn decode_idx_num(idx_num: i32) -> (args: FilterArgs)
    ensures
        args.has_query == (idx_num & IDX_QUERY != 0),
        args.has_mode == (idx_num & IDX_MODE != 0),
        args.has_limit_col == (idx_num & IDX_LIMIT_COL != 0),
{
    FilterArgs {
        has_query: idx_num & IDX_QUERY != 0,
        has_mode: idx_num & IDX_MODE != 0,
        has_limit_col: idx_num & IDX_LIMIT_COL != 0,
    }
}

/// Records which hidden arguments are given in a plan number.
pub fn encode_idx_num(args: FilterArgs) -> (idx_num: i32)
    ensures
        idx_num == spec_encode_idx_num(args),
{
    let q: i32 = if args.has_query {
        IDX_QUERY
    } else {
        0i32
    };
    let m: i32 = if args.has_mode {
        IDX_MODE
    } else {
        0i32
    };
    let l: i32 = if args.has_limit_col {
        IDX_LIMIT_COL
    } else {
        0i32
    };
    q | m | l
}

/// Decoding the plan number of a set of hidden arguments gives that set back.
pub proof fn law_idx_num_round_trip(args: FilterArgs)
    ensures
        (spec_encode_idx_num(args) & IDX_QUERY != 0) == args.has_query,
        (spec_encode_idx_num(args) & IDX_MODE != 0) == args.has_mode,
        (spec_encode_idx_num(args) & IDX_LIMIT_COL != 0) == args.has_limit_col,
{
    let q: i32 = if args.has_query { 1i32 } else { 0i32 };
    let m: i32 = if args.has_mode { 2i32 } else { 0i32 };
    let l: i32 = if args.has_limit_col { 4i32 } else { 0i32 };
    assert((q == 0i32 || q == 1i32) && (m == 0i32 || m == 2i32) && (l == 0i32 || l == 4i32) ==> {
        &&& (((q | m) | l) & 1i32 != 0) == (q == 1i32)
        &&& (((q | m) | l) & 2i32 != 0) == (m == 2i32)
        &&& (((q | m) | l) & 4i32 != 0) == (l == 4i32)
    }) by (bit_vector);
}

} // verus!
