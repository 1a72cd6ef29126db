# codedb

Code indexing and search: a Sourcegraph-style query language translated to
SQL, symbol extraction with tree-sitter, full-text search through SQLite
virtual tables over tantivy indexes, and indexing of git history.

## Layout

- `src/` — the library, verified with Verus.
  - `query.rs`, `translate.rs` — tokenizing and parsing queries; translating
    them to SQL with parameters.
  - `language.rs`, `git_ops.rs` — file languages by extension; repository
    names and directories from URLs.
  - `syntax.rs`, `type_info.rs` — syntax trees as plain values, byte-range
    text, signatures, parameter lists and return types.
  - `symbols.rs`, `grammar.rs` — symbols and call references from query
    matches (ordering, nesting, containment); grammars, queries and
    extraction through the parser.
  - `types.rs`, `builder.rs`, `vtab_helpers.rs`, `vtab.rs`, `catalog.rs` —
    defining, validating and planning the search virtual tables.
  - `query_builder.rs` — planning and building full-text queries.
  - `indexing.rs` — tree differences, diff text, the history walk, progress
    messages and symbol bookkeeping.
  - `text.rs` — character-sequence helpers.
- `tests/` — tests of the library.
- `app/` — the command line program: SQLite, tantivy and git I/O, and the
  virtual table's trait implementations.
