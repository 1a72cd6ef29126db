//! Code search library: query language, SQL translation and indexing helpers.
pub mod text;
pub mod query;
pub mod translate;
pub mod language;
pub mod git_ops;
pub mod types;
pub mod vtab_helpers;
pub mod symbols;
pub mod syntax;
pub mod type_info;
pub mod grammar;
pub mod query_builder;
pub mod builder;
pub mod vtab;
pub mod indexing;
pub mod catalog;
