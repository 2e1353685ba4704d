//! A Datalog-style query pipeline over a relational store: symbols and typed
//! values, the query parser, the algebrizer, and the SQL translator.

pub mod algebrizer;
pub mod alternation;
pub mod cache;
pub mod clauses;
pub mod codec;
pub mod command;
pub mod edn;
pub mod expand;
pub mod explain;
pub mod flags;
pub mod fragment;
pub mod or_join;
pub mod parse;
pub mod pattern;
pub mod projector;
pub mod pull;
pub mod query;
pub mod query_sql;
pub mod reader;
pub mod relresult;
pub mod repl;
pub mod resolve;
pub mod sql;
pub mod symbols;
pub mod text;
pub mod translate;
pub mod type_set;
pub mod unions;
pub mod types;
pub mod values;
pub mod variables;
