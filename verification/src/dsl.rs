//! The query language: its AST, its grammar, and the boolean-predicate
//! evaluator that runs queries over the event corpus.

pub mod filters;
pub mod parser;
pub mod query_ast;
