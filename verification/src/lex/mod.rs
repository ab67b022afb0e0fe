//! Lexing source text into flat tokens, and reading them into a tree of
//! delimited groups.

pub mod chars;
pub mod delegate;
pub mod standard;
pub mod tree;
pub mod reader;
pub mod top_builder;
pub mod token_builder;
