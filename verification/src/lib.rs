//! Wyst: a small toolkit for lexing source text into token trees and for laying
//! out structured text within a page width.

pub mod lex;
pub mod printer;
pub mod source;
pub mod style;
pub mod traits;
pub mod utils;
