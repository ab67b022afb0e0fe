//! Laying out text within a page width.

pub mod text;
pub mod hir;
pub mod process;
pub mod config;
pub mod lir;
pub mod line;
pub mod lines;
pub mod builder;
pub mod printing;
pub mod range;
pub mod provenance;
