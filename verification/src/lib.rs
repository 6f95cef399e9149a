//! Column-level lineage over SQL models and a declared schema catalog.
//!
//! Every model is one `SELECT` statement. The library extracts the source
//! tables and projected columns of each model, resolves each column's
//! qualifier to a source table, assigns coarse types from the catalog (or,
//! one hop away, from a sibling model), and assembles a deduplicated
//! dependency graph whose edges list the columns that flow along them.

pub mod text;
pub mod seqs;
pub mod datatype;
pub mod catalog;
pub mod item;
pub mod statement;
pub mod extract;
pub mod parse;
pub mod model;
pub mod lineage;
pub mod models;
pub mod graph;
