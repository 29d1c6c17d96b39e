//! Normalization of parsed query-expression trees into evaluation-ready trees.

pub mod ast;
mod copies;
pub mod laws;
pub mod model;
pub mod process;

pub use ast::{BinaryOp, Error, Node, NodeKind, Object, Position, SortTerms, UnaryOp};
pub use process::process_ast;
