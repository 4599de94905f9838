//! The type checker: types, its syntax tree, typing contexts and the
//! typing rules.

pub mod ast;
pub mod check;
pub mod context;
pub mod types;

pub use ast::{Comparison, Defn, Expr, SpecDefn, SpecExpr};
pub use check::{type_check_defn, type_check_expr};
pub use context::Context;
pub use types::{SpecType, Type};
