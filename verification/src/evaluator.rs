//! The evaluator: its syntax tree, environments and the evaluation rules.

pub mod ast;
pub mod env;
pub mod eval;

pub use ast::{Defn, EnvRecord, Expr, SpecDefn, SpecExpr, SpecRecord, Value};
pub use env::Environment;
pub use eval::{eval_defn, eval_defn_bounded, eval_expr, eval_expr_bounded, CALL_DEPTH_LIMIT};
