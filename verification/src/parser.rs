//! The parser: from text to a syntax tree.

pub mod ast;
pub mod decimal;
pub mod decimal_laws;
pub mod entry;
pub mod grammar;
pub mod lexical;
pub mod numeral;
pub mod parse;
pub mod render;
pub mod text;

pub use ast::{decl_eq, expr_eq, Decl, Expr, SpecDecl, SpecExpr};
pub use decimal::{Decimal, SpecDecimal};
pub use entry::{decl, expr, id, numeral, var, ParseError};
pub use render::{decl_to_string, e_res_to_str, expr_to_string};
