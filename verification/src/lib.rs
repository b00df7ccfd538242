//! An interactive arithmetic expression language: a tokenizer, a
//! recursive-descent parser, and an interpreter that evaluates single-line
//! mathematical expressions, supports variable bindings, and supports
//! user-defined single-expression functions.
//!
//! Numeric literals travel through the engine as their source text; the
//! engine compiles each expression to a small stack program whose numeric
//! steps the embedding application executes.

mod ast;
mod history;
mod interp;
mod laws;
mod parse;
mod token;

pub use ast::Args;
pub use ast::Expr;
pub use ast::Func;
pub use ast::Stmt;
pub use ast::eq_expr;
pub use history::History;
pub use interp::EvalError;
pub use interp::Instr;
pub use interp::Interpreter;
pub use interp::CALL_DEPTH;
pub use parse::ParseErr;
pub use parse::Parser;
pub use token::FuncName;
pub use token::Token;
pub use token::TokenizeError;
pub use token::Tokenizer;
