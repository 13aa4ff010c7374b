//! A verified core for an interpreter of CAIE-style pseudocode: the lexer,
//! the value model, the operators and the statement evaluator.
pub mod ast;
pub mod budget;
pub mod cli;
pub mod config;
pub mod error;
pub mod eval;
pub mod interpreter;
pub mod laws;
pub mod lexer;
pub mod lexing;
pub mod op_laws;
pub mod ops;
pub mod positions;
pub mod runtime;
pub mod scoping;
pub mod semantics;
pub mod stmt_laws;
pub mod store;
pub mod table_laws;
pub mod text;
pub mod token;

pub use ast::{Expr, Op, Span, Stmt};
pub use config::ParseConfig;
pub use error::{CpcError, CpcResult, RuntimeErrorKind};
pub use eval::STEP_LIMIT;
pub use interpreter::{EvalOut, ExecOut, Flow, Interpreter, OutPiece, UnitOut};
pub use lexer::Lexer;
pub use runtime::{RuntimeValue, Type};
pub use semantics::Halt;
pub use store::{ArrayObj, FuncObj, Scope, ScopeRef};
pub use token::{get_keywords_map, get_operators_map, Keyword, Operator, Token, TokenKind};
