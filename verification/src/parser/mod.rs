pub mod ast;
pub mod grammar;
pub mod order;
pub mod parser;
pub mod parsers;
pub mod progress;

pub use ast::{AstNode, AstNodeView, Cmd, CmdView, Expr, ExprView, IfCondition, IfConditionView, Operator, Program};
pub use parser::{ParseError, Parser};
