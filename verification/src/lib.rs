//! A verified parser for a small expression language: a precedence-layered
//! grammar recognizer that produces a concrete parse tree, and an AST builder
//! that folds that tree into a compact, precedence-free abstract syntax tree.

pub mod ast;
pub mod builder;
pub mod grammar;
pub mod laws;
pub mod parser;
pub mod tree;

pub use ast::AstNode;
pub use ast::Operator;
pub use ast::Rule;
pub use builder::parse;
pub use builder::parse_expression;
pub use parser::ParseError;
pub use parser::TSParser;
pub use tree::ParseNode;
