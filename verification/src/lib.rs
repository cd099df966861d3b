//! Front end of the Contractus language: the lexer, the parser and the
//! syntax tree that they share.

pub mod ast;
pub mod grammar;
pub mod lexer;
pub mod parser;
pub mod span;
pub mod text;
pub mod token;

pub use ast::{
    BinOp, Block, BreakStmt, ConstDef, ContinueStmt, EnumDef, EnumVariant, ExportStmt, Expr,
    ExprStmt, Field, ForStmt, Function, GenericParam, Generics, IfStmt, ImportStmt, Item,
    LetStmt, Literal, MatchArm, MatchStmt, Parameter, Pattern, Program, ReturnStmt, Statement,
    StaticDef, StructDef, Type, UnOp, Visibility, WhileStmt,
};
pub use lexer::Lexer;
pub use parser::{ParseError, Parser};
pub use span::Span;
pub use token::{Token, TokenKind};
