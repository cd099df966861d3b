//! The abstract syntax tree. Every composite node owns its children, and
//! every node carries the span of the source text it was read from.

use vstd::prelude::*;
use crate::span::Span;

pub mod abstraction;
pub mod duplicate;
pub mod model;

use abstraction::{
    block_view, break_stmt_view, expr_stmt_view, expr_view, for_stmt_view, if_stmt_view,
    let_stmt_view, match_arm_view, match_stmt_view, pattern_view, return_stmt_view,
    statement_view, type_view, types_view, while_stmt_view,
};
use model::{
    views, BlockView, BreakStmtView, ConstDefView, ContinueStmtView, EnumDefView,
    EnumVariantView, ExportStmtView, ExprStmtView, ExprView, FieldView, ForStmtView,
    FunctionView, GenericParamView, GenericsView, IfStmtView, ImportStmtView, ItemView,
    LetStmtView, LiteralView, MatchArmView, MatchStmtView, ParameterView, PatternView,
    ProgramView, ReturnStmtView, StatementView, StaticDefView, StructDefView, TypeView,
    WhileStmtView,
};

verus! {

/// A whole compilation unit.
#[derive(Debug, Clone)]
pub struct Program {
    pub items: Vec<Item>,
    pub span: Span,
}

impl View for Program {
    type V = ProgramView;

    open spec fn view(&self) -> ProgramView {
        ProgramView {
            items: views(self.items@),
            span: self.span,
        }
    }
}

/// A top-level declaration.
#[derive(Debug, Clone)]
pub enum Item {
    Function(Function),
    Struct(StructDef),
    Enum(EnumDef),
    Const(ConstDef),
    Static(StaticDef),
    Import(ImportStmt),
    Export(ExportStmt),
}

impl View for Item {
    type V = ItemView;

    open spec fn view(&self) -> ItemView {
        match self {
            Item::Function(first) => ItemView::Function(first@),
            Item::Struct(first) => ItemView::Struct(first@),
            Item::Enum(first) => ItemView::Enum(first@),
            Item::Const(first) => ItemView::Const(first@),
            Item::Static(first) => ItemView::Static(first@),
            Item::Import(first) => ItemView::Import(first@),
            Item::Export(first) => ItemView::Export(first@),
        }
    }
}

/// A function declaration with its body.
#[derive(Debug, Clone)]
pub struct Function {
    pub visibility: Visibility,
    pub name: String,
    pub generics: Option<Generics>,
    pub params: Vec<Parameter>,
    pub return_type: Option<Type>,
    pub body: Block,
    pub span: Span,
}

impl View for Function {
    type V = FunctionView;

    open spec fn view(&self) -> FunctionView {
        FunctionView {
            visibility: self.visibility,
            name: self.name@,
            generics: match self.generics {
                Some(v) => Some(v@),
                None => None,
            },
            params: views(self.params@),
            return_type: match self.return_type {
                Some(v) => Some(type_view(v)),
                None => None,
            },
            body: block_view(self.body),
            span: self.span,
        }
    }
}

/// A struct declaration.
#[derive(Debug, Clone)]
pub struct StructDef {
    pub visibility: Visibility,
    pub name: String,
    pub generics: Option<Generics>,
    pub fields: Vec<Field>,
    pub span: Span,
}

impl View for StructDef {
    type V = StructDefView;

    open spec fn view(&self) -> StructDefView {
        StructDefView {
            visibility: self.visibility,
            name: self.name@,
            generics: match self.generics {
                Some(v) => Some(v@),
                None => None,
            },
            fields: views(self.fields@),
            span: self.span,
        }
    }
}

/// An enum declaration.
#[derive(Debug, Clone)]
pub struct EnumDef {
    pub visibility: Visibility,
    pub name: String,
    pub generics: Option<Generics>,
    pub variants: Vec<EnumVariant>,
    pub span: Span,
}

impl View for EnumDef {
    type V = EnumDefView;

    open spec fn view(&self) -> EnumDefView {
        EnumDefView {
            visibility: self.visibility,
            name: self.name@,
            generics: match self.generics {
                Some(v) => Some(v@),
                None => None,
            },
            variants: views(self.variants@),
            span: self.span,
        }
    }
}

/// One variant of an enum, with the types of its fields if it has a field list.
#[derive(Debug, Clone)]
pub struct EnumVariant {
    pub name: String,
    pub fields: Option<Vec<Type>>,
    pub span: Span,
}

impl View for EnumVariant {
    type V = EnumVariantView;

    open spec fn view(&self) -> EnumVariantView {
        EnumVariantView {
            name: self.name@,
            fields: match self.fields {
                Some(v) => Some(types_view(v@)),
                None => None,
            },
            span: self.span,
        }
    }
}

/// A constant declaration.
#[derive(Debug, Clone)]
pub struct ConstDef {
    pub visibility: Visibility,
    pub name: String,
    pub ty: Type,
    pub value: Expr,
    pub span: Span,
}

impl View for ConstDef {
    type V = ConstDefView;

    open spec fn view(&self) -> ConstDefView {
        ConstDefView {
            visibility: self.visibility,
            name: self.name@,
            ty: type_view(self.ty),
            value: expr_view(self.value),
            span: self.span,
        }
    }
}

/// A static declaration.
#[derive(Debug, Clone)]
pub struct StaticDef {
    pub visibility: Visibility,
    pub mutable: bool,
    pub name: String,
    pub ty: Type,
    pub value: Expr,
    pub span: Span,
}

impl View for StaticDef {
    type V = StaticDefView;

    open spec fn view(&self) -> StaticDefView {
        StaticDefView {
            visibility: self.visibility,
            mutable: self.mutable,
            name: self.name@,
            ty: type_view(self.ty),
            value: expr_view(self.value),
            span: self.span,
        }
    }
}

/// An import of a module path, with an optional alias.
#[derive(Debug, Clone)]
pub struct ImportStmt {
    pub path: Vec<String>,
    pub alias: Option<String>,
    pub span: Span,
}

impl View for ImportStmt {
    type V = ImportStmtView;

    open spec fn view(&self) -> ImportStmtView {
        ImportStmtView {
            path: views(self.path@),
            alias: match self.alias {
                Some(v) => Some(v@),
                None => None,
            },
            span: self.span,
        }
    }
}

/// An export of a list of names.
#[derive(Debug, Clone)]
pub struct ExportStmt {
    pub items: Vec<String>,
    pub span: Span,
}

impl View for ExportStmt {
    type V = ExportStmtView;

    open spec fn view(&self) -> ExportStmtView {
        ExportStmtView {
            items: views(self.items@),
            span: self.span,
        }
    }
}

/// The generic parameters of a declaration.
#[derive(Debug, Clone)]
pub struct Generics {
    pub params: Vec<GenericParam>,
    pub span: Span,
}

impl View for Generics {
    type V = GenericsView;

    open spec fn view(&self) -> GenericsView {
        GenericsView {
            params: views(self.params@),
            span: self.span,
        }
    }
}

/// One generic parameter with its trait bounds.
#[derive(Debug, Clone)]
pub struct GenericParam {
    pub name: String,
    pub bounds: Vec<String>,
    pub span: Span,
}

impl View for GenericParam {
    type V = GenericParamView;

    open spec fn view(&self) -> GenericParamView {
        GenericParamView {
            name: self.name@,
            bounds: views(self.bounds@),
            span: self.span,
        }
    }
}

/// A field of a struct declaration.
#[derive(Debug, Clone)]
pub struct Field {
    pub visibility: Visibility,
    pub name: String,
    pub ty: Type,
    pub span: Span,
}

impl View for Field {
    type V = FieldView;

    open spec fn view(&self) -> FieldView {
        FieldView {
            visibility: self.visibility,
            name: self.name@,
            ty: type_view(self.ty),
            span: self.span,
        }
    }
}

/// A parameter of a function or closure.
#[derive(Debug)]
pub struct Parameter {
    pub pattern: Pattern,
    pub ty: Type,
    pub span: Span,
}

impl View for Parameter {
    type V = ParameterView;

    open spec fn view(&self) -> ParameterView {
        ParameterView {
            pattern: pattern_view(self.pattern),
            ty: type_view(self.ty),
            span: self.span,
        }
    }
}

/// A brace-delimited sequence of statements.
#[derive(Debug)]
pub struct Block {
    pub statements: Vec<Statement>,
    pub span: Span,
}

impl View for Block {
    type V = BlockView;

    open spec fn view(&self) -> BlockView {
        block_view(*self)
    }
}

/// A statement of a block.
#[derive(Debug)]
pub enum Statement {
    Let(LetStmt),
    Expr(ExprStmt),
    Return(ReturnStmt),
    If(IfStmt),
    While(WhileStmt),
    For(ForStmt),
    Match(MatchStmt),
    Break(BreakStmt),
    Continue(ContinueStmt),
    Block(Block),
}

impl View for Statement {
    type V = StatementView;

    open spec fn view(&self) -> StatementView {
        statement_view(*self)
    }
}

/// A `let` binding.
#[derive(Debug)]
pub struct LetStmt {
    pub pattern: Pattern,
    pub ty: Option<Type>,
    pub init: Option<Expr>,
    pub mutable: bool,
    pub span: Span,
}

impl View for LetStmt {
    type V = LetStmtView;

    open spec fn view(&self) -> LetStmtView {
        let_stmt_view(*self)
    }
}

/// An expression in statement position; `semicolon` records whether one followed it.
#[derive(Debug)]
pub struct ExprStmt {
    pub expr: Expr,
    pub semicolon: bool,
    pub span: Span,
}

impl View for ExprStmt {
    type V = ExprStmtView;

    open spec fn view(&self) -> ExprStmtView {
        expr_stmt_view(*self)
    }
}

/// A `return` statement.
#[derive(Debug)]
pub struct ReturnStmt {
    pub expr: Option<Expr>,
    pub span: Span,
}

impl View for ReturnStmt {
    type V = ReturnStmtView;

    open spec fn view(&self) -> ReturnStmtView {
        return_stmt_view(*self)
    }
}

/// An `if` statement; an `else if` is an else block that holds one `if` statement.
#[derive(Debug)]
pub struct IfStmt {
    pub cond: Expr,
    pub then_block: Block,
    pub else_block: Option<Block>,
    pub span: Span,
}

impl View for IfStmt {
    type V = IfStmtView;

    open spec fn view(&self) -> IfStmtView {
        if_stmt_view(*self)
    }
}

/// A `while` loop.
#[derive(Debug)]
pub struct WhileStmt {
    pub cond: Expr,
    pub body: Block,
    pub span: Span,
}

impl View for WhileStmt {
    type V = WhileStmtView;

    open spec fn view(&self) -> WhileStmtView {
        while_stmt_view(*self)
    }
}

/// A `for` loop.
#[derive(Debug)]
pub struct ForStmt {
    pub pattern: Pattern,
    pub iterable: Expr,
    pub body: Block,
    pub span: Span,
}

impl View for ForStmt {
    type V = ForStmtView;

    open spec fn view(&self) -> ForStmtView {
        for_stmt_view(*self)
    }
}

/// A `match` statement.
#[derive(Debug)]
pub struct MatchStmt {
    pub expr: Expr,
    pub arms: Vec<MatchArm>,
    pub span: Span,
}

impl View for MatchStmt {
    type V = MatchStmtView;

    open spec fn view(&self) -> MatchStmtView {
        match_stmt_view(*self)
    }
}

/// One arm of a `match`.
#[derive(Debug)]
pub struct MatchArm {
    pub pattern: Pattern,
    pub guard: Option<Expr>,
    pub body: Expr,
    pub span: Span,
}

impl View for MatchArm {
    type V = MatchArmView;

    open spec fn view(&self) -> MatchArmView {
        match_arm_view(*self)
    }
}

/// A `break` statement.
#[derive(Debug)]
pub struct BreakStmt {
    pub label: Option<String>,
    pub expr: Option<Expr>,
    pub span: Span,
}

impl View for BreakStmt {
    type V = BreakStmtView;

    open spec fn view(&self) -> BreakStmtView {
        break_stmt_view(*self)
    }
}

/// A `continue` statement.
#[derive(Debug)]
pub struct ContinueStmt {
    pub label: Option<String>,
    pub span: Span,
}

impl View for ContinueStmt {
    type V = ContinueStmtView;

    open spec fn view(&self) -> ContinueStmtView {
        ContinueStmtView {
            label: match self.label {
                Some(v) => Some(v@),
                None => None,
            },
            span: self.span,
        }
    }
}

/// A pattern of a binding, a parameter or a match arm.
#[derive(Debug)]
pub enum Pattern {
    Ident(String),
    Literal(Literal),
    Struct(String, Vec<(String, Pattern)>),
    Tuple(Vec<Pattern>),
    Or(Vec<Pattern>),
    Wildcard,
}

impl View for Pattern {
    type V = PatternView;

    open spec fn view(&self) -> PatternView {
        pattern_view(*self)
    }
}

/// An expression. Every variant ends with the span of the expression.
#[derive(Debug)]
pub enum Expr {
    Literal(Literal, Span),
    Ident(String, Span),
    Binary(BinOp, Box<Expr>, Box<Expr>, Span),
    Unary(UnOp, Box<Expr>, Span),
    Call(Box<Expr>, Vec<Expr>, Span),
    MethodCall(Box<Expr>, String, Vec<Expr>, Span),
    FieldAccess(Box<Expr>, String, Span),
    IndexAccess(Box<Expr>, Box<Expr>, Span),
    StructLit(String, Vec<(String, Expr)>, Span),
    ArrayLit(Vec<Expr>, Span),
    TupleLit(Vec<Expr>, Span),
    Range(Box<Expr>, Box<Expr>, bool, Span),
    Assign(Box<Expr>, Box<Expr>, Span),
    CompoundAssign(BinOp, Box<Expr>, Box<Expr>, Span),
    Block(Block, Span),
    If(Box<Expr>, Block, Option<Block>, Span),
    Match(Box<Expr>, Vec<MatchArm>, Span),
    While(Box<Expr>, Block, Span),
    For(Pattern, Box<Expr>, Block, Span),
    Break(Option<String>, Option<Box<Expr>>, Span),
    Continue(Option<String>, Span),
    Return(Option<Box<Expr>>, Span),
    Closure(Vec<Parameter>, Option<Type>, Box<Expr>, Span),
    Cast(Box<Expr>, Type, Span),
    Ref(Box<Expr>, bool, Span),
    Deref(Box<Expr>, Span),
}

impl View for Expr {
    type V = ExprView;

    open spec fn view(&self) -> ExprView {
        expr_view(*self)
    }
}

/// A type as written in the source.
#[derive(Debug, PartialEq)]
pub enum Type {
    I8,
    I16,
    I32,
    I64,
    U8,
    U16,
    U32,
    U64,
    Usize,
    Isize,
    F32,
    F64,
    Bool,
    Char,
    String,
    Unit,
    Array(Box<Type>, usize),
    Slice(Box<Type>),
    Tuple(Vec<Type>),
    Pointer(Box<Type>, bool),
    Reference(Box<Type>, bool),
    Named(String),
    Generic(String, Vec<Type>),
    Function(Vec<Type>, Box<Type>),
    Never,
    Infer,
}

impl View for Type {
    type V = TypeView;

    open spec fn view(&self) -> TypeView {
        type_view(*self)
    }
}

/// A literal value.
#[derive(Debug, PartialEq)]
pub enum Literal {
    Int(i64),
    Bool(bool),
    Char(char),
    String(String),
}

impl View for Literal {
    type V = LiteralView;

    open spec fn view(&self) -> LiteralView {
        match self {
            Literal::Int(first) => LiteralView::Int(*first),
            Literal::Bool(first) => LiteralView::Bool(*first),
            Literal::Char(first) => LiteralView::Char(*first),
            Literal::String(first) => LiteralView::String(first@),
        }
    }
}

/// Whether a declaration is visible outside its module.
#[derive(Debug, Clone, Copy, PartialEq, Eq, Structural)]
pub enum Visibility {
    Public,
    Private,
}

/// A binary operator.
#[derive(Debug, Clone, Copy, PartialEq, Eq, Structural)]
pub enum BinOp {
    // Arithmetic
    Add,
    Sub,
    Mul,
    Div,
    Mod,
    // Comparison
    Equal,
    NotEqual,
    Less,
    Greater,
    LessEqual,
    GreaterEqual,
    // Logic
    LogicalAnd,
    LogicalOr,
    // Bits
    BitwiseAnd,
    BitwiseOr,
    BitwiseXor,
    LeftShift,
    RightShift,
}

/// A unary operator.
#[derive(Debug, Clone, Copy, PartialEq, Eq, Structural)]
pub enum UnOp {
    Neg,
    LogicalNot,
    BitwiseNot,
    Deref,
    Ref,
    RefMut,
}

impl Expr {
    /// The span of the expression.
    pub fn span(&self) -> (span: Span)
        ensures
            span == self@.span(),
    {
        proof {
            reveal_with_fuel(expr_view, 1);
        }
        match self {
            Expr::Literal(_, span) => *span,
            Expr::Ident(_, span) => *span,
            Expr::Binary(_, _, _, span) => *span,
            Expr::Unary(_, _, span) => *span,
            Expr::Call(_, _, span) => *span,
            Expr::MethodCall(_, _, _, span) => *span,
            Expr::FieldAccess(_, _, span) => *span,
            Expr::IndexAccess(_, _, span) => *span,
            Expr::StructLit(_, _, span) => *span,
            Expr::ArrayLit(_, span) => *span,
            Expr::TupleLit(_, span) => *span,
            Expr::Range(_, _, _, span) => *span,
            Expr::Assign(_, _, span) => *span,
            Expr::CompoundAssign(_, _, _, span) => *span,
            Expr::Block(_, span) => *span,
            Expr::If(_, _, _, span) => *span,
            Expr::Match(_, _, span) => *span,
            Expr::While(_, _, span) => *span,
            Expr::For(_, _, _, span) => *span,
            Expr::Break(_, _, span) => *span,
            Expr::Continue(_, span) => *span,
            Expr::Return(_, span) => *span,
            Expr::Closure(_, _, _, span) => *span,
            Expr::Cast(_, _, span) => *span,
            Expr::Ref(_, _, span) => *span,
            Expr::Deref(_, span) => *span,
        }
    }
}

} // verus!
