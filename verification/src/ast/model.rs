//! The mathematical model of the syntax tree: the same shapes as the tree
//! itself, with texts as sequences of characters and lists as sequences.

use vstd::prelude::*;
use crate::ast::{BinOp, UnOp, Visibility};
use crate::span::Span;

verus! {

/// The model of [`crate::ast::Program`].
pub struct ProgramView {
    pub items: Seq<ItemView>,
    pub span: Span,
}

/// The model of [`crate::ast::Item`].
pub enum ItemView {
    Function(FunctionView),
    Struct(StructDefView),
    Enum(EnumDefView),
    Const(ConstDefView),
    Static(StaticDefView),
    Import(ImportStmtView),
    Export(ExportStmtView),
}

/// The model of [`crate::ast::Function`].
pub struct FunctionView {
    pub visibility: Visibility,
    pub name: Seq<char>,
    pub generics: Option<GenericsView>,
    pub params: Seq<ParameterView>,
    pub return_type: Option<TypeView>,
    pub body: BlockView,
    pub span: Span,
}

/// The model of [`crate::ast::StructDef`].
pub struct StructDefView {
    pub visibility: Visibility,
    pub name: Seq<char>,
    pub generics: Option<GenericsView>,
    pub fields: Seq<FieldView>,
    pub span: Span,
}

/// The model of [`crate::ast::EnumDef`].
pub struct EnumDefView {
    pub visibility: Visibility,
    pub name: Seq<char>,
    pub generics: Option<GenericsView>,
    pub variants: Seq<EnumVariantView>,
    pub span: Span,
}

/// The model of [`crate::ast::EnumVariant`].
pub struct EnumVariantView {
    pub name: Seq<char>,
    pub fields: Option<Seq<TypeView>>,
    pub span: Span,
}

/// The model of [`crate::ast::ConstDef`].
pub struct ConstDefView {
    pub visibility: Visibility,
    pub name: Seq<char>,
    pub ty: TypeView,
    pub value: ExprView,
    pub span: Span,
}

/// The model of [`crate::ast::StaticDef`].
pub struct StaticDefView {
    pub visibility: Visibility,
    pub mutable: bool,
    pub name: Seq<char>,
    pub ty: TypeView,
    pub value: ExprView,
    pub span: Span,
}

/// The model of [`crate::ast::ImportStmt`].
pub struct ImportStmtView {
    pub path: Seq<Seq<char>>,
    pub alias: Option<Seq<char>>,
    pub span: Span,
}

/// The model of [`crate::ast::ExportStmt`].
pub struct ExportStmtView {
    pub items: Seq<Seq<char>>,
    pub span: Span,
}

/// The model of [`crate::ast::Generics`].
pub struct GenericsView {
    pub params: Seq<GenericParamView>,
    pub span: Span,
}

/// The model of [`crate::ast::GenericParam`].
pub struct GenericParamView {
    pub name: Seq<char>,
    pub bounds: Seq<Seq<char>>,
    pub span: Span,
}

/// The model of [`crate::ast::Field`].
pub struct FieldView {
    pub visibility: Visibility,
    pub name: Seq<char>,
    pub ty: TypeView,
    pub span: Span,
}

/// The model of [`crate::ast::Parameter`].
pub struct ParameterView {
    pub pattern: PatternView,
    pub ty: TypeView,
    pub span: Span,
}

/// The model of [`crate::ast::Block`].
pub struct BlockView {
    pub statements: Seq<StatementView>,
    pub span: Span,
}

/// The model of [`crate::ast::Statement`].
pub enum StatementView {
    Let(LetStmtView),
    Expr(ExprStmtView),
    Return(ReturnStmtView),
    If(IfStmtView),
    While(WhileStmtView),
    For(ForStmtView),
    Match(MatchStmtView),
    Break(BreakStmtView),
    Continue(ContinueStmtView),
    Block(BlockView),
}

/// The model of [`crate::ast::LetStmt`].
pub struct LetStmtView {
    pub pattern: PatternView,
    pub ty: Option<TypeView>,
    pub init: Option<ExprView>,
    pub mutable: bool,
    pub span: Span,
}

/// The model of [`crate::ast::ExprStmt`].
pub struct ExprStmtView {
    pub expr: ExprView,
    pub semicolon: bool,
    pub span: Span,
}

/// The model of [`crate::ast::ReturnStmt`].
pub struct ReturnStmtView {
    pub expr: Option<ExprView>,
    pub span: Span,
}

/// The model of [`crate::ast::IfStmt`].
pub struct IfStmtView {
    pub cond: ExprView,
    pub then_block: BlockView,
    pub else_block: Option<BlockView>,
    pub span: Span,
}

/// The model of [`crate::ast::WhileStmt`].
pub struct WhileStmtView {
    pub cond: ExprView,
    pub body: BlockView,
    pub span: Span,
}

/// The model of [`crate::ast::ForStmt`].
pub struct ForStmtView {
    pub pattern: PatternView,
    pub iterable: ExprView,
    pub body: BlockView,
    pub span: Span,
}

/// The model of [`crate::ast::MatchStmt`].
pub struct MatchStmtView {
    pub expr: ExprView,
    pub arms: Seq<MatchArmView>,
    pub span: Span,
}

/// The model of [`crate::ast::MatchArm`].
pub struct MatchArmView {
    pub pattern: PatternView,
    pub guard: Option<ExprView>,
    pub body: ExprView,
    pub span: Span,
}

/// The model of [`crate::ast::BreakStmt`].
pub struct BreakStmtView {
    pub label: Option<Seq<char>>,
    pub expr: Option<ExprView>,
    pub span: Span,
}

/// The model of [`crate::ast::ContinueStmt`].
pub struct ContinueStmtView {
    pub label: Option<Seq<char>>,
    pub span: Span,
}

/// The model of [`crate::ast::Pattern`].
pub enum PatternView {
    Ident(Seq<char>),
    Literal(LiteralView),
    Struct(Seq<char>, Seq<(Seq<char>, PatternView)>),
    Tuple(Seq<PatternView>),
    Or(Seq<PatternView>),
    Wildcard,
}

/// The model of [`crate::ast::Expr`].
pub enum ExprView {
    Literal(LiteralView, Span),
    Ident(Seq<char>, Span),
    Binary(BinOp, Box<ExprView>, Box<ExprView>, Span),
    Unary(UnOp, Box<ExprView>, Span),
    Call(Box<ExprView>, Seq<ExprView>, Span),
    MethodCall(Box<ExprView>, Seq<char>, Seq<ExprView>, Span),
    FieldAccess(Box<ExprView>, Seq<char>, Span),
    IndexAccess(Box<ExprView>, Box<ExprView>, Span),
    StructLit(Seq<char>, Seq<(Seq<char>, ExprView)>, Span),
    ArrayLit(Seq<ExprView>, Span),
    TupleLit(Seq<ExprView>, Span),
    Range(Box<ExprView>, Box<ExprView>, bool, Span),
    Assign(Box<ExprView>, Box<ExprView>, Span),
    CompoundAssign(BinOp, Box<ExprView>, Box<ExprView>, Span),
    Block(BlockView, Span),
    If(Box<ExprView>, BlockView, Option<BlockView>, Span),
    Match(Box<ExprView>, Seq<MatchArmView>, Span),
    While(Box<ExprView>, BlockView, Span),
    For(PatternView, Box<ExprView>, BlockView, Span),
    Break(Option<Seq<char>>, Option<Box<ExprView>>, Span),
    Continue(Option<Seq<char>>, Span),
    Return(Option<Box<ExprView>>, Span),
    Closure(Seq<ParameterView>, Option<TypeView>, Box<ExprView>, Span),
    Cast(Box<ExprView>, TypeView, Span),
    Ref(Box<ExprView>, bool, Span),
    Deref(Box<ExprView>, Span),
}

/// The model of [`crate::ast::Type`].
pub enum TypeView {
    I8,
    I16,
    I32,
    I64,
    U8,
    U16,
    U32,
    U64,
    Usize,
    Isize,
    F32,
    F64,
    Bool,
    Char,
    String,
    Unit,
    Array(Box<TypeView>, usize),
    Slice(Box<TypeView>),
    Tuple(Seq<TypeView>),
    Pointer(Box<TypeView>, bool),
    Reference(Box<TypeView>, bool),
    Named(Seq<char>),
    Generic(Seq<char>, Seq<TypeView>),
    Function(Seq<TypeView>, Box<TypeView>),
    Never,
    Infer,
}

/// The model of [`crate::ast::Literal`].
pub enum LiteralView {
    Int(i64),
    Bool(bool),
    Char(char),
    String(Seq<char>),
}

impl ExprView {
    /// The span of the expression.
    pub open spec fn span(self) -> Span {
        match self {
            ExprView::Literal(_, span) => span,
            ExprView::Ident(_, span) => span,
            ExprView::Binary(_, _, _, span) => span,
            ExprView::Unary(_, _, span) => span,
            ExprView::Call(_, _, span) => span,
            ExprView::MethodCall(_, _, _, span) => span,
            ExprView::FieldAccess(_, _, span) => span,
            ExprView::IndexAccess(_, _, span) => span,
            ExprView::StructLit(_, _, span) => span,
            ExprView::ArrayLit(_, span) => span,
            ExprView::TupleLit(_, span) => span,
            ExprView::Range(_, _, _, span) => span,
            ExprView::Assign(_, _, span) => span,
            ExprView::CompoundAssign(_, _, _, span) => span,
            ExprView::Block(_, span) => span,
            ExprView::If(_, _, _, span) => span,
            ExprView::Match(_, _, span) => span,
            ExprView::While(_, _, span) => span,
            ExprView::For(_, _, _, span) => span,
            ExprView::Break(_, _, span) => span,
            ExprView::Continue(_, span) => span,
            ExprView::Return(_, span) => span,
            ExprView::Closure(_, _, _, span) => span,
            ExprView::Cast(_, _, span) => span,
            ExprView::Ref(_, _, span) => span,
            ExprView::Deref(_, span) => span,
        }
    }
}

/// The models of the items of a list, in order.
pub open spec fn views<T: View>(items: Seq<T>) -> Seq<T::V> {
    Seq::new(items.len(), |i: int| items[i]@)
}

/// The model of a list with one more item is the model of the list with the
/// model of that item appended.
pub proof fn lemma_views_push<T: View>(items: Seq<T>, item: T)
    ensures
        views(items.push(item)) == views(items).push(item@),
{
    assert(views(items.push(item)) =~= views(items).push(item@));
}

/// The model of the empty list is empty.
pub proof fn lemma_views_empty<T: View>()
    ensures
        views(Seq::<T>::empty()) == Seq::<T::V>::empty(),
{
    assert(views(Seq::<T>::empty()) =~= Seq::<T::V>::empty());
}

} // verus!
