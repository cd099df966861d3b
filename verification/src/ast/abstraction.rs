//! From the syntax tree to its model. The tree's types are defined in terms
//! of each other, so their models are computed by functions that call each
//! other; each type's `view` is one of them.

use vstd::prelude::*;
use crate::ast::{
    Block, BreakStmt, Expr, ExprStmt, ForStmt, IfStmt, LetStmt, MatchArm, MatchStmt, Pattern,
    ReturnStmt, Statement, Type, WhileStmt,
};
use crate::ast::model::{
    views, BlockView, BreakStmtView, ExprStmtView, ExprView, ForStmtView, IfStmtView,
    LetStmtView, MatchArmView, MatchStmtView, PatternView, ReturnStmtView, StatementView,
    TypeView, WhileStmtView,
};

verus! {

/// The model of a [`Type`].
#[verifier::opaque]
pub open spec fn type_view(node: Type) -> TypeView
    decreases node,
{
    match node {
        Type::I8 => TypeView::I8,
        Type::I16 => TypeView::I16,
        Type::I32 => TypeView::I32,
        Type::I64 => TypeView::I64,
        Type::U8 => TypeView::U8,
        Type::U16 => TypeView::U16,
        Type::U32 => TypeView::U32,
        Type::U64 => TypeView::U64,
        Type::Usize => TypeView::Usize,
        Type::Isize => TypeView::Isize,
        Type::F32 => TypeView::F32,
        Type::F64 => TypeView::F64,
        Type::Bool => TypeView::Bool,
        Type::Char => TypeView::Char,
        Type::String => TypeView::String,
        Type::Unit => TypeView::Unit,
        Type::Array(first, second) => TypeView::Array(Box::new(type_view(*first)), second),
        Type::Slice(first) => TypeView::Slice(Box::new(type_view(*first))),
        Type::Tuple(first) => TypeView::Tuple(types_view(first@)),
        Type::Pointer(first, second) => TypeView::Pointer(Box::new(type_view(*first)), second),
        Type::Reference(first, second) => TypeView::Reference(Box::new(type_view(*first)), second),
        Type::Named(first) => TypeView::Named(first@),
        Type::Generic(first, second) => TypeView::Generic(first@, types_view(second@)),
        Type::Function(first, second) => TypeView::Function(
            types_view(first@),
            Box::new(type_view(*second)),
        ),
        Type::Never => TypeView::Never,
        Type::Infer => TypeView::Infer,
    }
}

/// The definition of [`type_view`].
pub proof fn lemma_type_view(node: Type)
    ensures
        type_view(node) == ({
            match node {
                Type::I8 => TypeView::I8,
                Type::I16 => TypeView::I16,
                Type::I32 => TypeView::I32,
                Type::I64 => TypeView::I64,
                Type::U8 => TypeView::U8,
                Type::U16 => TypeView::U16,
                Type::U32 => TypeView::U32,
                Type::U64 => TypeView::U64,
                Type::Usize => TypeView::Usize,
                Type::Isize => TypeView::Isize,
                Type::F32 => TypeView::F32,
                Type::F64 => TypeView::F64,
                Type::Bool => TypeView::Bool,
                Type::Char => TypeView::Char,
                Type::String => TypeView::String,
                Type::Unit => TypeView::Unit,
                Type::Array(first, second) => TypeView::Array(Box::new(type_view(*first)), second),
                Type::Slice(first) => TypeView::Slice(Box::new(type_view(*first))),
                Type::Tuple(first) => TypeView::Tuple(types_view(first@)),
                Type::Pointer(first, second) => TypeView::Pointer(Box::new(type_view(*first)), second),
                Type::Reference(first, second) => TypeView::Reference(Box::new(type_view(*first)), second),
                Type::Named(first) => TypeView::Named(first@),
                Type::Generic(first, second) => TypeView::Generic(first@, types_view(second@)),
                Type::Function(first, second) => TypeView::Function(
                    types_view(first@),
                    Box::new(type_view(*second)),
                ),
                Type::Never => TypeView::Never,
                Type::Infer => TypeView::Infer,
            }
        }),
{
    reveal_with_fuel(type_view, 1);
    reveal_with_fuel(types_view, 1);
}

/// The model of a [`Pattern`].
#[verifier::opaque]
pub open spec fn pattern_view(node: Pattern) -> PatternView
    decreases node,
{
    match node {
        Pattern::Ident(first) => PatternView::Ident(first@),
        Pattern::Literal(first) => PatternView::Literal(first@),
        Pattern::Struct(first, second) => PatternView::Struct(first@, named_patterns_view(second@)),
        Pattern::Tuple(first) => PatternView::Tuple(patterns_view(first@)),
        Pattern::Or(first) => PatternView::Or(patterns_view(first@)),
        Pattern::Wildcard => PatternView::Wildcard,
    }
}

/// The definition of [`pattern_view`].
pub proof fn lemma_pattern_view(node: Pattern)
    ensures
        pattern_view(node) == ({
            match node {
                Pattern::Ident(first) => PatternView::Ident(first@),
                Pattern::Literal(first) => PatternView::Literal(first@),
                Pattern::Struct(first, second) => PatternView::Struct(first@, named_patterns_view(second@)),
                Pattern::Tuple(first) => PatternView::Tuple(patterns_view(first@)),
                Pattern::Or(first) => PatternView::Or(patterns_view(first@)),
                Pattern::Wildcard => PatternView::Wildcard,
            }
        }),
{
    reveal_with_fuel(named_patterns_view, 1);
    reveal_with_fuel(pattern_view, 1);
    reveal_with_fuel(patterns_view, 1);
}

/// The model of a [`Expr`].
#[verifier::opaque]
pub open spec fn expr_view(node: Expr) -> ExprView
    decreases node,
{
    match node {
        Expr::Literal(first, second) => ExprView::Literal(first@, second),
        Expr::Ident(first, second) => ExprView::Ident(first@, second),
        Expr::Binary(first, second, third, fourth) => ExprView::Binary(
            first,
            Box::new(expr_view(*second)),
            Box::new(expr_view(*third)),
            fourth,
        ),
        Expr::Unary(first, second, third) => ExprView::Unary(
            first,
            Box::new(expr_view(*second)),
            third,
        ),
        Expr::Call(first, second, third) => ExprView::Call(
            Box::new(expr_view(*first)),
            exprs_view(second@),
            third,
        ),
        Expr::MethodCall(first, second, third, fourth) => ExprView::MethodCall(
            Box::new(expr_view(*first)),
            second@,
            exprs_view(third@),
            fourth,
        ),
        Expr::FieldAccess(first, second, third) => ExprView::FieldAccess(
            Box::new(expr_view(*first)),
            second@,
            third,
        ),
        Expr::IndexAccess(first, second, third) => ExprView::IndexAccess(
            Box::new(expr_view(*first)),
            Box::new(expr_view(*second)),
            third,
        ),
        Expr::StructLit(first, second, third) => ExprView::StructLit(
            first@,
            named_exprs_view(second@),
            third,
        ),
        Expr::ArrayLit(first, second) => ExprView::ArrayLit(exprs_view(first@), second),
        Expr::TupleLit(first, second) => ExprView::TupleLit(exprs_view(first@), second),
        Expr::Range(first, second, third, fourth) => ExprView::Range(
            Box::new(expr_view(*first)),
            Box::new(expr_view(*second)),
            third,
            fourth,
        ),
        Expr::Assign(first, second, third) => ExprView::Assign(
            Box::new(expr_view(*first)),
            Box::new(expr_view(*second)),
            third,
        ),
        Expr::CompoundAssign(first, second, third, fourth) => ExprView::CompoundAssign(
            first,
            Box::new(expr_view(*second)),
            Box::new(expr_view(*third)),
            fourth,
        ),
        Expr::Block(first, second) => ExprView::Block(block_view(first), second),
        Expr::If(first, second, third, fourth) => ExprView::If(
            Box::new(expr_view(*first)),
            block_view(second),
            match third {
                Some(v) => Some(block_view(v)),
                None => None,
            },
            fourth,
        ),
        Expr::Match(first, second, third) => ExprView::Match(
            Box::new(expr_view(*first)),
            match_arms_view(second@),
            third,
        ),
        Expr::While(first, second, third) => ExprView::While(
            Box::new(expr_view(*first)),
            block_view(second),
            third,
        ),
        Expr::For(first, second, third, fourth) => ExprView::For(
            pattern_view(first),
            Box::new(expr_view(*second)),
            block_view(third),
            fourth,
        ),
        Expr::Break(first, second, third) => ExprView::Break(
            match first {
                Some(v) => Some(v@),
                None => None,
            },
            match second {
                Some(v) => Some(Box::new(expr_view(*v))),
                None => None,
            },
            third,
        ),
        Expr::Continue(first, second) => ExprView::Continue(
            match first {
                Some(v) => Some(v@),
                None => None,
            },
            second,
        ),
        Expr::Return(first, second) => ExprView::Return(
            match first {
                Some(v) => Some(Box::new(expr_view(*v))),
                None => None,
            },
            second,
        ),
        Expr::Closure(first, second, third, fourth) => ExprView::Closure(
            views(first@),
            match second {
                Some(v) => Some(type_view(v)),
                None => None,
            },
            Box::new(expr_view(*third)),
            fourth,
        ),
        Expr::Cast(first, second, third) => ExprView::Cast(
            Box::new(expr_view(*first)),
            type_view(second),
            third,
        ),
        Expr::Ref(first, second, third) => ExprView::Ref(
            Box::new(expr_view(*first)),
            second,
            third,
        ),
        Expr::Deref(first, second) => ExprView::Deref(Box::new(expr_view(*first)), second),
    }
}

/// The definition of [`expr_view`].
pub proof fn lemma_expr_view(node: Expr)
    ensures
        expr_view(node) == ({
            match node {
                Expr::Literal(first, second) => ExprView::Literal(first@, second),
                Expr::Ident(first, second) => ExprView::Ident(first@, second),
                Expr::Binary(first, second, third, fourth) => ExprView::Binary(
                    first,
                    Box::new(expr_view(*second)),
                    Box::new(expr_view(*third)),
                    fourth,
                ),
                Expr::Unary(first, second, third) => ExprView::Unary(
                    first,
                    Box::new(expr_view(*second)),
                    third,
                ),
                Expr::Call(first, second, third) => ExprView::Call(
                    Box::new(expr_view(*first)),
                    exprs_view(second@),
                    third,
                ),
                Expr::MethodCall(first, second, third, fourth) => ExprView::MethodCall(
                    Box::new(expr_view(*first)),
                    second@,
                    exprs_view(third@),
                    fourth,
                ),
                Expr::FieldAccess(first, second, third) => ExprView::FieldAccess(
                    Box::new(expr_view(*first)),
                    second@,
                    third,
                ),
                Expr::IndexAccess(first, second, third) => ExprView::IndexAccess(
                    Box::new(expr_view(*first)),
                    Box::new(expr_view(*second)),
                    third,
                ),
                Expr::StructLit(first, second, third) => ExprView::StructLit(
                    first@,
                    named_exprs_view(second@),
                    third,
                ),
                Expr::ArrayLit(first, second) => ExprView::ArrayLit(exprs_view(first@), second),
                Expr::TupleLit(first, second) => ExprView::TupleLit(exprs_view(first@), second),
                Expr::Range(first, second, third, fourth) => ExprView::Range(
                    Box::new(expr_view(*first)),
                    Box::new(expr_view(*second)),
                    third,
                    fourth,
                ),
                Expr::Assign(first, second, third) => ExprView::Assign(
                    Box::new(expr_view(*first)),
                    Box::new(expr_view(*second)),
                    third,
                ),
                Expr::CompoundAssign(first, second, third, fourth) => ExprView::CompoundAssign(
                    first,
                    Box::new(expr_view(*second)),
                    Box::new(expr_view(*third)),
                    fourth,
                ),
                Expr::Block(first, second) => ExprView::Block(block_view(first), second),
                Expr::If(first, second, third, fourth) => ExprView::If(
                    Box::new(expr_view(*first)),
                    block_view(second),
                    match third {
                        Some(v) => Some(block_view(v)),
                        None => None,
                    },
                    fourth,
                ),
                Expr::Match(first, second, third) => ExprView::Match(
                    Box::new(expr_view(*first)),
                    match_arms_view(second@),
                    third,
                ),
                Expr::While(first, second, third) => ExprView::While(
                    Box::new(expr_view(*first)),
                    block_view(second),
                    third,
                ),
                Expr::For(first, second, third, fourth) => ExprView::For(
                    pattern_view(first),
                    Box::new(expr_view(*second)),
                    block_view(third),
                    fourth,
                ),
                Expr::Break(first, second, third) => ExprView::Break(
                    match first {
                        Some(v) => Some(v@),
                        None => None,
                    },
                    match second {
                        Some(v) => Some(Box::new(expr_view(*v))),
                        None => None,
                    },
                    third,
                ),
                Expr::Continue(first, second) => ExprView::Continue(
                    match first {
                        Some(v) => Some(v@),
                        None => None,
                    },
                    second,
                ),
                Expr::Return(first, second) => ExprView::Return(
                    match first {
                        Some(v) => Some(Box::new(expr_view(*v))),
                        None => None,
                    },
                    second,
                ),
                Expr::Closure(first, second, third, fourth) => ExprView::Closure(
                    views(first@),
                    match second {
                        Some(v) => Some(type_view(v)),
                        None => None,
                    },
                    Box::new(expr_view(*third)),
                    fourth,
                ),
                Expr::Cast(first, second, third) => ExprView::Cast(
                    Box::new(expr_view(*first)),
                    type_view(second),
                    third,
                ),
                Expr::Ref(first, second, third) => ExprView::Ref(
                    Box::new(expr_view(*first)),
                    second,
                    third,
                ),
                Expr::Deref(first, second) => ExprView::Deref(Box::new(expr_view(*first)), second),
            }
        }),
{
    reveal_with_fuel(block_view, 1);
    reveal_with_fuel(expr_view, 1);
    reveal_with_fuel(exprs_view, 1);
    reveal_with_fuel(match_arms_view, 1);
    reveal_with_fuel(named_exprs_view, 1);
}

/// The model of a [`Block`].
#[verifier::opaque]
pub open spec fn block_view(node: Block) -> BlockView
    decreases node,
{
    BlockView {
        statements: statements_view(node.statements@),
        span: node.span,
    }
}

/// The definition of [`block_view`].
pub proof fn lemma_block_view(node: Block)
    ensures
        block_view(node) == ({
            BlockView {
                statements: statements_view(node.statements@),
                span: node.span,
            }
        }),
{
    reveal_with_fuel(block_view, 1);
    reveal_with_fuel(statements_view, 1);
}

/// The model of a [`Statement`].
#[verifier::opaque]
pub open spec fn statement_view(node: Statement) -> StatementView
    decreases node,
{
    match node {
        Statement::Let(first) => StatementView::Let(let_stmt_view(first)),
        Statement::Expr(first) => StatementView::Expr(expr_stmt_view(first)),
        Statement::Return(first) => StatementView::Return(return_stmt_view(first)),
        Statement::If(first) => StatementView::If(if_stmt_view(first)),
        Statement::While(first) => StatementView::While(while_stmt_view(first)),
        Statement::For(first) => StatementView::For(for_stmt_view(first)),
        Statement::Match(first) => StatementView::Match(match_stmt_view(first)),
        Statement::Break(first) => StatementView::Break(break_stmt_view(first)),
        Statement::Continue(first) => StatementView::Continue(first@),
        Statement::Block(first) => StatementView::Block(block_view(first)),
    }
}

/// The definition of [`statement_view`].
pub proof fn lemma_statement_view(node: Statement)
    ensures
        statement_view(node) == ({
            match node {
                Statement::Let(first) => StatementView::Let(let_stmt_view(first)),
                Statement::Expr(first) => StatementView::Expr(expr_stmt_view(first)),
                Statement::Return(first) => StatementView::Return(return_stmt_view(first)),
                Statement::If(first) => StatementView::If(if_stmt_view(first)),
                Statement::While(first) => StatementView::While(while_stmt_view(first)),
                Statement::For(first) => StatementView::For(for_stmt_view(first)),
                Statement::Match(first) => StatementView::Match(match_stmt_view(first)),
                Statement::Break(first) => StatementView::Break(break_stmt_view(first)),
                Statement::Continue(first) => StatementView::Continue(first@),
                Statement::Block(first) => StatementView::Block(block_view(first)),
            }
        }),
{
    reveal_with_fuel(block_view, 1);
    reveal_with_fuel(break_stmt_view, 1);
    reveal_with_fuel(expr_stmt_view, 1);
    reveal_with_fuel(for_stmt_view, 1);
    reveal_with_fuel(if_stmt_view, 1);
    reveal_with_fuel(let_stmt_view, 1);
    reveal_with_fuel(match_stmt_view, 1);
    reveal_with_fuel(return_stmt_view, 1);
    reveal_with_fuel(statement_view, 1);
    reveal_with_fuel(while_stmt_view, 1);
}

/// The model of a [`LetStmt`].
#[verifier::opaque]
pub open spec fn let_stmt_view(node: LetStmt) -> LetStmtView
    decreases node,
{
    LetStmtView {
        pattern: pattern_view(node.pattern),
        ty: match node.ty {
            Some(v) => Some(type_view(v)),
            None => None,
        },
        init: match node.init {
            Some(v) => Some(expr_view(v)),
            None => None,
        },
        mutable: node.mutable,
        span: node.span,
    }
}

/// The definition of [`let_stmt_view`].
pub proof fn lemma_let_stmt_view(node: LetStmt)
    ensures
        let_stmt_view(node) == ({
            LetStmtView {
                pattern: pattern_view(node.pattern),
                ty: match node.ty {
                    Some(v) => Some(type_view(v)),
                    None => None,
                },
                init: match node.init {
                    Some(v) => Some(expr_view(v)),
                    None => None,
                },
                mutable: node.mutable,
                span: node.span,
            }
        }),
{
    reveal_with_fuel(expr_view, 1);
    reveal_with_fuel(let_stmt_view, 1);
}

/// The model of a [`ExprStmt`].
#[verifier::opaque]
pub open spec fn expr_stmt_view(node: ExprStmt) -> ExprStmtView
    decreases node,
{
    ExprStmtView {
        expr: expr_view(node.expr),
        semicolon: node.semicolon,
        span: node.span,
    }
}

/// The definition of [`expr_stmt_view`].
pub proof fn lemma_expr_stmt_view(node: ExprStmt)
    ensures
        expr_stmt_view(node) == ({
            ExprStmtView {
                expr: expr_view(node.expr),
                semicolon: node.semicolon,
                span: node.span,
            }
        }),
{
    reveal_with_fuel(expr_stmt_view, 1);
    reveal_with_fuel(expr_view, 1);
}

/// The model of a [`ReturnStmt`].
#[verifier::opaque]
pub open spec fn return_stmt_view(node: ReturnStmt) -> ReturnStmtView
    decreases node,
{
    ReturnStmtView {
        expr: match node.expr {
            Some(v) => Some(expr_view(v)),
            None => None,
        },
        span: node.span,
    }
}

/// The definition of [`return_stmt_view`].
pub proof fn lemma_return_stmt_view(node: ReturnStmt)
    ensures
        return_stmt_view(node) == ({
            ReturnStmtView {
                expr: match node.expr {
                    Some(v) => Some(expr_view(v)),
                    None => None,
                },
                span: node.span,
            }
        }),
{
    reveal_with_fuel(expr_view, 1);
    reveal_with_fuel(return_stmt_view, 1);
}

/// The model of a [`IfStmt`].
#[verifier::opaque]
pub open spec fn if_stmt_view(node: IfStmt) -> IfStmtView
    decreases node,
{
    IfStmtView {
        cond: expr_view(node.cond),
        then_block: block_view(node.then_block),
        else_block: match node.else_block {
            Some(v) => Some(block_view(v)),
            None => None,
        },
        span: node.span,
    }
}

/// The definition of [`if_stmt_view`].
pub proof fn lemma_if_stmt_view(node: IfStmt)
    ensures
        if_stmt_view(node) == ({
            IfStmtView {
                cond: expr_view(node.cond),
                then_block: block_view(node.then_block),
                else_block: match node.else_block {
                    Some(v) => Some(block_view(v)),
                    None => None,
                },
                span: node.span,
            }
        }),
{
    reveal_with_fuel(block_view, 1);
    reveal_with_fuel(expr_view, 1);
    reveal_with_fuel(if_stmt_view, 1);
}

/// The model of a [`WhileStmt`].
#[verifier::opaque]
pub open spec fn while_stmt_view(node: WhileStmt) -> WhileStmtView
    decreases node,
{
    WhileStmtView {
        cond: expr_view(node.cond),
        body: block_view(node.body),
        span: node.span,
    }
}

/// The definition of [`while_stmt_view`].
pub proof fn lemma_while_stmt_view(node: WhileStmt)
    ensures
        while_stmt_view(node) == ({
            WhileStmtView {
                cond: expr_view(node.cond),
                body: block_view(node.body),
                span: node.span,
            }
        }),
{
    reveal_with_fuel(block_view, 1);
    reveal_with_fuel(expr_view, 1);
    reveal_with_fuel(while_stmt_view, 1);
}

/// The model of a [`ForStmt`].
#[verifier::opaque]
pub open spec fn for_stmt_view(node: ForStmt) -> ForStmtView
    decreases node,
{
    ForStmtView {
        pattern: pattern_view(node.pattern),
        iterable: expr_view(node.iterable),
        body: block_view(node.body),
        span: node.span,
    }
}

/// The definition of [`for_stmt_view`].
pub proof fn lemma_for_stmt_view(node: ForStmt)
    ensures
        for_stmt_view(node) == ({
            ForStmtView {
                pattern: pattern_view(node.pattern),
                iterable: expr_view(node.iterable),
                body: block_view(node.body),
                span: node.span,
            }
        }),
{
    reveal_with_fuel(block_view, 1);
    reveal_with_fuel(expr_view, 1);
    reveal_with_fuel(for_stmt_view, 1);
}

/// The model of a [`MatchStmt`].
#[verifier::opaque]
pub open spec fn match_stmt_view(node: MatchStmt) -> MatchStmtView
    decreases node,
{
    MatchStmtView {
        expr: expr_view(node.expr),
        arms: match_arms_view(node.arms@),
        span: node.span,
    }
}

/// The definition of [`match_stmt_view`].
pub proof fn lemma_match_stmt_view(node: MatchStmt)
    ensures
        match_stmt_view(node) == ({
            MatchStmtView {
                expr: expr_view(node.expr),
                arms: match_arms_view(node.arms@),
                span: node.span,
            }
        }),
{
    reveal_with_fuel(expr_view, 1);
    reveal_with_fuel(match_arms_view, 1);
    reveal_with_fuel(match_stmt_view, 1);
}

/// The model of a [`MatchArm`].
#[verifier::opaque]
pub open spec fn match_arm_view(node: MatchArm) -> MatchArmView
    decreases node,
{
    MatchArmView {
        pattern: pattern_view(node.pattern),
        guard: match node.guard {
            Some(v) => Some(expr_view(v)),
            None => None,
        },
        body: expr_view(node.body),
        span: node.span,
    }
}

/// The definition of [`match_arm_view`].
pub proof fn lemma_match_arm_view(node: MatchArm)
    ensures
        match_arm_view(node) == ({
            MatchArmView {
                pattern: pattern_view(node.pattern),
                guard: match node.guard {
                    Some(v) => Some(expr_view(v)),
                    None => None,
                },
                body: expr_view(node.body),
                span: node.span,
            }
        }),
{
    reveal_with_fuel(expr_view, 1);
    reveal_with_fuel(match_arm_view, 1);
}

/// The model of a [`BreakStmt`].
#[verifier::opaque]
pub open spec fn break_stmt_view(node: BreakStmt) -> BreakStmtView
    decreases node,
{
    BreakStmtView {
        label: match node.label {
            Some(v) => Some(v@),
            None => None,
        },
        expr: match node.expr {
            Some(v) => Some(expr_view(v)),
            None => None,
        },
        span: node.span,
    }
}

/// The definition of [`break_stmt_view`].
pub proof fn lemma_break_stmt_view(node: BreakStmt)
    ensures
        break_stmt_view(node) == ({
            BreakStmtView {
                label: match node.label {
                    Some(v) => Some(v@),
                    None => None,
                },
                expr: match node.expr {
                    Some(v) => Some(expr_view(v)),
                    None => None,
                },
                span: node.span,
            }
        }),
{
    reveal_with_fuel(break_stmt_view, 1);
    reveal_with_fuel(expr_view, 1);
}

/// The models of a list of types.
#[verifier::opaque]
pub open spec fn types_view(items: Seq<Type>) -> Seq<TypeView>
    decreases items,
{
    Seq::new(
        items.len(),
        |i: int|
            if 0 <= i < items.len() {
                type_view(items[i])
            } else {
                arbitrary()
            },
    )
}

/// `types_view` of a list with one more item appends the model of that item.
pub proof fn lemma_types_view_push(items: Seq<Type>, item: Type)
    ensures
        types_view(items.push(item)) == types_view(items).push(type_view(item)),
{
    reveal_with_fuel(types_view, 1);
    reveal_with_fuel(type_view, 1);
    assert(types_view(items.push(item)) =~= types_view(items).push(type_view(item)));
}

/// `types_view` of the empty list is empty.
pub proof fn lemma_types_view_empty()
    ensures
        types_view(Seq::<Type>::empty()) == Seq::<TypeView>::empty(),
{
    reveal_with_fuel(types_view, 1);
    assert(types_view(Seq::<Type>::empty()) =~= Seq::<TypeView>::empty());
}

/// The models of a list of patterns.
#[verifier::opaque]
pub open spec fn patterns_view(items: Seq<Pattern>) -> Seq<PatternView>
    decreases items,
{
    Seq::new(
        items.len(),
        |i: int|
            if 0 <= i < items.len() {
                pattern_view(items[i])
            } else {
                arbitrary()
            },
    )
}

/// `patterns_view` of a list with one more item appends the model of that item.
pub proof fn lemma_patterns_view_push(items: Seq<Pattern>, item: Pattern)
    ensures
        patterns_view(items.push(item)) == patterns_view(items).push(pattern_view(item)),
{
    reveal_with_fuel(patterns_view, 1);
    reveal_with_fuel(pattern_view, 1);
    assert(patterns_view(items.push(item)) =~= patterns_view(items).push(pattern_view(item)));
}

/// `patterns_view` of the empty list is empty.
pub proof fn lemma_patterns_view_empty()
    ensures
        patterns_view(Seq::<Pattern>::empty()) == Seq::<PatternView>::empty(),
{
    reveal_with_fuel(patterns_view, 1);
    assert(patterns_view(Seq::<Pattern>::empty()) =~= Seq::<PatternView>::empty());
}

/// The models of a list of field patterns, each with the name of its field.
#[verifier::opaque]
pub open spec fn named_patterns_view(items: Seq<(String, Pattern)>) -> Seq<(Seq<char>, PatternView)>
    decreases items,
{
    Seq::new(
        items.len(),
        |i: int|
            if 0 <= i < items.len() {
                (items[i].0@, pattern_view(items[i].1))
            } else {
                arbitrary()
            },
    )
}

/// `named_patterns_view` of a list with one more item appends the model of that item.
pub proof fn lemma_named_patterns_view_push(items: Seq<(String, Pattern)>, item: (String, Pattern))
    ensures
        named_patterns_view(items.push(item)) == named_patterns_view(items).push((item.0@, pattern_view(item.1))),
{
    reveal_with_fuel(named_patterns_view, 1);
    reveal_with_fuel(pattern_view, 1);
    assert(named_patterns_view(items.push(item)) =~= named_patterns_view(items).push((item.0@, pattern_view(item.1))));
}

/// `named_patterns_view` of the empty list is empty.
pub proof fn lemma_named_patterns_view_empty()
    ensures
        named_patterns_view(Seq::<(String, Pattern)>::empty()) == Seq::<(Seq<char>, PatternView)>::empty(),
{
    reveal_with_fuel(named_patterns_view, 1);
    assert(named_patterns_view(Seq::<(String, Pattern)>::empty()) =~= Seq::<(Seq<char>, PatternView)>::empty());
}

/// The models of a list of expressions.
#[verifier::opaque]
pub open spec fn exprs_view(items: Seq<Expr>) -> Seq<ExprView>
    decreases items,
{
    Seq::new(
        items.len(),
        |i: int|
            if 0 <= i < items.len() {
                expr_view(items[i])
            } else {
                arbitrary()
            },
    )
}

/// `exprs_view` of a list with one more item appends the model of that item.
pub proof fn lemma_exprs_view_push(items: Seq<Expr>, item: Expr)
    ensures
        exprs_view(items.push(item)) == exprs_view(items).push(expr_view(item)),
{
    reveal_with_fuel(exprs_view, 1);
    reveal_with_fuel(expr_view, 1);
    assert(exprs_view(items.push(item)) =~= exprs_view(items).push(expr_view(item)));
}

/// `exprs_view` of the empty list is empty.
pub proof fn lemma_exprs_view_empty()
    ensures
        exprs_view(Seq::<Expr>::empty()) == Seq::<ExprView>::empty(),
{
    reveal_with_fuel(exprs_view, 1);
    assert(exprs_view(Seq::<Expr>::empty()) =~= Seq::<ExprView>::empty());
}

/// The models of a list of field initialisers, each with the name of its field.
#[verifier::opaque]
pub open spec fn named_exprs_view(items: Seq<(String, Expr)>) -> Seq<(Seq<char>, ExprView)>
    decreases items,
{
    Seq::new(
        items.len(),
        |i: int|
            if 0 <= i < items.len() {
                (items[i].0@, expr_view(items[i].1))
            } else {
                arbitrary()
            },
    )
}

/// `named_exprs_view` of a list with one more item appends the model of that item.
pub proof fn lemma_named_exprs_view_push(items: Seq<(String, Expr)>, item: (String, Expr))
    ensures
        named_exprs_view(items.push(item)) == named_exprs_view(items).push((item.0@, expr_view(item.1))),
{
    reveal_with_fuel(named_exprs_view, 1);
    reveal_with_fuel(expr_view, 1);
    assert(named_exprs_view(items.push(item)) =~= named_exprs_view(items).push((item.0@, expr_view(item.1))));
}

/// `named_exprs_view` of the empty list is empty.
pub proof fn lemma_named_exprs_view_empty()
    ensures
        named_exprs_view(Seq::<(String, Expr)>::empty()) == Seq::<(Seq<char>, ExprView)>::empty(),
{
    reveal_with_fuel(named_exprs_view, 1);
    assert(named_exprs_view(Seq::<(String, Expr)>::empty()) =~= Seq::<(Seq<char>, ExprView)>::empty());
}

/// The models of a list of statements.
#[verifier::opaque]
pub open spec fn statements_view(items: Seq<Statement>) -> Seq<StatementView>
    decreases items,
{
    Seq::new(
        items.len(),
        |i: int|
            if 0 <= i < items.len() {
                statement_view(items[i])
            } else {
                arbitrary()
            },
    )
}

/// `statements_view` of a list with one more item appends the model of that item.
pub proof fn lemma_statements_view_push(items: Seq<Statement>, item: Statement)
    ensures
        statements_view(items.push(item)) == statements_view(items).push(statement_view(item)),
{
    reveal_with_fuel(statements_view, 1);
    reveal_with_fuel(statement_view, 1);
    assert(statements_view(items.push(item)) =~= statements_view(items).push(statement_view(item)));
}

/// `statements_view` of the empty list is empty.
pub proof fn lemma_statements_view_empty()
    ensures
        statements_view(Seq::<Statement>::empty()) == Seq::<StatementView>::empty(),
{
    reveal_with_fuel(statements_view, 1);
    assert(statements_view(Seq::<Statement>::empty()) =~= Seq::<StatementView>::empty());
}

/// The models of a list of match arms.
#[verifier::opaque]
pub open spec fn match_arms_view(items: Seq<MatchArm>) -> Seq<MatchArmView>
    decreases items,
{
    Seq::new(
        items.len(),
        |i: int|
            if 0 <= i < items.len() {
                match_arm_view(items[i])
            } else {
                arbitrary()
            },
    )
}

/// `match_arms_view` of a list with one more item appends the model of that item.
pub proof fn lemma_match_arms_view_push(items: Seq<MatchArm>, item: MatchArm)
    ensures
        match_arms_view(items.push(item)) == match_arms_view(items).push(match_arm_view(item)),
{
    reveal_with_fuel(match_arms_view, 1);
    reveal_with_fuel(match_arm_view, 1);
    assert(match_arms_view(items.push(item)) =~= match_arms_view(items).push(match_arm_view(item)));
}

/// `match_arms_view` of the empty list is empty.
pub proof fn lemma_match_arms_view_empty()
    ensures
        match_arms_view(Seq::<MatchArm>::empty()) == Seq::<MatchArmView>::empty(),
{
    reveal_with_fuel(match_arms_view, 1);
    assert(match_arms_view(Seq::<MatchArm>::empty()) =~= Seq::<MatchArmView>::empty());
}

} // verus!
