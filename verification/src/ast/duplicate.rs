//! Copies of syntax-tree nodes. A copy has the same model as the node it was made from.

use vstd::prelude::*;
use crate::ast::{
    Block, BreakStmt, ContinueStmt, Expr, ExprStmt, ForStmt, IfStmt, LetStmt, Literal, MatchArm,
    MatchStmt, Parameter, Pattern, ReturnStmt, Statement, Type, WhileStmt,
};
use crate::ast::abstraction::{
    block_view, break_stmt_view, expr_stmt_view, expr_view, exprs_view, for_stmt_view,
    if_stmt_view, lemma_exprs_view_push, lemma_match_arms_view_push,
    lemma_named_exprs_view_push, lemma_named_patterns_view_push, lemma_patterns_view_push,
    lemma_statements_view_push, lemma_types_view_push, let_stmt_view, match_arm_view,
    match_arms_view, match_stmt_view, named_exprs_view, named_patterns_view, pattern_view,
    patterns_view, return_stmt_view, statement_view, statements_view, type_view, types_view,
    while_stmt_view,
};
use crate::ast::model::{lemma_views_push, views};

verus! {

/// A copy of a [`Literal`].
pub fn clone_literal(node: &Literal) -> (copy: Literal)
    ensures
        copy@ == node@,
{
    match node {
        Literal::Int(first) => Literal::Int(*first),
        Literal::Bool(first) => Literal::Bool(*first),
        Literal::Char(first) => Literal::Char(*first),
        Literal::String(first) => Literal::String(first.clone()),
    }
}

/// A copy of a [`Type`].
pub fn clone_type(node: &Type) -> (copy: Type)
    ensures
        copy@ == node@,
    decreases node,
{
    proof {
        reveal_with_fuel(type_view, 1);
        reveal_with_fuel(types_view, 1);
    }
    match node {
        Type::I8 => Type::I8,
        Type::I16 => Type::I16,
        Type::I32 => Type::I32,
        Type::I64 => Type::I64,
        Type::U8 => Type::U8,
        Type::U16 => Type::U16,
        Type::U32 => Type::U32,
        Type::U64 => Type::U64,
        Type::Usize => Type::Usize,
        Type::Isize => Type::Isize,
        Type::F32 => Type::F32,
        Type::F64 => Type::F64,
        Type::Bool => Type::Bool,
        Type::Char => Type::Char,
        Type::String => Type::String,
        Type::Unit => Type::Unit,
        Type::Array(first, second) => Type::Array(Box::new(clone_type(first)), *second),
        Type::Slice(first) => Type::Slice(Box::new(clone_type(first))),
        Type::Tuple(first) => Type::Tuple(clone_types(first)),
        Type::Pointer(first, second) => Type::Pointer(Box::new(clone_type(first)), *second),
        Type::Reference(first, second) => Type::Reference(Box::new(clone_type(first)), *second),
        Type::Named(first) => Type::Named(first.clone()),
        Type::Generic(first, second) => Type::Generic(first.clone(), clone_types(second)),
        Type::Function(first, second) => Type::Function(
            clone_types(first),
            Box::new(clone_type(second)),
        ),
        Type::Never => Type::Never,
        Type::Infer => Type::Infer,
    }
}

/// A copy of a list of types.
pub fn clone_types(items: &Vec<Type>) -> (copies: Vec<Type>)
    ensures
        types_view(copies@) == types_view(items@),
    decreases items,
{
    let mut copies: Vec<Type> = Vec::new();
    let mut i: usize = 0;
    proof {
        assert(copies@ =~= items@.take(0));
    }
    while i < items.len()
        invariant
            i <= items.len(),
            types_view(copies@) == types_view(items@.take(i as int)),
        decreases items.len() - i,
    {
        let copy = clone_type(&items[i]);
        proof {
            assert(items@.take(i + 1) =~= items@.take(i as int).push(items@[i as int]));
            lemma_types_view_push(copies@, copy);
            lemma_types_view_push(items@.take(i as int), items@[i as int]);
        }
        copies.push(copy);
        i += 1;
    }
    assert(items@.take(items.len() as int) =~= items@);
    copies
}

/// A copy of a [`Pattern`].
pub fn clone_pattern(node: &Pattern) -> (copy: Pattern)
    ensures
        copy@ == node@,
    decreases node,
{
    proof {
        reveal_with_fuel(named_patterns_view, 1);
        reveal_with_fuel(pattern_view, 1);
        reveal_with_fuel(patterns_view, 1);
    }
    match node {
        Pattern::Ident(first) => Pattern::Ident(first.clone()),
        Pattern::Literal(first) => Pattern::Literal(clone_literal(first)),
        Pattern::Struct(first, second) => Pattern::Struct(
            first.clone(),
            clone_named_patterns(second),
        ),
        Pattern::Tuple(first) => Pattern::Tuple(clone_patterns(first)),
        Pattern::Or(first) => Pattern::Or(clone_patterns(first)),
        Pattern::Wildcard => Pattern::Wildcard,
    }
}

/// A copy of a list of patterns.
pub fn clone_patterns(items: &Vec<Pattern>) -> (copies: Vec<Pattern>)
    ensures
        patterns_view(copies@) == patterns_view(items@),
    decreases items,
{
    let mut copies: Vec<Pattern> = Vec::new();
    let mut i: usize = 0;
    proof {
        assert(copies@ =~= items@.take(0));
    }
    while i < items.len()
        invariant
            i <= items.len(),
            patterns_view(copies@) == patterns_view(items@.take(i as int)),
        decreases items.len() - i,
    {
        let copy = clone_pattern(&items[i]);
        proof {
            assert(items@.take(i + 1) =~= items@.take(i as int).push(items@[i as int]));
            lemma_patterns_view_push(copies@, copy);
            lemma_patterns_view_push(items@.take(i as int), items@[i as int]);
        }
        copies.push(copy);
        i += 1;
    }
    assert(items@.take(items.len() as int) =~= items@);
    copies
}

/// A copy of a list of field patterns.
pub fn clone_named_patterns(items: &Vec<(String, Pattern)>) -> (copies: Vec<(String, Pattern)>)
    ensures
        named_patterns_view(copies@) == named_patterns_view(items@),
    decreases items,
{
    let mut copies: Vec<(String, Pattern)> = Vec::new();
    let mut i: usize = 0;
    proof {
        assert(copies@ =~= items@.take(0));
    }
    while i < items.len()
        invariant
            i <= items.len(),
            named_patterns_view(copies@) == named_patterns_view(items@.take(i as int)),
        decreases items.len() - i,
    {
        let copy = (items[i].0.clone(), clone_pattern(&items[i].1));
        proof {
            assert(items@.take(i + 1) =~= items@.take(i as int).push(items@[i as int]));
            lemma_named_patterns_view_push(copies@, copy);
            lemma_named_patterns_view_push(items@.take(i as int), items@[i as int]);
        }
        copies.push(copy);
        i += 1;
    }
    assert(items@.take(items.len() as int) =~= items@);
    copies
}

/// A copy of a [`Parameter`].
pub fn clone_parameter(node: &Parameter) -> (copy: Parameter)
    ensures
        copy@ == node@,
{
    Parameter {
        pattern: clone_pattern(&node.pattern),
        ty: clone_type(&node.ty),
        span: node.span,
    }
}

/// A copy of a list of parameters.
pub fn clone_parameters(items: &Vec<Parameter>) -> (copies: Vec<Parameter>)
    ensures
        views(copies@) == views(items@),
    decreases items,
{
    let mut copies: Vec<Parameter> = Vec::new();
    let mut i: usize = 0;
    proof {
        assert(copies@ =~= items@.take(0));
    }
    while i < items.len()
        invariant
            i <= items.len(),
            views(copies@) == views(items@.take(i as int)),
        decreases items.len() - i,
    {
        let copy = clone_parameter(&items[i]);
        proof {
            assert(items@.take(i + 1) =~= items@.take(i as int).push(items@[i as int]));
            lemma_views_push(copies@, copy);
            lemma_views_push(items@.take(i as int), items@[i as int]);
        }
        copies.push(copy);
        i += 1;
    }
    assert(items@.take(items.len() as int) =~= items@);
    copies
}

/// A copy of a [`ContinueStmt`].
pub fn clone_continue_stmt(node: &ContinueStmt) -> (copy: ContinueStmt)
    ensures
        copy@ == node@,
{
    ContinueStmt {
        label: match &node.label {
            Some(v) => Some(v.clone()),
            None => None,
        },
        span: node.span,
    }
}

/// A copy of a [`Expr`].
pub fn clone_expr(node: &Expr) -> (copy: Expr)
    ensures
        copy@ == node@,
    decreases node,
{
    proof {
        reveal_with_fuel(block_view, 1);
        reveal_with_fuel(expr_view, 1);
        reveal_with_fuel(exprs_view, 1);
        reveal_with_fuel(match_arms_view, 1);
        reveal_with_fuel(named_exprs_view, 1);
    }
    match node {
        Expr::Literal(first, second) => Expr::Literal(clone_literal(first), *second),
        Expr::Ident(first, second) => Expr::Ident(first.clone(), *second),
        Expr::Binary(first, second, third, fourth) => Expr::Binary(
            *first,
            Box::new(clone_expr(second)),
            Box::new(clone_expr(third)),
            *fourth,
        ),
        Expr::Unary(first, second, third) => Expr::Unary(
            *first,
            Box::new(clone_expr(second)),
            *third,
        ),
        Expr::Call(first, second, third) => Expr::Call(
            Box::new(clone_expr(first)),
            clone_exprs(second),
            *third,
        ),
        Expr::MethodCall(first, second, third, fourth) => Expr::MethodCall(
            Box::new(clone_expr(first)),
            second.clone(),
            clone_exprs(third),
            *fourth,
        ),
        Expr::FieldAccess(first, second, third) => Expr::FieldAccess(
            Box::new(clone_expr(first)),
            second.clone(),
            *third,
        ),
        Expr::IndexAccess(first, second, third) => Expr::IndexAccess(
            Box::new(clone_expr(first)),
            Box::new(clone_expr(second)),
            *third,
        ),
        Expr::StructLit(first, second, third) => Expr::StructLit(
            first.clone(),
            clone_named_exprs(second),
            *third,
        ),
        Expr::ArrayLit(first, second) => Expr::ArrayLit(clone_exprs(first), *second),
        Expr::TupleLit(first, second) => Expr::TupleLit(clone_exprs(first), *second),
        Expr::Range(first, second, third, fourth) => Expr::Range(
            Box::new(clone_expr(first)),
            Box::new(clone_expr(second)),
            *third,
            *fourth,
        ),
        Expr::Assign(first, second, third) => Expr::Assign(
            Box::new(clone_expr(first)),
            Box::new(clone_expr(second)),
            *third,
        ),
        Expr::CompoundAssign(first, second, third, fourth) => Expr::CompoundAssign(
            *first,
            Box::new(clone_expr(second)),
            Box::new(clone_expr(third)),
            *fourth,
        ),
        Expr::Block(first, second) => Expr::Block(clone_block(first), *second),
        Expr::If(first, second, third, fourth) => Expr::If(
            Box::new(clone_expr(first)),
            clone_block(second),
            match third {
                Some(v) => Some(clone_block(v)),
                None => None,
            },
            *fourth,
        ),
        Expr::Match(first, second, third) => Expr::Match(
            Box::new(clone_expr(first)),
            clone_match_arms(second),
            *third,
        ),
        Expr::While(first, second, third) => Expr::While(
            Box::new(clone_expr(first)),
            clone_block(second),
            *third,
        ),
        Expr::For(first, second, third, fourth) => Expr::For(
            clone_pattern(first),
            Box::new(clone_expr(second)),
            clone_block(third),
            *fourth,
        ),
        Expr::Break(first, second, third) => Expr::Break(
            match first {
                Some(v) => Some(v.clone()),
                None => None,
            },
            match second {
                Some(v) => Some(Box::new(clone_expr(v))),
                None => None,
            },
            *third,
        ),
        Expr::Continue(first, second) => Expr::Continue(
            match first {
                Some(v) => Some(v.clone()),
                None => None,
            },
            *second,
        ),
        Expr::Return(first, second) => Expr::Return(
            match first {
                Some(v) => Some(Box::new(clone_expr(v))),
                None => None,
            },
            *second,
        ),
        Expr::Closure(first, second, third, fourth) => Expr::Closure(
            clone_parameters(first),
            match second {
                Some(v) => Some(clone_type(v)),
                None => None,
            },
            Box::new(clone_expr(third)),
            *fourth,
        ),
        Expr::Cast(first, second, third) => Expr::Cast(
            Box::new(clone_expr(first)),
            clone_type(second),
            *third,
        ),
        Expr::Ref(first, second, third) => Expr::Ref(Box::new(clone_expr(first)), *second, *third),
        Expr::Deref(first, second) => Expr::Deref(Box::new(clone_expr(first)), *second),
    }
}

/// A copy of a [`Block`].
pub fn clone_block(node: &Block) -> (copy: Block)
    ensures
        copy@ == node@,
    decreases node,
{
    proof {
        reveal_with_fuel(block_view, 1);
        reveal_with_fuel(statements_view, 1);
    }
    Block {
        statements: clone_statements(&node.statements),
        span: node.span,
    }
}

/// A copy of a [`Statement`].
pub fn clone_statement(node: &Statement) -> (copy: Statement)
    ensures
        copy@ == node@,
    decreases node,
{
    proof {
        reveal_with_fuel(block_view, 1);
        reveal_with_fuel(break_stmt_view, 1);
        reveal_with_fuel(expr_stmt_view, 1);
        reveal_with_fuel(for_stmt_view, 1);
        reveal_with_fuel(if_stmt_view, 1);
        reveal_with_fuel(let_stmt_view, 1);
        reveal_with_fuel(match_stmt_view, 1);
        reveal_with_fuel(return_stmt_view, 1);
        reveal_with_fuel(statement_view, 1);
        reveal_with_fuel(while_stmt_view, 1);
    }
    match node {
        Statement::Let(first) => Statement::Let(clone_let_stmt(first)),
        Statement::Expr(first) => Statement::Expr(clone_expr_stmt(first)),
        Statement::Return(first) => Statement::Return(clone_return_stmt(first)),
        Statement::If(first) => Statement::If(clone_if_stmt(first)),
        Statement::While(first) => Statement::While(clone_while_stmt(first)),
        Statement::For(first) => Statement::For(clone_for_stmt(first)),
        Statement::Match(first) => Statement::Match(clone_match_stmt(first)),
        Statement::Break(first) => Statement::Break(clone_break_stmt(first)),
        Statement::Continue(first) => Statement::Continue(clone_continue_stmt(first)),
        Statement::Block(first) => Statement::Block(clone_block(first)),
    }
}

/// A copy of a [`LetStmt`].
pub fn clone_let_stmt(node: &LetStmt) -> (copy: LetStmt)
    ensures
        copy@ == node@,
    decreases node,
{
    proof {
        reveal_with_fuel(expr_view, 1);
        reveal_with_fuel(let_stmt_view, 1);
    }
    LetStmt {
        pattern: clone_pattern(&node.pattern),
        ty: match &node.ty {
            Some(v) => Some(clone_type(v)),
            None => None,
        },
        init: match &node.init {
            Some(v) => Some(clone_expr(v)),
            None => None,
        },
        mutable: node.mutable,
        span: node.span,
    }
}

/// A copy of a [`ExprStmt`].
pub fn clone_expr_stmt(node: &ExprStmt) -> (copy: ExprStmt)
    ensures
        copy@ == node@,
    decreases node,
{
    proof {
        reveal_with_fuel(expr_stmt_view, 1);
        reveal_with_fuel(expr_view, 1);
    }
    ExprStmt {
        expr: clone_expr(&node.expr),
        semicolon: node.semicolon,
        span: node.span,
    }
}

/// A copy of a [`ReturnStmt`].
pub fn clone_return_stmt(node: &ReturnStmt) -> (copy: ReturnStmt)
    ensures
        copy@ == node@,
    decreases node,
{
    proof {
        reveal_with_fuel(expr_view, 1);
        reveal_with_fuel(return_stmt_view, 1);
    }
    ReturnStmt {
        expr: match &node.expr {
            Some(v) => Some(clone_expr(v)),
            None => None,
        },
        span: node.span,
    }
}

/// A copy of a [`IfStmt`].
pub fn clone_if_stmt(node: &IfStmt) -> (copy: IfStmt)
    ensures
        copy@ == node@,
    decreases node,
{
    proof {
        reveal_with_fuel(block_view, 1);
        reveal_with_fuel(expr_view, 1);
        reveal_with_fuel(if_stmt_view, 1);
    }
    IfStmt {
        cond: clone_expr(&node.cond),
        then_block: clone_block(&node.then_block),
        else_block: match &node.else_block {
            Some(v) => Some(clone_block(v)),
            None => None,
        },
        span: node.span,
    }
}

/// A copy of a [`WhileStmt`].
pub fn clone_while_stmt(node: &WhileStmt) -> (copy: WhileStmt)
    ensures
        copy@ == node@,
    decreases node,
{
    proof {
        reveal_with_fuel(block_view, 1);
        reveal_with_fuel(expr_view, 1);
        reveal_with_fuel(while_stmt_view, 1);
    }
    WhileStmt {
        cond: clone_expr(&node.cond),
        body: clone_block(&node.body),
        span: node.span,
    }
}

/// A copy of a [`ForStmt`].
pub fn clone_for_stmt(node: &ForStmt) -> (copy: ForStmt)
    ensures
        copy@ == node@,
    decreases node,
{
    proof {
        reveal_with_fuel(block_view, 1);
        reveal_with_fuel(expr_view, 1);
        reveal_with_fuel(for_stmt_view, 1);
    }
    ForStmt {
        pattern: clone_pattern(&node.pattern),
        iterable: clone_expr(&node.iterable),
        body: clone_block(&node.body),
        span: node.span,
    }
}

/// A copy of a [`MatchStmt`].
pub fn clone_match_stmt(node: &MatchStmt) -> (copy: MatchStmt)
    ensures
        copy@ == node@,
    decreases node,
{
    proof {
        reveal_with_fuel(expr_view, 1);
        reveal_with_fuel(match_arms_view, 1);
        reveal_with_fuel(match_stmt_view, 1);
    }
    MatchStmt {
        expr: clone_expr(&node.expr),
        arms: clone_match_arms(&node.arms),
        span: node.span,
    }
}

/// A copy of a [`MatchArm`].
pub fn clone_match_arm(node: &MatchArm) -> (copy: MatchArm)
    ensures
        copy@ == node@,
    decreases node,
{
    proof {
        reveal_with_fuel(expr_view, 1);
        reveal_with_fuel(match_arm_view, 1);
    }
    MatchArm {
        pattern: clone_pattern(&node.pattern),
        guard: match &node.guard {
            Some(v) => Some(clone_expr(v)),
            None => None,
        },
        body: clone_expr(&node.body),
        span: node.span,
    }
}

/// A copy of a [`BreakStmt`].
pub fn clone_break_stmt(node: &BreakStmt) -> (copy: BreakStmt)
    ensures
        copy@ == node@,
    decreases node,
{
    proof {
        reveal_with_fuel(break_stmt_view, 1);
        reveal_with_fuel(expr_view, 1);
    }
    BreakStmt {
        label: match &node.label {
            Some(v) => Some(v.clone()),
            None => None,
        },
        expr: match &node.expr {
            Some(v) => Some(clone_expr(v)),
            None => None,
        },
        span: node.span,
    }
}

/// A copy of a list of expressions.
pub fn clone_exprs(items: &Vec<Expr>) -> (copies: Vec<Expr>)
    ensures
        exprs_view(copies@) == exprs_view(items@),
    decreases items,
{
    let mut copies: Vec<Expr> = Vec::new();
    let mut i: usize = 0;
    proof {
        assert(copies@ =~= items@.take(0));
    }
    while i < items.len()
        invariant
            i <= items.len(),
            exprs_view(copies@) == exprs_view(items@.take(i as int)),
        decreases items.len() - i,
    {
        let copy = clone_expr(&items[i]);
        proof {
            assert(items@.take(i + 1) =~= items@.take(i as int).push(items@[i as int]));
            lemma_exprs_view_push(copies@, copy);
            lemma_exprs_view_push(items@.take(i as int), items@[i as int]);
        }
        copies.push(copy);
        i += 1;
    }
    assert(items@.take(items.len() as int) =~= items@);
    copies
}

/// A copy of a list of field initialisers.
pub fn clone_named_exprs(items: &Vec<(String, Expr)>) -> (copies: Vec<(String, Expr)>)
    ensures
        named_exprs_view(copies@) == named_exprs_view(items@),
    decreases items,
{
    let mut copies: Vec<(String, Expr)> = Vec::new();
    let mut i: usize = 0;
    proof {
        assert(copies@ =~= items@.take(0));
    }
    while i < items.len()
        invariant
            i <= items.len(),
            named_exprs_view(copies@) == named_exprs_view(items@.take(i as int)),
        decreases items.len() - i,
    {
        let copy = (items[i].0.clone(), clone_expr(&items[i].1));
        proof {
            assert(items@.take(i + 1) =~= items@.take(i as int).push(items@[i as int]));
            lemma_named_exprs_view_push(copies@, copy);
            lemma_named_exprs_view_push(items@.take(i as int), items@[i as int]);
        }
        copies.push(copy);
        i += 1;
    }
    assert(items@.take(items.len() as int) =~= items@);
    copies
}

/// A copy of a list of statements.
pub fn clone_statements(items: &Vec<Statement>) -> (copies: Vec<Statement>)
    ensures
        statements_view(copies@) == statements_view(items@),
    decreases items,
{
    let mut copies: Vec<Statement> = Vec::new();
    let mut i: usize = 0;
    proof {
        assert(copies@ =~= items@.take(0));
    }
    while i < items.len()
        invariant
            i <= items.len(),
            statements_view(copies@) == statements_view(items@.take(i as int)),
        decreases items.len() - i,
    {
        let copy = clone_statement(&items[i]);
        proof {
            assert(items@.take(i + 1) =~= items@.take(i as int).push(items@[i as int]));
            lemma_statements_view_push(copies@, copy);
            lemma_statements_view_push(items@.take(i as int), items@[i as int]);
        }
        copies.push(copy);
        i += 1;
    }
    assert(items@.take(items.len() as int) =~= items@);
    copies
}

/// A copy of a list of match arms.
pub fn clone_match_arms(items: &Vec<MatchArm>) -> (copies: Vec<MatchArm>)
    ensures
        match_arms_view(copies@) == match_arms_view(items@),
    decreases items,
{
    let mut copies: Vec<MatchArm> = Vec::new();
    let mut i: usize = 0;
    proof {
        assert(copies@ =~= items@.take(0));
    }
    while i < items.len()
        invariant
            i <= items.len(),
            match_arms_view(copies@) == match_arms_view(items@.take(i as int)),
        decreases items.len() - i,
    {
        let copy = clone_match_arm(&items[i]);
        proof {
            assert(items@.take(i + 1) =~= items@.take(i as int).push(items@[i as int]));
            lemma_match_arms_view_push(copies@, copy);
            lemma_match_arms_view_push(items@.take(i as int), items@[i as int]);
        }
        copies.push(copy);
        i += 1;
    }
    assert(items@.take(items.len() as int) =~= items@);
    copies
}

impl Clone for Expr {
    fn clone(&self) -> (copy: Self)
        ensures
            copy@ == self@,
    {
        clone_expr(self)
    }
}

impl Clone for Block {
    fn clone(&self) -> (copy: Self)
        ensures
            copy@ == self@,
    {
        clone_block(self)
    }
}

impl Clone for Statement {
    fn clone(&self) -> (copy: Self)
        ensures
            copy@ == self@,
    {
        clone_statement(self)
    }
}

impl Clone for LetStmt {
    fn clone(&self) -> (copy: Self)
        ensures
            copy@ == self@,
    {
        clone_let_stmt(self)
    }
}

impl Clone for ExprStmt {
    fn clone(&self) -> (copy: Self)
        ensures
            copy@ == self@,
    {
        clone_expr_stmt(self)
    }
}

impl Clone for ReturnStmt {
    fn clone(&self) -> (copy: Self)
        ensures
            copy@ == self@,
    {
        clone_return_stmt(self)
    }
}

impl Clone for IfStmt {
    fn clone(&self) -> (copy: Self)
        ensures
            copy@ == self@,
    {
        clone_if_stmt(self)
    }
}

impl Clone for WhileStmt {
    fn clone(&self) -> (copy: Self)
        ensures
            copy@ == self@,
    {
        clone_while_stmt(self)
    }
}

impl Clone for ForStmt {
    fn clone(&self) -> (copy: Self)
        ensures
            copy@ == self@,
    {
        clone_for_stmt(self)
    }
}

impl Clone for MatchStmt {
    fn clone(&self) -> (copy: Self)
        ensures
            copy@ == self@,
    {
        clone_match_stmt(self)
    }
}

impl Clone for MatchArm {
    fn clone(&self) -> (copy: Self)
        ensures
            copy@ == self@,
    {
        clone_match_arm(self)
    }
}

impl Clone for BreakStmt {
    fn clone(&self) -> (copy: Self)
        ensures
            copy@ == self@,
    {
        clone_break_stmt(self)
    }
}

impl Clone for Type {
    fn clone(&self) -> (copy: Self)
        ensures
            copy@ == self@,
    {
        clone_type(self)
    }
}

impl Clone for Pattern {
    fn clone(&self) -> (copy: Self)
        ensures
            copy@ == self@,
    {
        clone_pattern(self)
    }
}

impl Clone for Literal {
    fn clone(&self) -> (copy: Self)
        ensures
            copy@ == self@,
    {
        clone_literal(self)
    }
}

impl Clone for Parameter {
    fn clone(&self) -> (copy: Self)
        ensures
            copy@ == self@,
    {
        clone_parameter(self)
    }
}

impl Clone for ContinueStmt {
    fn clone(&self) -> (copy: Self)
        ensures
            copy@ == self@,
    {
        clone_continue_stmt(self)
    }
}

} // verus!
