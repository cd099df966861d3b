//! The grammar of blocks and statements.
//!
//! `break` and `continue` are accepted only where `depth`, the number of
//! `while` and `for` bodies around the position, is not zero. The body of a
//! loop is read one loop deeper; every other part of a statement is read at
//! the depth of the statement.

use vstd::prelude::*;
use crate::ast::model::{
    BlockView, BreakStmtView, ContinueStmtView, ExprStmtView, ForStmtView, IfStmtView, LetStmtView,
    MatchStmtView, ReturnStmtView, StatementView, WhileStmtView,
};
use crate::grammar::expressions::{after_label, expression, label_at, match_arms};
use crate::grammar::patterns::pattern;
use crate::grammar::types::type_;
use crate::grammar::{
    after, at_end, check, done, failed, kind_at, last_span, optional, remaining, skip, span_at,
    unexpected,
    ParseErrorView, Step,
};
use crate::token::{Token, TokenKindView};

verus! {

/// The diagnostic for a `break` or `continue` statement that no loop
/// encloses, at the keyword at `pos`.
pub open spec fn statement_outside_loop(
    toks: Seq<Token>,
    pos: nat,
    message: Seq<char>,
    help: Seq<char>,
) -> ParseErrorView {
    ParseErrorView { message, span: span_at(toks, pos), help: Some(help) }
}

/// A block `{ statement ... }`.
#[verifier::opaque]
pub open spec fn block(toks: Seq<Token>, pos: nat, depth: nat) -> Step<BlockView>
    decreases remaining(toks, pos), 0int,
{
    if !check(toks, pos, TokenKindView::LeftBrace) {
        failed(unexpected(toks, pos, "Expected '{'"@), pos, pos)
    } else {
        let body = statements(toks, pos + 1, depth, Seq::empty());
        let p1 = pos + 1 + body.used;
        match body.result {
            Err(e) => failed(e, pos, p1),
            Ok(all) => if check(toks, p1, TokenKindView::RightBrace) {
                done(
                    BlockView { statements: all, span: span_at(toks, pos).merged(span_at(toks, p1)) },
                    pos,
                    p1 + 1,
                )
            } else {
                failed(unexpected(toks, p1, "Expected '}'"@), pos, p1)
            },
        }
    }
}

/// Statements up to a `}` or the end of the input. `found` holds the
/// statements read so far.
#[verifier::opaque]
pub open spec fn statements(
    toks: Seq<Token>,
    pos: nat,
    depth: nat,
    found: Seq<StatementView>,
) -> Step<
    Seq<StatementView>,
>
    decreases remaining(toks, pos), 54int,
{
    if check(toks, pos, TokenKindView::RightBrace) || at_end(toks, pos) {
        done(found, pos, pos)
    } else {
        let item = statement(toks, pos, depth);
        let p1 = pos + item.used;
        match item.result {
            Err(e) => failed(e, pos, p1),
            Ok(s) => if item.used == 0 {
                done(found.push(s), pos, pos)
            } else {
                after(item.used, statements(toks, p1, depth, found.push(s)))
            },
        }
    }
}

/// A statement: one that begins with `let`, `return`, `if`, `while`, `for`,
/// `match`, `break` or `continue`, a block, or else an expression, after
/// which a `;` may stand.
#[verifier::opaque]
pub open spec fn statement(toks: Seq<Token>, pos: nat, depth: nat) -> Step<StatementView>
    decreases remaining(toks, pos), 53int,
{
    match kind_at(toks, pos) {
        TokenKindView::Let => {
            let s = let_statement(toks, pos, depth);
            match s.result {
                Err(e) => failed(e, pos, pos + s.used),
                Ok(x) => done(StatementView::Let(x), pos, pos + s.used),
            }
        },
        TokenKindView::Return => {
            let s = return_statement(toks, pos, depth);
            match s.result {
                Err(e) => failed(e, pos, pos + s.used),
                Ok(x) => done(StatementView::Return(x), pos, pos + s.used),
            }
        },
        TokenKindView::If => {
            let s = if_statement(toks, pos, depth);
            match s.result {
                Err(e) => failed(e, pos, pos + s.used),
                Ok(x) => done(StatementView::If(x), pos, pos + s.used),
            }
        },
        TokenKindView::While => {
            let s = while_statement(toks, pos, depth);
            match s.result {
                Err(e) => failed(e, pos, pos + s.used),
                Ok(x) => done(StatementView::While(x), pos, pos + s.used),
            }
        },
        TokenKindView::For => {
            let s = for_statement(toks, pos, depth);
            match s.result {
                Err(e) => failed(e, pos, pos + s.used),
                Ok(x) => done(StatementView::For(x), pos, pos + s.used),
            }
        },
        TokenKindView::Match => {
            let s = match_statement(toks, pos, depth);
            match s.result {
                Err(e) => failed(e, pos, pos + s.used),
                Ok(x) => done(StatementView::Match(x), pos, pos + s.used),
            }
        },
        TokenKindView::Break => {
            let s = break_statement(toks, pos, depth);
            match s.result {
                Err(e) => failed(e, pos, pos + s.used),
                Ok(x) => done(StatementView::Break(x), pos, pos + s.used),
            }
        },
        TokenKindView::Continue => {
            let s = continue_statement(toks, pos, depth);
            match s.result {
                Err(e) => failed(e, pos, pos + s.used),
                Ok(x) => done(StatementView::Continue(x), pos, pos + s.used),
            }
        },
        TokenKindView::LeftBrace => {
            let s = block(toks, pos, depth);
            match s.result {
                Err(e) => failed(e, pos, pos + s.used),
                Ok(x) => done(StatementView::Block(x), pos, pos + s.used),
            }
        },
        _ => {
            let value = expression(toks, pos, depth, true);
            let p1 = pos + value.used;
            match value.result {
                Err(e) => failed(e, pos, p1),
                Ok(x) => done(
                    StatementView::Expr(
                        ExprStmtView {
                            expr: x,
                            semicolon: check(toks, p1, TokenKindView::Semicolon),
                            span: x.span(),
                        },
                    ),
                    pos,
                    skip(toks, p1, TokenKindView::Semicolon),
                ),
            }
        },
    }
}

/// `let pattern;`, with `mut` before the pattern, `: Type` after it and
/// `= value` before the `;`, each optional.
#[verifier::opaque]
pub open spec fn let_statement(toks: Seq<Token>, pos: nat, depth: nat) -> Step<LetStmtView>
    decreases remaining(toks, pos), 1int,
{
    if !check(toks, pos, TokenKindView::Let) {
        failed(unexpected(toks, pos, "Expected 'let'"@), pos, pos)
    } else {
        let mutable = check(toks, pos + 1, TokenKindView::Mut);
        let p1 = skip(toks, pos + 1, TokenKindView::Mut);
        let binding = pattern(toks, p1);
        let p2 = p1 + binding.used;
        match binding.result {
            Err(e) => failed(e, pos, p2),
            Ok(p) => {
                let ty = optional(
                    check(toks, p2, TokenKindView::Colon),
                    1,
                    type_(toks, p2 + 1),
                );
                let p3 = p2 + ty.used;
                match ty.result {
                    Err(e) => failed(e, pos, p3),
                    Ok(t) => {
                        let init = optional(
                            check(toks, p3, TokenKindView::Assign),
                            1,
                            expression(toks, p3 + 1, depth, true),
                        );
                        let p4 = p3 + init.used;
                        match init.result {
                            Err(e) => failed(e, pos, p4),
                            Ok(i) => if check(toks, p4, TokenKindView::Semicolon) {
                                done(
                                    LetStmtView {
                                        pattern: p,
                                        ty: t,
                                        init: i,
                                        mutable,
                                        span: span_at(toks, pos).merged(span_at(toks, p4)),
                                    },
                                    pos,
                                    p4 + 1,
                                )
                            } else {
                                failed(
                                    unexpected(toks, p4, "Expected ';' after let statement"@),
                                    pos,
                                    p4,
                                )
                            },
                        }
                    },
                }
            },
        }
    }
}

/// `return;` or `return value;`.
#[verifier::opaque]
pub open spec fn return_statement(toks: Seq<Token>, pos: nat, depth: nat) -> Step<ReturnStmtView>
    decreases remaining(toks, pos), 1int,
{
    if !check(toks, pos, TokenKindView::Return) {
        failed(unexpected(toks, pos, "Expected 'return'"@), pos, pos)
    } else {
        let value = optional(
            !check(toks, pos + 1, TokenKindView::Semicolon),
            0,
            expression(toks, pos + 1, depth, true),
        );
        let p1 = pos + 1 + value.used;
        match value.result {
            Err(e) => failed(e, pos, p1),
            Ok(v) => if check(toks, p1, TokenKindView::Semicolon) {
                done(
                    ReturnStmtView { expr: v, span: span_at(toks, pos).merged(span_at(toks, p1)) },
                    pos,
                    p1 + 1,
                )
            } else {
                failed(unexpected(toks, p1, "Expected ';' after return statement"@), pos, p1)
            },
        }
    }
}

/// `if condition block`, and after it `else block` or `else` and another
/// `if` statement, which then is the one statement of the else block.
#[verifier::opaque]
pub open spec fn if_statement(toks: Seq<Token>, pos: nat, depth: nat) -> Step<IfStmtView>
    decreases remaining(toks, pos), 1int,
{
    if !check(toks, pos, TokenKindView::If) {
        failed(unexpected(toks, pos, "Expected 'if'"@), pos, pos)
    } else {
        let cond = expression(toks, pos + 1, depth, false);
        let p1 = pos + 1 + cond.used;
        match cond.result {
            Err(e) => failed(e, pos, p1),
            Ok(c) => {
                let then = block(toks, p1, depth);
                let p2 = p1 + then.used;
                match then.result {
                    Err(e) => failed(e, pos, p2),
                    Ok(t) => if !check(toks, p2, TokenKindView::Else) {
                        done(
                            IfStmtView {
                                cond: c,
                                then_block: t,
                                else_block: None,
                                span: span_at(toks, pos).merged(last_span(toks, p2)),
                            },
                            pos,
                            p2,
                        )
                    } else if check(toks, p2 + 1, TokenKindView::If) {
                        let nested = if_statement(toks, p2 + 1, depth);
                        let p3 = p2 + 1 + nested.used;
                        match nested.result {
                            Err(e) => failed(e, pos, p3),
                            Ok(n) => done(
                                IfStmtView {
                                    cond: c,
                                    then_block: t,
                                    else_block: Some(
                                        BlockView {
                                            statements: seq![StatementView::If(n)],
                                            span: last_span(toks, p3),
                                        },
                                    ),
                                    span: span_at(toks, pos).merged(last_span(toks, p3)),
                                },
                                pos,
                                p3,
                            ),
                        }
                    } else {
                        let other = block(toks, p2 + 1, depth);
                        let p3 = p2 + 1 + other.used;
                        match other.result {
                            Err(e) => failed(e, pos, p3),
                            Ok(o) => done(
                                IfStmtView {
                                    cond: c,
                                    then_block: t,
                                    else_block: Some(o),
                                    span: span_at(toks, pos).merged(last_span(toks, p3)),
                                },
                                pos,
                                p3,
                            ),
                        }
                    },
                }
            },
        }
    }
}

/// `while condition block`. The block lies one loop deeper.
#[verifier::opaque]
pub open spec fn while_statement(toks: Seq<Token>, pos: nat, depth: nat) -> Step<WhileStmtView>
    decreases remaining(toks, pos), 1int,
{
    if !check(toks, pos, TokenKindView::While) {
        failed(unexpected(toks, pos, "Expected 'while'"@), pos, pos)
    } else {
        let cond = expression(toks, pos + 1, depth, false);
        let p1 = pos + 1 + cond.used;
        match cond.result {
            Err(e) => failed(e, pos, p1),
            Ok(c) => {
                let body = block(toks, p1, depth + 1);
                let p2 = p1 + body.used;
                match body.result {
                    Err(e) => failed(e, pos, p2),
                    Ok(b) => done(
                        WhileStmtView {
                            cond: c,
                            body: b,
                            span: span_at(toks, pos).merged(last_span(toks, p2)),
                        },
                        pos,
                        p2,
                    ),
                }
            },
        }
    }
}

/// `for pattern in iterable block`. The block lies one loop deeper.
#[verifier::opaque]
pub open spec fn for_statement(toks: Seq<Token>, pos: nat, depth: nat) -> Step<ForStmtView>
    decreases remaining(toks, pos), 1int,
{
    if !check(toks, pos, TokenKindView::For) {
        failed(unexpected(toks, pos, "Expected 'for'"@), pos, pos)
    } else {
        let binding = pattern(toks, pos + 1);
        let p1 = pos + 1 + binding.used;
        match binding.result {
            Err(e) => failed(e, pos, p1),
            Ok(p) => if !check(toks, p1, TokenKindView::In) {
                failed(unexpected(toks, p1, "Expected 'in' after for loop variable"@), pos, p1)
            } else {
                let iterable = expression(toks, p1 + 1, depth, false);
                let p2 = p1 + 1 + iterable.used;
                match iterable.result {
                    Err(e) => failed(e, pos, p2),
                    Ok(i) => {
                        let body = block(toks, p2, depth + 1);
                        let p3 = p2 + body.used;
                        match body.result {
                            Err(e) => failed(e, pos, p3),
                            Ok(b) => done(
                                ForStmtView {
                                    pattern: p,
                                    iterable: i,
                                    body: b,
                                    span: span_at(toks, pos).merged(last_span(toks, p3)),
                                },
                                pos,
                                p3,
                            ),
                        }
                    },
                }
            },
        }
    }
}

/// `match scrutinee { arm, ... }`.
#[verifier::opaque]
pub open spec fn match_statement(toks: Seq<Token>, pos: nat, depth: nat) -> Step<MatchStmtView>
    decreases remaining(toks, pos), 1int,
{
    if !check(toks, pos, TokenKindView::Match) {
        failed(unexpected(toks, pos, "Expected 'match'"@), pos, pos)
    } else {
        let scrutinee = expression(toks, pos + 1, depth, false);
        let p1 = pos + 1 + scrutinee.used;
        match scrutinee.result {
            Err(e) => failed(e, pos, p1),
            Ok(s) => if !check(toks, p1, TokenKindView::LeftBrace) {
                failed(unexpected(toks, p1, "Expected '{' after match expression"@), pos, p1)
            } else {
                let arms = match_arms(toks, p1 + 1, depth, true, Seq::empty());
                let p2 = p1 + 1 + arms.used;
                match arms.result {
                    Err(e) => failed(e, pos, p2),
                    Ok(all) => if check(toks, p2, TokenKindView::RightBrace) {
                        done(
                            MatchStmtView {
                                expr: s,
                                arms: all,
                                span: span_at(toks, pos).merged(span_at(toks, p2)),
                            },
                            pos,
                            p2 + 1,
                        )
                    } else {
                        failed(unexpected(toks, p2, "Expected '}' after match arms"@), pos, p2)
                    },
                }
            },
        }
    }
}

/// `break;`, with an optional label and an optional value before the `;`:
/// an error unless a loop encloses it.
#[verifier::opaque]
pub open spec fn break_statement(toks: Seq<Token>, pos: nat, depth: nat) -> Step<BreakStmtView>
    decreases remaining(toks, pos), 1int,
{
    if !check(toks, pos, TokenKindView::Break) {
        failed(unexpected(toks, pos, "Expected 'break'"@), pos, pos)
    } else if depth == 0 {
        failed(
            statement_outside_loop(
                toks,
                pos,
                "break statement outside of loop"@,
                "break can only be used inside while or for loops"@,
            ),
            pos,
            pos + 1,
        )
    } else {
        let label = label_at(toks, pos + 1);
        let p1 = after_label(toks, pos + 1);
        let value = optional(
            !check(toks, p1, TokenKindView::Semicolon),
            0,
            expression(toks, p1, depth, true),
        );
        let p2 = p1 + value.used;
        match value.result {
            Err(e) => failed(e, pos, p2),
            Ok(v) => if check(toks, p2, TokenKindView::Semicolon) {
                done(
                    BreakStmtView {
                        label,
                        expr: v,
                        span: span_at(toks, pos).merged(span_at(toks, p2)),
                    },
                    pos,
                    p2 + 1,
                )
            } else {
                failed(unexpected(toks, p2, "Expected ';' after break statement"@), pos, p2)
            },
        }
    }
}

/// `continue;`, with an optional label before the `;`: an error unless a
/// loop encloses it.
pub open spec fn continue_statement(toks: Seq<Token>, pos: nat, depth: nat) -> Step<
    ContinueStmtView,
> {
    if !check(toks, pos, TokenKindView::Continue) {
        failed(unexpected(toks, pos, "Expected 'continue'"@), pos, pos)
    } else if depth == 0 {
        failed(
            statement_outside_loop(
                toks,
                pos,
                "continue statement outside of loop"@,
                "continue can only be used inside while or for loops"@,
            ),
            pos,
            pos + 1,
        )
    } else {
        let label = label_at(toks, pos + 1);
        let p1 = after_label(toks, pos + 1);
        if check(toks, p1, TokenKindView::Semicolon) {
            done(
                ContinueStmtView { label, span: span_at(toks, pos).merged(span_at(toks, p1)) },
                pos,
                p1 + 1,
            )
        } else {
            failed(unexpected(toks, p1, "Expected ';' after continue statement"@), pos, p1)
        }
    }
}

} // verus!
