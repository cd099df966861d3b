//! The grammar of expressions.
//!
//! Binary operators are grouped in ten tiers, from the multiplicative
//! operators, which bind tightest, to `||`. Each tier reads its operands
//! from the tier below and groups to the left. Ranges stand between the
//! shifts and the additive operators and do not chain; casts stand below
//! the multiplicative operators; assignments stand above `||` and group to
//! the right.
//!
//! Every production takes the number of loops around the position, `depth`,
//! and whether a name followed by `{` begins a struct literal there,
//! `structs`: it does not in the condition of an `if` or a `while`, in the
//! iterable of a `for` and in the scrutinee of a `match`, where the `{`
//! opens the body, except within parentheses, brackets and braces.

use vstd::prelude::*;
use crate::ast::model::{ExprView, LiteralView, MatchArmView, ParameterView, TypeView};
use crate::ast::{BinOp, UnOp};
use crate::grammar::patterns::{pattern, single_pattern};
use crate::grammar::statements::block;
use crate::grammar::types::type_;
use crate::grammar::{
    after, at_end, check, done, failed, kind_at, last_span, optional, plain_error, remaining,
    skip,
    span_at, unexpected, unexpected_in_expression, ParseErrorView, Step,
};
use crate::span::Span;
use crate::token::{Token, TokenKindView};

verus! {

/// The tier of `*`, `/` and `%`.
pub const MULTIPLICATIVE: u8 = 0;

/// The tier of `+` and `-`.
pub const ADDITIVE: u8 = 1;

/// The tier of `<<` and `>>`.
pub const SHIFT: u8 = 2;

/// The tier of `<`, `>`, `<=` and `>=`.
pub const RELATIONAL: u8 = 3;

/// The tier of `==` and `!=`.
pub const EQUALITY: u8 = 4;

/// The tier of `&`.
pub const BITWISE_AND: u8 = 5;

/// The tier of `^`.
pub const BITWISE_XOR: u8 = 6;

/// The tier of `|`.
pub const BITWISE_OR: u8 = 7;

/// The tier of `&&`.
pub const LOGICAL_AND: u8 = 8;

/// The tier of `||`.
pub const LOGICAL_OR: u8 = 9;

/// The binary operator that a token of `kind` is in `tier`, if it is one.
pub open spec fn operator(tier: nat, kind: TokenKindView) -> Option<BinOp> {
    match kind {
        TokenKindView::Star => if tier == 0 { Some(BinOp::Mul) } else { None },
        TokenKindView::Slash => if tier == 0 { Some(BinOp::Div) } else { None },
        TokenKindView::Percent => if tier == 0 { Some(BinOp::Mod) } else { None },
        TokenKindView::Plus => if tier == 1 { Some(BinOp::Add) } else { None },
        TokenKindView::Minus => if tier == 1 { Some(BinOp::Sub) } else { None },
        TokenKindView::LeftShift => if tier == 2 { Some(BinOp::LeftShift) } else { None },
        TokenKindView::RightShift => if tier == 2 { Some(BinOp::RightShift) } else { None },
        TokenKindView::Less => if tier == 3 { Some(BinOp::Less) } else { None },
        TokenKindView::Greater => if tier == 3 { Some(BinOp::Greater) } else { None },
        TokenKindView::LessEqual => if tier == 3 { Some(BinOp::LessEqual) } else { None },
        TokenKindView::GreaterEqual => if tier == 3 { Some(BinOp::GreaterEqual) } else { None },
        TokenKindView::Equal => if tier == 4 { Some(BinOp::Equal) } else { None },
        TokenKindView::NotEqual => if tier == 4 { Some(BinOp::NotEqual) } else { None },
        TokenKindView::BitwiseAnd => if tier == 5 { Some(BinOp::BitwiseAnd) } else { None },
        TokenKindView::BitwiseXor => if tier == 6 { Some(BinOp::BitwiseXor) } else { None },
        TokenKindView::BitwiseOr => if tier == 7 { Some(BinOp::BitwiseOr) } else { None },
        TokenKindView::LogicalAnd => if tier == 8 { Some(BinOp::LogicalAnd) } else { None },
        TokenKindView::LogicalOr => if tier == 9 { Some(BinOp::LogicalOr) } else { None },
        _ => None,
    }
}

/// The operator of a compound assignment that a token of `kind` stands for,
/// if it is one.
pub open spec fn compound_operator(kind: TokenKindView) -> Option<BinOp> {
    match kind {
        TokenKindView::PlusAssign => Some(BinOp::Add),
        TokenKindView::MinusAssign => Some(BinOp::Sub),
        TokenKindView::StarAssign => Some(BinOp::Mul),
        TokenKindView::SlashAssign => Some(BinOp::Div),
        _ => None,
    }
}

/// The prefix operator that a token of `kind` stands for, if it is one
/// other than `&`.
pub open spec fn prefix_operator(kind: TokenKindView) -> Option<UnOp> {
    match kind {
        TokenKindView::Minus => Some(UnOp::Neg),
        TokenKindView::LogicalNot => Some(UnOp::LogicalNot),
        TokenKindView::BitwiseNot => Some(UnOp::BitwiseNot),
        TokenKindView::Star => Some(UnOp::Deref),
        _ => None,
    }
}

/// The diagnostic for a `break` or `continue` that no loop encloses, at the
/// keyword at `pos`.
pub open spec fn outside_loop(toks: Seq<Token>, pos: nat, message: Seq<char>) -> ParseErrorView {
    ParseErrorView { message, span: span_at(toks, pos), help: None }
}

/// An expression.
#[verifier::opaque]
pub open spec fn expression(toks: Seq<Token>, pos: nat, depth: nat, structs: bool) -> Step<
    ExprView,
>
    decreases remaining(toks, pos), 51int,
{
    assignment(toks, pos, depth, structs)
}

/// An assignment `target = value` or compound assignment `target += value`,
/// whose value is again an assignment, or an expression of the `||` tier.
#[verifier::opaque]
pub open spec fn assignment(toks: Seq<Token>, pos: nat, depth: nat, structs: bool) -> Step<
    ExprView,
>
    decreases remaining(toks, pos), 50int,
{
    let target = binary(toks, pos, depth, structs, 9);
    let p1 = pos + target.used;
    match target.result {
        Err(e) => failed(e, pos, p1),
        Ok(l) => if check(toks, p1, TokenKindView::Assign) {
            let value = assignment(toks, p1 + 1, depth, structs);
            let p2 = p1 + 1 + value.used;
            match value.result {
                Err(e) => failed(e, pos, p2),
                Ok(r) => done(
                    ExprView::Assign(
                        Box::new(l),
                        Box::new(r),
                        l.span().merged(last_span(toks, p2)),
                    ),
                    pos,
                    p2,
                ),
            }
        } else if !at_end(toks, p1) && compound_operator(kind_at(toks, p1)) is Some {
            let value = assignment(toks, p1 + 1, depth, structs);
            let p2 = p1 + 1 + value.used;
            match value.result {
                Err(e) => failed(e, pos, p2),
                Ok(r) => done(
                    ExprView::CompoundAssign(
                        compound_operator(kind_at(toks, p1))->Some_0,
                        Box::new(l),
                        Box::new(r),
                        l.span().merged(last_span(toks, p2)),
                    ),
                    pos,
                    p2,
                ),
            }
        } else {
            done(l, pos, p1)
        },
    }
}

/// An expression of a tier of binary operators: operands of the tier below,
/// joined by operators of this tier and grouped to the left.
#[verifier::opaque]
pub open spec fn binary(toks: Seq<Token>, pos: nat, depth: nat, structs: bool, tier: nat) -> Step<
    ExprView,
>
    decreases remaining(toks, pos), 4 * tier + 12,
{
    let first = operand(toks, pos, depth, structs, tier);
    let p1 = pos + first.used;
    match first.result {
        Err(e) => failed(e, pos, p1),
        Ok(l) => after(first.used, binary_rest(toks, p1, depth, structs, tier, l)),
    }
}

/// What follows the operand `left` in an expression of `tier`: while an
/// operator of the tier stands at the position, the operand after it is
/// joined to what was read before.
#[verifier::opaque]
pub open spec fn binary_rest(
    toks: Seq<Token>,
    pos: nat,
    depth: nat,
    structs: bool,
    tier: nat,
    left: ExprView,
) -> Step<ExprView>
    decreases remaining(toks, pos), 4 * tier + 11,
{
    if at_end(toks, pos) || operator(tier, kind_at(toks, pos)) is None {
        done(left, pos, pos)
    } else {
        let right = operand(toks, pos + 1, depth, structs, tier);
        let p1 = pos + 1 + right.used;
        match right.result {
            Err(e) => failed(e, pos, p1),
            Ok(r) => after(
                (p1 - pos) as nat,
                binary_rest(
                    toks,
                    p1,
                    depth,
                    structs,
                    tier,
                    ExprView::Binary(
                        operator(tier, kind_at(toks, pos))->Some_0,
                        Box::new(left),
                        Box::new(r),
                        left.span().merged(r.span()),
                    ),
                ),
            ),
        }
    }
}

/// An operand of `tier`: a cast for the multiplicative operators, a range
/// for the shifts, and an expression of the tier below for the others.
#[verifier::opaque]
pub open spec fn operand(toks: Seq<Token>, pos: nat, depth: nat, structs: bool, tier: nat) -> Step<
    ExprView,
>
    decreases remaining(toks, pos), 4 * tier + 10,
{
    if tier == 0 {
        cast(toks, pos, depth, structs)
    } else if tier == 2 {
        range(toks, pos, depth, structs)
    } else {
        binary(toks, pos, depth, structs, (tier - 1) as nat)
    }
}

/// An additive expression, or a range `from..to` or `from..=to` of two of
/// them. `..` directly followed by `=` is read as `..=`.
#[verifier::opaque]
pub open spec fn range(toks: Seq<Token>, pos: nat, depth: nat, structs: bool) -> Step<ExprView>
    decreases remaining(toks, pos), 17int,
{
    let from = binary(toks, pos, depth, structs, 1);
    let p1 = pos + from.used;
    match from.result {
        Err(e) => failed(e, pos, p1),
        Ok(l) => if check(toks, p1, TokenKindView::DotDot) || check(
            toks,
            p1,
            TokenKindView::DotDotEqual,
        ) {
            let inclusive = check(toks, p1, TokenKindView::DotDotEqual) || check(
                toks,
                p1 + 1,
                TokenKindView::Assign,
            );
            let p2 = if check(toks, p1, TokenKindView::DotDotEqual) {
                p1 + 1
            } else {
                skip(toks, p1 + 1, TokenKindView::Assign)
            };
            let to = binary(toks, p2, depth, structs, 1);
            match to.result {
                Err(e) => failed(e, pos, p2 + to.used),
                Ok(r) => done(
                    ExprView::Range(Box::new(l), Box::new(r), inclusive, l.span().merged(r.span())),
                    pos,
                    p2 + to.used,
                ),
            }
        } else {
            done(l, pos, p1)
        },
    }
}

/// A unary expression, or a cast `value as Type` of one.
#[verifier::opaque]
pub open spec fn cast(toks: Seq<Token>, pos: nat, depth: nat, structs: bool) -> Step<ExprView>
    decreases remaining(toks, pos), 6int,
{
    let value = unary(toks, pos, depth, structs);
    let p1 = pos + value.used;
    match value.result {
        Err(e) => failed(e, pos, p1),
        Ok(x) => if check(toks, p1, TokenKindView::As) {
            let target = type_(toks, p1 + 1);
            let p2 = p1 + 1 + target.used;
            match target.result {
                Err(e) => failed(e, pos, p2),
                Ok(t) => done(
                    ExprView::Cast(Box::new(x), t, x.span().merged(last_span(toks, p2))),
                    pos,
                    p2,
                ),
            }
        } else {
            done(x, pos, p1)
        },
    }
}

/// A postfix expression, or a prefix operator `-`, `!`, `~`, `*`, `&` or
/// `&mut` applied to a unary expression.
#[verifier::opaque]
pub open spec fn unary(toks: Seq<Token>, pos: nat, depth: nat, structs: bool) -> Step<ExprView>
    decreases remaining(toks, pos), 5int,
{
    if check(toks, pos, TokenKindView::BitwiseAnd) {
        let mutable = check(toks, pos + 1, TokenKindView::Mut);
        let p1 = skip(toks, pos + 1, TokenKindView::Mut);
        let inner = unary(toks, p1, depth, structs);
        let p2 = p1 + inner.used;
        match inner.result {
            Err(e) => failed(e, pos, p2),
            Ok(x) => done(
                ExprView::Unary(
                    if mutable {
                        UnOp::RefMut
                    } else {
                        UnOp::Ref
                    },
                    Box::new(x),
                    span_at(toks, pos).merged(last_span(toks, p2)),
                ),
                pos,
                p2,
            ),
        }
    } else if !at_end(toks, pos) && prefix_operator(kind_at(toks, pos)) is Some {
        let inner = unary(toks, pos + 1, depth, structs);
        let p2 = pos + 1 + inner.used;
        match inner.result {
            Err(e) => failed(e, pos, p2),
            Ok(x) => done(
                ExprView::Unary(
                    prefix_operator(kind_at(toks, pos))->Some_0,
                    Box::new(x),
                    span_at(toks, pos).merged(last_span(toks, p2)),
                ),
                pos,
                p2,
            ),
        }
    } else {
        postfix(toks, pos, depth, structs)
    }
}

/// A primary expression with the calls, method calls, field accesses and
/// index accesses that follow it.
#[verifier::opaque]
pub open spec fn postfix(toks: Seq<Token>, pos: nat, depth: nat, structs: bool) -> Step<ExprView>
    decreases remaining(toks, pos), 4int,
{
    let base = primary(toks, pos, depth, structs);
    let p1 = pos + base.used;
    match base.result {
        Err(e) => failed(e, pos, p1),
        Ok(x) => after(base.used, postfix_rest(toks, p1, depth, x)),
    }
}

/// What follows the expression `base`: `(arguments)` calls it,
/// `.name(arguments)` calls a method of it, `.name` reads a field of it and
/// `[index]` an element; each applies to all that was read before it.
#[verifier::opaque]
pub open spec fn postfix_rest(toks: Seq<Token>, pos: nat, depth: nat, base: ExprView) -> Step<
    ExprView,
>
    decreases remaining(toks, pos), 3int,
{
    if check(toks, pos, TokenKindView::LeftParen) {
        let args = arguments(toks, pos + 1, depth, Seq::empty());
        let p1 = pos + 1 + args.used;
        match args.result {
            Err(e) => failed(e, pos, p1),
            Ok(all) => if check(toks, p1, TokenKindView::RightParen) {
                after(
                    (p1 + 1 - pos) as nat,
                    postfix_rest(
                        toks,
                        p1 + 1,
                        depth,
                        ExprView::Call(Box::new(base), all, base.span().merged(span_at(toks, p1))),
                    ),
                )
            } else {
                failed(unexpected(toks, p1, "Expected ')' after arguments"@), pos, p1)
            },
        }
    } else if check(toks, pos, TokenKindView::Dot) {
        match kind_at(toks, pos + 1) {
            TokenKindView::Ident(name) => if check(toks, pos + 2, TokenKindView::LeftParen) {
                let args = arguments(toks, pos + 3, depth, Seq::empty());
                let p1 = pos + 3 + args.used;
                match args.result {
                    Err(e) => failed(e, pos, p1),
                    Ok(all) => if check(toks, p1, TokenKindView::RightParen) {
                        after(
                            (p1 + 1 - pos) as nat,
                            postfix_rest(
                                toks,
                                p1 + 1,
                                depth,
                                ExprView::MethodCall(
                                    Box::new(base),
                                    name,
                                    all,
                                    base.span().merged(span_at(toks, p1)),
                                ),
                            ),
                        )
                    } else {
                        failed(
                            unexpected(toks, p1, "Expected ')' after method arguments"@),
                            pos,
                            p1,
                        )
                    },
                }
            } else {
                after(
                    2,
                    postfix_rest(
                        toks,
                        pos + 2,
                        depth,
                        ExprView::FieldAccess(
                            Box::new(base),
                            name,
                            base.span().merged(span_at(toks, pos + 1)),
                        ),
                    ),
                )
            },
            _ => failed(
                plain_error(toks, pos + 1, "Expected identifier after '.'"@),
                pos,
                pos + 1,
            ),
        }
    } else if check(toks, pos, TokenKindView::LeftBracket) {
        let index = expression(toks, pos + 1, depth, true);
        let p1 = pos + 1 + index.used;
        match index.result {
            Err(e) => failed(e, pos, p1),
            Ok(i) => if check(toks, p1, TokenKindView::RightBracket) {
                after(
                    (p1 + 1 - pos) as nat,
                    postfix_rest(
                        toks,
                        p1 + 1,
                        depth,
                        ExprView::IndexAccess(
                            Box::new(base),
                            Box::new(i),
                            base.span().merged(span_at(toks, p1)),
                        ),
                    ),
                )
            } else {
                failed(unexpected(toks, p1, "Expected ']' after index"@), pos, p1)
            },
        }
    } else {
        done(base, pos, pos)
    }
}

/// Expressions separated by commas, up to a `)` or the end of the input; a
/// comma may follow the last one. `found` holds the expressions read so
/// far.
#[verifier::opaque]
pub open spec fn arguments(toks: Seq<Token>, pos: nat, depth: nat, found: Seq<ExprView>) -> Step<
    Seq<ExprView>,
>
    decreases remaining(toks, pos), 53int,
{
    if check(toks, pos, TokenKindView::RightParen) || at_end(toks, pos) {
        done(found, pos, pos)
    } else {
        let item = expression(toks, pos, depth, true);
        let p1 = pos + item.used;
        match item.result {
            Err(e) => failed(e, pos, p1),
            Ok(x) => if check(toks, p1, TokenKindView::Comma) {
                after((p1 + 1 - pos) as nat, arguments(toks, p1 + 1, depth, found.push(x)))
            } else {
                done(found.push(x), pos, p1)
            },
        }
    }
}

/// A primary expression: a literal, a name, a struct literal, a
/// parenthesized expression, a tuple, an array literal, a block, a closure,
/// or one of `if`, `while`, `for`, `match`, `break`, `continue`, `return`.
#[verifier::opaque]
pub open spec fn primary(toks: Seq<Token>, pos: nat, depth: nat, structs: bool) -> Step<ExprView>
    decreases remaining(toks, pos), 2int,
{
    let start = span_at(toks, pos);
    match kind_at(toks, pos) {
        TokenKindView::IntLiteral(n) => done(
            ExprView::Literal(LiteralView::Int(n as i64), start),
            pos,
            pos + 1,
        ),
        TokenKindView::BoolLiteral(b) => done(
            ExprView::Literal(LiteralView::Bool(b), start),
            pos,
            pos + 1,
        ),
        TokenKindView::CharLiteral(c) => done(
            ExprView::Literal(LiteralView::Char(c), start),
            pos,
            pos + 1,
        ),
        TokenKindView::StringLiteral(s) => done(
            ExprView::Literal(LiteralView::String(s), start),
            pos,
            pos + 1,
        ),
        TokenKindView::Ident(name) => if structs && check(toks, pos + 1, TokenKindView::LeftBrace) {
            struct_literal(toks, pos, depth)
        } else {
            done(ExprView::Ident(name, start), pos, pos + 1)
        },
        TokenKindView::LeftParen => parenthesized(toks, pos, depth, structs),
        TokenKindView::LeftBracket => array_literal(toks, pos, depth),
        TokenKindView::LeftBrace => {
            let body = block(toks, pos, depth);
            match body.result {
                Err(e) => failed(e, pos, pos + body.used),
                Ok(b) => done(ExprView::Block(b, b.span), pos, pos + body.used),
            }
        },
        TokenKindView::If => if_expression(toks, pos, depth),
        TokenKindView::While => while_expression(toks, pos, depth),
        TokenKindView::For => for_expression(toks, pos, depth),
        TokenKindView::Match => match_expression(toks, pos, depth),
        TokenKindView::Break => break_expression(toks, pos, depth, structs),
        TokenKindView::Continue => continue_expression(toks, pos, depth),
        TokenKindView::Return => return_expression(toks, pos, depth, structs),
        TokenKindView::BitwiseOr => closure(toks, pos, depth, structs),
        TokenKindView::LogicalOr => after(
            1,
            closure_tail(toks, pos + 1, depth, structs, start, Seq::empty()),
        ),
        _ => failed(unexpected_in_expression(toks, pos), pos, pos),
    }
}

/// A struct literal `Name { field: value, field, ... }`, at its name.
#[verifier::opaque]
pub open spec fn struct_literal(toks: Seq<Token>, pos: nat, depth: nat) -> Step<ExprView>
    decreases remaining(toks, pos), 1int,
{
    match kind_at(toks, pos) {
        TokenKindView::Ident(name) => if check(toks, pos + 1, TokenKindView::LeftBrace) {
            let fields = field_values(toks, pos + 2, depth, Seq::empty());
            let p1 = pos + 2 + fields.used;
            match fields.result {
                Err(e) => failed(e, pos, p1),
                Ok(all) => if check(toks, p1, TokenKindView::RightBrace) {
                    done(
                        ExprView::StructLit(
                            name,
                            all,
                            span_at(toks, pos).merged(span_at(toks, p1)),
                        ),
                        pos,
                        p1 + 1,
                    )
                } else {
                    failed(unexpected(toks, p1, "Expected '}' after struct fields"@), pos, p1)
                },
            }
        } else {
            failed(unexpected(toks, pos + 1, "Expected '{'"@), pos, pos + 1)
        },
        _ => failed(unexpected(toks, pos, "Expected struct name"@), pos, pos),
    }
}

/// The fields of a struct literal, separated by commas, up to a `}` or the
/// end of the input. A field is `name: value`, or a bare `name`, which
/// stands for `name: name`. `found` holds the fields read so far.
#[verifier::opaque]
pub open spec fn field_values(
    toks: Seq<Token>,
    pos: nat,
    depth: nat,
    found: Seq<(Seq<char>, ExprView)>,
) -> Step<Seq<(Seq<char>, ExprView)>>
    decreases remaining(toks, pos), 53int,
{
    if check(toks, pos, TokenKindView::RightBrace) || at_end(toks, pos) {
        done(found, pos, pos)
    } else {
        match kind_at(toks, pos) {
            TokenKindView::Ident(name) => {
                let value = if check(toks, pos + 1, TokenKindView::Colon) {
                    after(2, expression(toks, pos + 2, depth, true))
                } else {
                    done(ExprView::Ident(name, span_at(toks, pos)), pos, pos + 1)
                };
                let p1 = pos + value.used;
                match value.result {
                    Err(e) => failed(e, pos, p1),
                    Ok(x) => if check(toks, p1, TokenKindView::Comma) {
                        after(
                            (p1 + 1 - pos) as nat,
                            field_values(toks, p1 + 1, depth, found.push((name, x))),
                        )
                    } else {
                        done(found.push((name, x)), pos, p1)
                    },
                }
            },
            _ => failed(unexpected(toks, pos, "Expected field name"@), pos, pos),
        }
    }
}

/// What a `(` begins: `()`, the empty tuple; a closure, when `|` or a name
/// and a `:` follow; a tuple, when a comma follows the first expression;
/// else that expression itself.
#[verifier::opaque]
pub open spec fn parenthesized(toks: Seq<Token>, pos: nat, depth: nat, structs: bool) -> Step<
    ExprView,
>
    decreases remaining(toks, pos), 1int,
{
    let start = span_at(toks, pos);
    if !(kind_at(toks, pos) is LeftParen) {
        failed(unexpected(toks, pos, "Expected '('"@), pos, pos)
    } else if check(toks, pos + 1, TokenKindView::RightParen) {
        done(
            ExprView::TupleLit(Seq::empty(), start.merged(span_at(toks, pos + 1))),
            pos,
            pos + 2,
        )
    } else if check(toks, pos + 1, TokenKindView::BitwiseOr) || (kind_at(toks, pos + 1) is Ident
        && kind_at(toks, pos + 2) is Colon) {
        after(1, closure_from_paren(toks, pos + 1, depth, structs, start))
    } else {
        let first = expression(toks, pos + 1, depth, true);
        let p1 = pos + 1 + first.used;
        match first.result {
            Err(e) => failed(e, pos, p1),
            Ok(x) => if check(toks, p1, TokenKindView::Comma) {
                let rest = arguments(toks, p1 + 1, depth, seq![x]);
                let p2 = p1 + 1 + rest.used;
                match rest.result {
                    Err(e) => failed(e, pos, p2),
                    Ok(all) => if check(toks, p2, TokenKindView::RightParen) {
                        done(
                            ExprView::TupleLit(all, start.merged(span_at(toks, p2))),
                            pos,
                            p2 + 1,
                        )
                    } else {
                        failed(unexpected(toks, p2, "Expected ')' after tuple"@), pos, p2)
                    },
                }
            } else if check(toks, p1, TokenKindView::RightParen) {
                done(x, pos, p1 + 1)
            } else {
                failed(unexpected(toks, p1, "Expected ')' after expression"@), pos, p1)
            },
        }
    }
}

/// The number of copies that an integer literal asks for in an array
/// literal `[value; count]`, if it gives one: the literal must not be
/// negative.
pub open spec fn literal_count(kind: TokenKindView) -> Option<nat> {
    match kind {
        TokenKindView::IntLiteral(n) => if n >= 0 {
            Some(n as nat)
        } else {
            None
        },
        _ => None,
    }
}

/// An array literal `[value, ...]` or `[value; count]`, at its `[`.
#[verifier::opaque]
pub open spec fn array_literal(toks: Seq<Token>, pos: nat, depth: nat) -> Step<ExprView>
    decreases remaining(toks, pos), 1int,
{
    if !(kind_at(toks, pos) is LeftBracket) {
        failed(unexpected(toks, pos, "Expected '['"@), pos, pos)
    } else {
        let elements = array_elements(toks, pos + 1, depth, Seq::empty());
        let p1 = pos + 1 + elements.used;
        match elements.result {
            Err(e) => failed(e, pos, p1),
            Ok(all) => if check(toks, p1, TokenKindView::RightBracket) {
                done(
                    ExprView::ArrayLit(all, span_at(toks, pos).merged(span_at(toks, p1))),
                    pos,
                    p1 + 1,
                )
            } else {
                failed(unexpected(toks, p1, "Expected ']' after array elements"@), pos, p1)
            },
        }
    }
}

/// The elements of an array literal, separated by commas, up to a `]` or
/// the end of the input. After an element, `; count` ends the list and
/// makes it `count` copies of the first element read. `found` holds the
/// elements read so far.
#[verifier::opaque]
pub open spec fn array_elements(
    toks: Seq<Token>,
    pos: nat,
    depth: nat,
    found: Seq<ExprView>,
) -> Step<
    Seq<ExprView>,
>
    decreases remaining(toks, pos), 53int,
{
    if check(toks, pos, TokenKindView::RightBracket) || at_end(toks, pos) {
        done(found, pos, pos)
    } else {
        let item = expression(toks, pos, depth, true);
        let p1 = pos + item.used;
        match item.result {
            Err(e) => failed(e, pos, p1),
            Ok(x) => if check(toks, p1, TokenKindView::Semicolon) {
                match literal_count(kind_at(toks, p1 + 1)) {
                    Some(count) => done(
                        Seq::new(count, |i: int| found.push(x)[0]),
                        pos,
                        p1 + 2,
                    ),
                    None => failed(
                        plain_error(toks, p1 + 1, "Expected integer after ';' in array literal"@),
                        pos,
                        p1 + 1,
                    ),
                }
            } else if check(toks, p1, TokenKindView::Comma) {
                after((p1 + 1 - pos) as nat, array_elements(toks, p1 + 1, depth, found.push(x)))
            } else {
                done(found.push(x), pos, p1)
            },
        }
    }
}

/// An `if` expression, at its `if`. In an expression, `else` must be
/// followed by a block.
#[verifier::opaque]
pub open spec fn if_expression(toks: Seq<Token>, pos: nat, depth: nat) -> Step<ExprView>
    decreases remaining(toks, pos), 1int,
{
    if !(kind_at(toks, pos) is If) {
        failed(unexpected(toks, pos, "Expected 'if'"@), pos, pos)
    } else {
        let cond = expression(toks, pos + 1, depth, false);
        let p1 = pos + 1 + cond.used;
        match cond.result {
            Err(e) => failed(e, pos, p1),
            Ok(c) => {
                let then = block(toks, p1, depth);
                let p2 = p1 + then.used;
                match then.result {
                    Err(e) => failed(e, pos, p2),
                    Ok(t) => {
                        let other = optional(
                            check(toks, p2, TokenKindView::Else),
                            1,
                            block(toks, p2 + 1, depth),
                        );
                        let p3 = p2 + other.used;
                        match other.result {
                            Err(e) => failed(e, pos, p3),
                            Ok(o) => done(
                                ExprView::If(
                                    Box::new(c),
                                    t,
                                    o,
                                    span_at(toks, pos).merged(last_span(toks, p3)),
                                ),
                                pos,
                                p3,
                            ),
                        }
                    },
                }
            },
        }
    }
}

/// A `while` expression, at its `while`. Its body lies one loop deeper.
#[verifier::opaque]
pub open spec fn while_expression(toks: Seq<Token>, pos: nat, depth: nat) -> Step<ExprView>
    decreases remaining(toks, pos), 1int,
{
    if !(kind_at(toks, pos) is While) {
        failed(unexpected(toks, pos, "Expected 'while'"@), pos, pos)
    } else {
        let cond = expression(toks, pos + 1, depth, false);
        let p1 = pos + 1 + cond.used;
        match cond.result {
            Err(e) => failed(e, pos, p1),
            Ok(c) => {
                let body = block(toks, p1, depth + 1);
                let p2 = p1 + body.used;
                match body.result {
                    Err(e) => failed(e, pos, p2),
                    Ok(b) => done(
                        ExprView::While(
                            Box::new(c),
                            b,
                            span_at(toks, pos).merged(last_span(toks, p2)),
                        ),
                        pos,
                        p2,
                    ),
                }
            },
        }
    }
}

/// A `for` expression, at its `for`. Its body lies one loop deeper.
#[verifier::opaque]
pub open spec fn for_expression(toks: Seq<Token>, pos: nat, depth: nat) -> Step<ExprView>
    decreases remaining(toks, pos), 1int,
{
    if !(kind_at(toks, pos) is For) {
        failed(unexpected(toks, pos, "Expected 'for'"@), pos, pos)
    } else {
        let binding = pattern(toks, pos + 1);
        let p1 = pos + 1 + binding.used;
        match binding.result {
            Err(e) => failed(e, pos, p1),
            Ok(p) => if !check(toks, p1, TokenKindView::In) {
                failed(unexpected(toks, p1, "Expected 'in' in for loop"@), pos, p1)
            } else {
                let iterable = expression(toks, p1 + 1, depth, false);
                let p2 = p1 + 1 + iterable.used;
                match iterable.result {
                    Err(e) => failed(e, pos, p2),
                    Ok(i) => {
                        let body = block(toks, p2, depth + 1);
                        let p3 = p2 + body.used;
                        match body.result {
                            Err(e) => failed(e, pos, p3),
                            Ok(b) => done(
                                ExprView::For(
                                    p,
                                    Box::new(i),
                                    b,
                                    span_at(toks, pos).merged(last_span(toks, p3)),
                                ),
                                pos,
                                p3,
                            ),
                        }
                    },
                }
            },
        }
    }
}

/// A `match` expression, at its `match`.
#[verifier::opaque]
pub open spec fn match_expression(toks: Seq<Token>, pos: nat, depth: nat) -> Step<ExprView>
    decreases remaining(toks, pos), 1int,
{
    if !(kind_at(toks, pos) is Match) {
        failed(unexpected(toks, pos, "Expected 'match'"@), pos, pos)
    } else {
        let scrutinee = expression(toks, pos + 1, depth, false);
        let p1 = pos + 1 + scrutinee.used;
        match scrutinee.result {
            Err(e) => failed(e, pos, p1),
            Ok(s) => if !check(toks, p1, TokenKindView::LeftBrace) {
                failed(unexpected(toks, p1, "Expected '{' after match expression"@), pos, p1)
            } else {
                let arms = match_arms(toks, p1 + 1, depth, false, Seq::empty());
                let p2 = p1 + 1 + arms.used;
                match arms.result {
                    Err(e) => failed(e, pos, p2),
                    Ok(all) => if check(toks, p2, TokenKindView::RightBrace) {
                        done(
                            ExprView::Match(
                                Box::new(s),
                                all,
                                span_at(toks, pos).merged(span_at(toks, p2)),
                            ),
                            pos,
                            p2 + 1,
                        )
                    } else {
                        failed(unexpected(toks, p2, "Expected '}' after match arms"@), pos, p2)
                    },
                }
            },
        }
    }
}

/// The body of a match arm. In a `match` statement, a body that begins with
/// `{` is that block and nothing more; elsewhere it is an expression.
#[verifier::opaque]
pub open spec fn arm_body(toks: Seq<Token>, pos: nat, depth: nat, in_statement: bool) -> Step<
    ExprView,
>
    decreases remaining(toks, pos), 52int,
{
    if in_statement && check(toks, pos, TokenKindView::LeftBrace) {
        let body = block(toks, pos, depth);
        match body.result {
            Err(e) => failed(e, pos, pos + body.used),
            Ok(b) => done(ExprView::Block(b, b.span), pos, pos + body.used),
        }
    } else {
        expression(toks, pos, depth, true)
    }
}

/// One arm of a `match`: `pattern => body`, or with a guard,
/// `pattern if condition => body`.
#[verifier::opaque]
pub open spec fn match_arm(toks: Seq<Token>, pos: nat, depth: nat, in_statement: bool) -> Step<
    MatchArmView,
>
    decreases remaining(toks, pos), 53int,
{
    let binding = pattern(toks, pos);
    let p1 = pos + binding.used;
    match binding.result {
        Err(e) => failed(e, pos, p1),
        Ok(p) => {
            let guard = optional(
                check(toks, p1, TokenKindView::If),
                1,
                expression(toks, p1 + 1, depth, true),
            );
            let p2 = p1 + guard.used;
            match guard.result {
                Err(e) => failed(e, pos, p2),
                Ok(g) => if !check(toks, p2, TokenKindView::FatArrow) {
                    failed(
                        unexpected(
                            toks,
                            p2,
                            if in_statement {
                                "Expected '=>' after match pattern"@
                            } else {
                                "Expected '=>' in match arm"@
                            },
                        ),
                        pos,
                        p2,
                    )
                } else {
                    let body = arm_body(toks, p2 + 1, depth, in_statement);
                    let p3 = p2 + 1 + body.used;
                    match body.result {
                        Err(e) => failed(e, pos, p3),
                        Ok(b) => done(
                            MatchArmView {
                                pattern: p,
                                guard: g,
                                body: b,
                                span: span_at(toks, pos).merged(last_span(toks, p3)),
                            },
                            pos,
                            p3,
                        ),
                    }
                },
            }
        },
    }
}

/// The arms of a `match`, separated by commas, up to a `}` or the end of
/// the input; a comma may follow the last one. `found` holds the arms read
/// so far.
#[verifier::opaque]
pub open spec fn match_arms(
    toks: Seq<Token>,
    pos: nat,
    depth: nat,
    in_statement: bool,
    found: Seq<MatchArmView>,
) -> Step<Seq<MatchArmView>>
    decreases remaining(toks, pos), 54int,
{
    if check(toks, pos, TokenKindView::RightBrace) || at_end(toks, pos) {
        done(found, pos, pos)
    } else {
        let arm = match_arm(toks, pos, depth, in_statement);
        let p1 = pos + arm.used;
        match arm.result {
            Err(e) => failed(e, pos, p1),
            Ok(a) => if check(toks, p1, TokenKindView::Comma) {
                after(
                    (p1 + 1 - pos) as nat,
                    match_arms(toks, p1 + 1, depth, in_statement, found.push(a)),
                )
            } else {
                done(found.push(a), pos, p1)
            },
        }
    }
}

/// The label that may follow `break` or `continue`: any name.
pub open spec fn label_at(toks: Seq<Token>, pos: nat) -> Option<Seq<char>> {
    match kind_at(toks, pos) {
        TokenKindView::Ident(name) => Some(name),
        _ => None,
    }
}

/// The position after the label that may stand at `pos`.
pub open spec fn after_label(toks: Seq<Token>, pos: nat) -> nat {
    if label_at(toks, pos) is Some {
        pos + 1
    } else {
        pos
    }
}

/// A `break` expression, at its `break`: an error unless a loop encloses
/// it; else `break`, an optional label, and a value unless `;`, `}` or `,`
/// follows.
#[verifier::opaque]
pub open spec fn break_expression(toks: Seq<Token>, pos: nat, depth: nat, structs: bool) -> Step<
    ExprView,
>
    decreases remaining(toks, pos), 1int,
{
    if !(kind_at(toks, pos) is Break) {
        failed(unexpected(toks, pos, "Expected 'break'"@), pos, pos)
    } else if depth == 0 {
        failed(outside_loop(toks, pos, "break outside of loop"@), pos, pos + 1)
    } else {
        let label = label_at(toks, pos + 1);
        let p1 = after_label(toks, pos + 1);
        let value = optional(
            !check(toks, p1, TokenKindView::Semicolon) && !check(
                toks,
                p1,
                TokenKindView::RightBrace,
            ) && !check(toks, p1, TokenKindView::Comma),
            0,
            expression(toks, p1, depth, structs),
        );
        let p2 = p1 + value.used;
        match value.result {
            Err(e) => failed(e, pos, p2),
            Ok(v) => done(
                ExprView::Break(
                    label,
                    match v {
                        Some(x) => Some(Box::new(x)),
                        None => None,
                    },
                    span_at(toks, pos).merged(last_span(toks, p2)),
                ),
                pos,
                p2,
            ),
        }
    }
}

/// A `continue` expression, at its `continue`: an error unless a loop
/// encloses it; else `continue` and an optional label.
#[verifier::opaque]
pub open spec fn continue_expression(toks: Seq<Token>, pos: nat, depth: nat) -> Step<ExprView>
    decreases remaining(toks, pos), 1int,
{
    if !(kind_at(toks, pos) is Continue) {
        failed(unexpected(toks, pos, "Expected 'continue'"@), pos, pos)
    } else if depth == 0 {
        failed(outside_loop(toks, pos, "continue outside of loop"@), pos, pos + 1)
    } else {
        let p1 = after_label(toks, pos + 1);
        done(
            ExprView::Continue(
                label_at(toks, pos + 1),
                span_at(toks, pos).merged(last_span(toks, p1)),
            ),
            pos,
            p1,
        )
    }
}

/// A `return` expression, at its `return`, with a value unless `;` or `}`
/// follows.
#[verifier::opaque]
pub open spec fn return_expression(toks: Seq<Token>, pos: nat, depth: nat, structs: bool) -> Step<
    ExprView,
>
    decreases remaining(toks, pos), 1int,
{
    if !(kind_at(toks, pos) is Return) {
        failed(unexpected(toks, pos, "Expected 'return'"@), pos, pos)
    } else {
        let value = optional(
            !check(toks, pos + 1, TokenKindView::Semicolon) && !check(
                toks,
                pos + 1,
                TokenKindView::RightBrace,
            ),
            0,
            expression(toks, pos + 1, depth, structs),
        );
        let p2 = pos + 1 + value.used;
        match value.result {
            Err(e) => failed(e, pos, p2),
            Ok(v) => done(
                ExprView::Return(
                    match v {
                        Some(x) => Some(Box::new(x)),
                        None => None,
                    },
                    span_at(toks, pos).merged(last_span(toks, p2)),
                ),
                pos,
                p2,
            ),
        }
    }
}

/// A parameter of a function, or of a closure written with parentheses:
/// `pattern: Type`.
pub open spec fn parameter(toks: Seq<Token>, pos: nat) -> Step<ParameterView> {
    let binding = pattern(toks, pos);
    let p1 = pos + binding.used;
    match binding.result {
        Err(e) => failed(e, pos, p1),
        Ok(p) => if !check(toks, p1, TokenKindView::Colon) {
            failed(unexpected(toks, p1, "Expected ':' after parameter pattern"@), pos, p1)
        } else {
            let ty = type_(toks, p1 + 1);
            let p2 = p1 + 1 + ty.used;
            match ty.result {
                Err(e) => failed(e, pos, p2),
                Ok(t) => done(
                    ParameterView {
                        pattern: p,
                        ty: t,
                        span: span_at(toks, pos).merged(last_span(toks, p2)),
                    },
                    pos,
                    p2,
                ),
            }
        },
    }
}

/// Parameters separated by commas, up to a `)` or the end of the input; a
/// comma may follow the last one. `found` holds the parameters read so far.
#[verifier::opaque]
pub open spec fn parameters(toks: Seq<Token>, pos: nat, found: Seq<ParameterView>) -> Step<
    Seq<ParameterView>,
>
    decreases remaining(toks, pos),
{
    if check(toks, pos, TokenKindView::RightParen) || at_end(toks, pos) {
        done(found, pos, pos)
    } else {
        let item = parameter(toks, pos);
        let p1 = pos + item.used;
        match item.result {
            Err(e) => failed(e, pos, p1),
            Ok(x) => if check(toks, p1, TokenKindView::Comma) {
                after((p1 + 1 - pos) as nat, parameters(toks, p1 + 1, found.push(x)))
            } else {
                done(found.push(x), pos, p1)
            },
        }
    }
}

/// A parameter of a closure written between bars: a pattern without
/// alternatives, and `: Type` or else the type to infer.
pub open spec fn closure_parameter(toks: Seq<Token>, pos: nat) -> Step<ParameterView> {
    let binding = single_pattern(toks, pos);
    let p1 = pos + binding.used;
    match binding.result {
        Err(e) => failed(e, pos, p1),
        Ok(p) => if check(toks, p1, TokenKindView::Colon) {
            let ty = type_(toks, p1 + 1);
            let p2 = p1 + 1 + ty.used;
            match ty.result {
                Err(e) => failed(e, pos, p2),
                Ok(t) => done(
                    ParameterView {
                        pattern: p,
                        ty: t,
                        span: span_at(toks, pos).merged(last_span(toks, p2)),
                    },
                    pos,
                    p2,
                ),
            }
        } else {
            done(
                ParameterView {
                    pattern: p,
                    ty: TypeView::Infer,
                    span: span_at(toks, pos).merged(last_span(toks, p1)),
                },
                pos,
                p1,
            )
        },
    }
}

/// Closure parameters separated by commas, up to a `|` or the end of the
/// input; a comma may follow the last one. `found` holds the parameters
/// read so far.
#[verifier::opaque]
pub open spec fn closure_parameters(toks: Seq<Token>, pos: nat, found: Seq<ParameterView>) -> Step<
    Seq<ParameterView>,
>
    decreases remaining(toks, pos),
{
    if check(toks, pos, TokenKindView::BitwiseOr) || at_end(toks, pos) {
        done(found, pos, pos)
    } else {
        let item = closure_parameter(toks, pos);
        let p1 = pos + item.used;
        match item.result {
            Err(e) => failed(e, pos, p1),
            Ok(x) => if check(toks, p1, TokenKindView::Comma) {
                after((p1 + 1 - pos) as nat, closure_parameters(toks, p1 + 1, found.push(x)))
            } else {
                done(found.push(x), pos, p1)
            },
        }
    }
}

/// A closure `|parameters| body` or `|parameters| -> Type body`, at its
/// first `|`.
#[verifier::opaque]
pub open spec fn closure(toks: Seq<Token>, pos: nat, depth: nat, structs: bool) -> Step<ExprView>
    decreases remaining(toks, pos), 1int,
{
    if !check(toks, pos, TokenKindView::BitwiseOr) {
        failed(unexpected(toks, pos, "Expected '|' to start closure"@), pos, pos)
    } else {
        let params = closure_parameters(toks, pos + 1, Seq::empty());
        let p1 = pos + 1 + params.used;
        match params.result {
            Err(e) => failed(e, pos, p1),
            Ok(all) => if !check(toks, p1, TokenKindView::BitwiseOr) {
                failed(unexpected(toks, p1, "Expected '|' after closure parameters"@), pos, p1)
            } else {
                after(
                    (p1 + 1 - pos) as nat,
                    closure_tail(toks, p1 + 1, depth, structs, span_at(toks, pos), all),
                )
            },
        }
    }
}

/// A closure written with parentheses, `(parameters) body` or
/// `(parameters) -> Type body`, after its `(`; `start` is the span of the
/// `(`.
#[verifier::opaque]
pub open spec fn closure_from_paren(
    toks: Seq<Token>,
    pos: nat,
    depth: nat,
    structs: bool,
    start: Span,
) -> Step<ExprView>
    decreases remaining(toks, pos), 1int,
{
    let params = parameters(toks, pos, Seq::empty());
    let p1 = pos + params.used;
    match params.result {
        Err(e) => failed(e, pos, p1),
        Ok(all) => if !check(toks, p1, TokenKindView::RightParen) {
            failed(unexpected(toks, p1, "Expected ')' after closure parameters"@), pos, p1)
        } else {
            after((p1 + 1 - pos) as nat, closure_tail(toks, p1 + 1, depth, structs, start, all))
        },
    }
}

/// What follows the parameters of a closure: `-> Type`, if it is there, and
/// the body. `start` is the span of the token that opened the closure.
#[verifier::opaque]
pub open spec fn closure_tail(
    toks: Seq<Token>,
    pos: nat,
    depth: nat,
    structs: bool,
    start: Span,
    params: Seq<ParameterView>,
) -> Step<ExprView>
    decreases remaining(toks, pos), 52int,
{
    let ret = optional(check(toks, pos, TokenKindView::Arrow), 1, type_(toks, pos + 1));
    let p1 = pos + ret.used;
    match ret.result {
        Err(e) => failed(e, pos, p1),
        Ok(r) => {
            let body = expression(toks, p1, depth, structs);
            let p2 = p1 + body.used;
            match body.result {
                Err(e) => failed(e, pos, p2),
                Ok(b) => done(
                    ExprView::Closure(params, r, Box::new(b), start.merged(last_span(toks, p2))),
                    pos,
                    p2,
                ),
            }
        },
    }
}

} // verus!
