//! Laws of the grammar.

use vstd::prelude::*;
use crate::ast::BinOp;
use crate::ast::model::{
    BreakStmtView, ContinueStmtView, ExprView, LiteralView, StatementView,
};
use crate::grammar::{check, kind_at, span_at, Step};
use crate::grammar::expressions::{
    assignment, binary, cast, compound_operator, expression, operand, operator, prefix_operator,
    primary, range,
};
use crate::grammar::statements::{block, if_statement, statement, statements, while_statement};
use crate::grammar::unfold::{
    lemma_assignment, lemma_binary, lemma_binary_rest, lemma_break_expression,
    lemma_break_statement, lemma_cast, lemma_continue_expression, lemma_expression,
    lemma_operand, lemma_postfix, lemma_postfix_rest, lemma_primary, lemma_range,
    lemma_statement, lemma_unary,
};
use crate::grammar::unfold::{
    lemma_block, lemma_if_statement, lemma_statements, lemma_while_statement,
};
use crate::token::{Token, TokenKindView};

verus! {

/// Whether an expression that begins with a token of `kind` begins with a
/// primary expression: the token is no prefix operator.
pub open spec fn begins_primary(kind: TokenKindView) -> bool {
    !(kind is BitwiseAnd) && prefix_operator(kind) is None
}

/// Where the primary expression at a position cannot be read, no expression
/// of any tier of binary operators can be read there: each fails with the
/// error of the primary expression, after as many tokens.
pub proof fn lemma_binary_fails_with_primary(
    toks: Seq<Token>,
    pos: nat,
    depth: nat,
    structs: bool,
    tier: nat,
)
    requires
        begins_primary(kind_at(toks, pos)),
        primary(toks, pos, depth, structs).result is Err,
    ensures
        binary(toks, pos, depth, structs, tier) == primary(toks, pos, depth, structs),
        operand(toks, pos, depth, structs, tier) == primary(toks, pos, depth, structs),
    decreases tier,
{
    lemma_postfix(toks, pos, depth, structs);
    lemma_unary(toks, pos, depth, structs);
    lemma_cast(toks, pos, depth, structs);
    lemma_operand(toks, pos, depth, structs, tier);
    lemma_binary(toks, pos, depth, structs, tier);
    if tier == 0 {
    } else if tier == 2 {
        lemma_range(toks, pos, depth, structs);
        lemma_binary_fails_with_primary(toks, pos, depth, structs, 1);
    } else {
        lemma_binary_fails_with_primary(toks, pos, depth, structs, (tier - 1) as nat);
    }
}

/// Where the primary expression at a position cannot be read, no expression
/// can be read there: it fails with the error of the primary expression.
pub proof fn lemma_expression_fails_with_primary(
    toks: Seq<Token>,
    pos: nat,
    depth: nat,
    structs: bool,
)
    requires
        begins_primary(kind_at(toks, pos)),
        primary(toks, pos, depth, structs).result is Err,
    ensures
        expression(toks, pos, depth, structs) == primary(toks, pos, depth, structs),
{
    lemma_binary_fails_with_primary(toks, pos, depth, structs, 9);
    lemma_assignment(toks, pos, depth, structs);
    lemma_expression(toks, pos, depth, structs);
}

/// Outside every loop, `break` and `continue` cannot be read, neither as a
/// statement nor as an expression, whatever follows them.
pub proof fn lemma_no_jump_outside_loop(toks: Seq<Token>, pos: nat, structs: bool)
    requires
        kind_at(toks, pos) is Break || kind_at(toks, pos) is Continue,
    ensures
        statement(toks, pos, 0).result is Err,
        expression(toks, pos, 0, structs).result is Err,
{
    lemma_statement(toks, pos, 0);
    lemma_break_statement(toks, pos, 0);
    lemma_primary(toks, pos, 0, structs);
    lemma_break_expression(toks, pos, 0, structs);
    lemma_continue_expression(toks, pos, 0);
    lemma_expression_fails_with_primary(toks, pos, 0, structs);
}

/// Within a loop, at whatever depth, `break;` and `continue;` are
/// statements.
pub proof fn lemma_jump_within_loop(toks: Seq<Token>, pos: nat, depth: nat)
    requires
        depth > 0,
        kind_at(toks, pos) is Break || kind_at(toks, pos) is Continue,
        kind_at(toks, pos + 1) is Semicolon,
    ensures
        statement(toks, pos, depth).used == 2,
        kind_at(toks, pos) is Break ==> statement(toks, pos, depth).result == Ok::<
            StatementView,
            crate::grammar::ParseErrorView,
        >(
            StatementView::Break(
                BreakStmtView {
                    label: None,
                    expr: None,
                    span: span_at(toks, pos).merged(span_at(toks, pos + 1)),
                },
            ),
        ),
        kind_at(toks, pos) is Continue ==> statement(toks, pos, depth).result == Ok::<
            StatementView,
            crate::grammar::ParseErrorView,
        >(
            StatementView::Continue(
                ContinueStmtView {
                    label: None,
                    span: span_at(toks, pos).merged(span_at(toks, pos + 1)),
                },
            ),
        ),
{
    lemma_statement(toks, pos, depth);
    lemma_break_statement(toks, pos, depth);
}

/// A block does not open a loop: outside every loop, a block whose first
/// statement is `break` or `continue` cannot be read, neither as a block
/// nor as a statement.
pub proof fn lemma_no_jump_in_block(toks: Seq<Token>, pos: nat)
    requires
        check(toks, pos, TokenKindView::LeftBrace),
        kind_at(toks, pos + 1) is Break || kind_at(toks, pos + 1) is Continue,
    ensures
        block(toks, pos, 0).result is Err,
        statement(toks, pos, 0).result is Err,
{
    lemma_no_jump_outside_loop(toks, pos + 1, true);
    lemma_block(toks, pos, 0);
    lemma_statements(toks, pos + 1, 0, Seq::empty());
    lemma_statement(toks, pos, 0);
}

/// An `if` does not open a loop: outside every loop, an `if` statement
/// whose block begins with `break` or `continue` cannot be read.
pub proof fn lemma_no_jump_in_if(toks: Seq<Token>, pos: nat)
    requires
        check(toks, pos, TokenKindView::If),
        expression(toks, pos + 1, 0, false).result is Ok,
        ({
            let then = pos + 1 + expression(toks, pos + 1, 0, false).used;
            &&& check(toks, then, TokenKindView::LeftBrace)
            &&& kind_at(toks, then + 1) is Break || kind_at(toks, then + 1) is Continue
        }),
    ensures
        if_statement(toks, pos, 0).result is Err,
        statement(toks, pos, 0).result is Err,
{
    let then = pos + 1 + expression(toks, pos + 1, 0, false).used;
    lemma_no_jump_in_block(toks, then);
    lemma_if_statement(toks, pos, 0);
    lemma_statement(toks, pos, 0);
}

/// A `while` opens a loop: its body `{ break; }` or `{ continue; }` is
/// read at every depth, also outside every other loop.
pub proof fn lemma_jump_in_while(toks: Seq<Token>, pos: nat, depth: nat)
    requires
        check(toks, pos, TokenKindView::While),
        expression(toks, pos + 1, depth, false).result is Ok,
        ({
            let body = pos + 1 + expression(toks, pos + 1, depth, false).used;
            &&& check(toks, body, TokenKindView::LeftBrace)
            &&& kind_at(toks, body + 1) is Break || kind_at(toks, body + 1) is Continue
            &&& kind_at(toks, body + 2) is Semicolon
            &&& kind_at(toks, body + 3) is RightBrace
        }),
    ensures
        while_statement(toks, pos, depth).result is Ok,
        statement(toks, pos, depth).result is Ok,
{
    let body = pos + 1 + expression(toks, pos + 1, depth, false).used;
    lemma_jump_within_loop(toks, body + 1, depth + 1);
    let jump = statement(toks, body + 1, depth + 1).result->Ok_0;
    lemma_statements(toks, body + 1, depth + 1, Seq::empty());
    lemma_statements(toks, body + 3, depth + 1, Seq::<StatementView>::empty().push(jump));
    lemma_block(toks, body, depth + 1);
    lemma_while_statement(toks, pos, depth);
    lemma_statement(toks, pos, depth);
}

/// The tier of the binary operator that a token of `kind` is, if it is
/// one.
pub open spec fn tier_of(kind: TokenKindView) -> Option<nat> {
    match kind {
        TokenKindView::Star | TokenKindView::Slash | TokenKindView::Percent => Some(0),
        TokenKindView::Plus | TokenKindView::Minus => Some(1),
        TokenKindView::LeftShift | TokenKindView::RightShift => Some(2),
        TokenKindView::Less
        | TokenKindView::Greater
        | TokenKindView::LessEqual
        | TokenKindView::GreaterEqual => Some(3),
        TokenKindView::Equal | TokenKindView::NotEqual => Some(4),
        TokenKindView::BitwiseAnd => Some(5),
        TokenKindView::BitwiseXor => Some(6),
        TokenKindView::BitwiseOr => Some(7),
        TokenKindView::LogicalAnd => Some(8),
        TokenKindView::LogicalOr => Some(9),
        _ => None,
    }
}

/// A token is an operator of a tier just when that is its tier.
pub proof fn lemma_tier_of(kind: TokenKindView, tier: nat)
    ensures
        operator(tier, kind) is Some <==> tier_of(kind) == Some(tier),
        tier_of(kind) is Some ==> !(kind is Eof) && !(kind is DotDot) && !(kind is DotDotEqual)
            && !(kind is LeftParen) && !(kind is Dot) && !(kind is LeftBracket) && !(kind is As),
{
}

/// Whether a token of `kind` leaves an operand of `tier` complete: it
/// continues neither the operand itself, as a call, an access or a cast
/// would, nor, if it is a binary operator or begins a range, an expression
/// of a tier below `tier`.
pub open spec fn ends_operand(kind: TokenKindView, tier: nat) -> bool {
    &&& !(kind is LeftParen) && !(kind is Dot) && !(kind is LeftBracket) && !(kind is As)
    &&& tier >= 2 ==> !(kind is DotDot) && !(kind is DotDotEqual)
    &&& tier_of(kind) matches Some(t) ==> t >= tier
}

/// Whether a token of `kind` leaves an expression complete: it is no
/// operator of any kind, and begins no call, access, cast or range.
pub open spec fn ends_expression(kind: TokenKindView) -> bool {
    &&& ends_operand(kind, 2)
    &&& tier_of(kind) is None
    &&& !(kind is Assign)
    &&& compound_operator(kind) is None
}

/// The expression that an integer literal at `pos` is.
pub open spec fn literal_at(toks: Seq<Token>, pos: nat) -> ExprView {
    ExprView::Literal(LiteralView::Int(kind_at(toks, pos)->IntLiteral_0 as i64), span_at(toks, pos))
}

/// The expression that joins `left` and `right` with the operator `op`.
pub open spec fn joined(op: BinOp, left: ExprView, right: ExprView) -> ExprView {
    ExprView::Binary(op, Box::new(left), Box::new(right), left.span().merged(right.span()))
}

/// What an expression of one token yields.
pub open spec fn one_token(value: ExprView) -> Step<ExprView> {
    Step { result: Ok(value), used: 1 }
}

/// An integer literal is an operand of every tier that the token after it
/// leaves complete.
pub proof fn lemma_literal_operand(
    toks: Seq<Token>,
    pos: nat,
    depth: nat,
    structs: bool,
    tier: nat,
)
    requires
        kind_at(toks, pos) is IntLiteral,
        ends_operand(kind_at(toks, pos + 1), tier),
    ensures
        operand(toks, pos, depth, structs, tier) == one_token(literal_at(toks, pos)),
    decreases tier,
{
    let next = kind_at(toks, pos + 1);
    lemma_operand(toks, pos, depth, structs, tier);
    if tier == 0 {
        lemma_primary(toks, pos, depth, structs);
        lemma_postfix(toks, pos, depth, structs);
        lemma_postfix_rest(toks, pos + 1, depth, literal_at(toks, pos));
        lemma_unary(toks, pos, depth, structs);
        lemma_cast(toks, pos, depth, structs);
    } else {
        let below = if tier == 2 {
            1nat
        } else {
            (tier - 1) as nat
        };
        lemma_literal_operand(toks, pos, depth, structs, below);
        lemma_binary(toks, pos, depth, structs, below);
        lemma_binary_rest(toks, pos + 1, depth, structs, below, literal_at(toks, pos));
        lemma_tier_of(next, below);
        if tier == 2 {
            lemma_range(toks, pos, depth, structs);
        }
    }
}

/// An expression of a tier is an operand of the tier above, if the token
/// after it begins no range.
pub proof fn lemma_operand_of_next_tier(
    toks: Seq<Token>,
    pos: nat,
    depth: nat,
    structs: bool,
    tier: nat,
)
    requires
        binary(toks, pos, depth, structs, tier).result is Ok,
        ({
            let next = kind_at(toks, pos + binary(toks, pos, depth, structs, tier).used);
            tier == 1 ==> !(next is DotDot) && !(next is DotDotEqual)
        }),
    ensures
        operand(toks, pos, depth, structs, tier + 1) == binary(toks, pos, depth, structs, tier),
{
    lemma_operand(toks, pos, depth, structs, tier + 1);
    if tier == 1 {
        lemma_range(toks, pos, depth, structs);
    }
}

/// An operand of a tier is an expression of that tier, if the token after
/// it is no operator of the tier.
pub proof fn lemma_operand_alone(
    toks: Seq<Token>,
    pos: nat,
    depth: nat,
    structs: bool,
    tier: nat,
)
    requires
        operand(toks, pos, depth, structs, tier).result is Ok,
        tier_of(kind_at(toks, pos + operand(toks, pos, depth, structs, tier).used)) != Some(
            tier,
        ),
    ensures
        binary(toks, pos, depth, structs, tier) == operand(toks, pos, depth, structs, tier),
{
    let first = operand(toks, pos, depth, structs, tier);
    lemma_binary(toks, pos, depth, structs, tier);
    lemma_binary_rest(toks, pos + first.used, depth, structs, tier, first.result->Ok_0);
    lemma_tier_of(kind_at(toks, pos + first.used), tier);
}

/// An expression of a tier is an expression of every tier above, up to
/// `top`, if the token after it leaves it complete at those tiers.
pub proof fn lemma_lift(
    toks: Seq<Token>,
    pos: nat,
    depth: nat,
    structs: bool,
    tier: nat,
    top: nat,
)
    requires
        tier <= top,
        binary(toks, pos, depth, structs, tier).result is Ok,
        ({
            let next = kind_at(toks, pos + binary(toks, pos, depth, structs, tier).used);
            &&& tier < 2 <= top ==> !(next is DotDot) && !(next is DotDotEqual)
            &&& tier_of(next) matches Some(t) ==> t <= tier || t > top
        }),
    ensures
        binary(toks, pos, depth, structs, top) == binary(toks, pos, depth, structs, tier),
    decreases top - tier,
{
    if tier < top {
        lemma_operand_of_next_tier(toks, pos, depth, structs, tier);
        lemma_operand_alone(toks, pos, depth, structs, tier + 1);
        lemma_lift(toks, pos, depth, structs, tier + 1, top);
    }
}

/// An expression of the loosest tier is an expression, if the token after
/// it is no assignment operator.
pub proof fn lemma_whole(toks: Seq<Token>, pos: nat, depth: nat, structs: bool)
    requires
        binary(toks, pos, depth, structs, 9).result is Ok,
        ({
            let next = kind_at(toks, pos + binary(toks, pos, depth, structs, 9).used);
            !(next is Assign) && compound_operator(next) is None
        }),
    ensures
        expression(toks, pos, depth, structs) == binary(toks, pos, depth, structs, 9),
{
    lemma_expression(toks, pos, depth, structs);
    lemma_assignment(toks, pos, depth, structs);
}

/// Two integer literals with a binary operator between them are an
/// expression of the tier of the operator, if the token after them is no
/// operator of that tier or a tighter one.
pub proof fn lemma_pair(toks: Seq<Token>, pos: nat, depth: nat, structs: bool, tier: nat)
    requires
        kind_at(toks, pos) is IntLiteral,
        tier_of(kind_at(toks, pos + 1)) == Some(tier),
        kind_at(toks, pos + 2) is IntLiteral,
        ends_operand(kind_at(toks, pos + 3), tier),
        tier_of(kind_at(toks, pos + 3)) != Some(tier),
    ensures
        binary(toks, pos, depth, structs, tier) == (Step {
            result: Ok(
                joined(
                    operator(tier, kind_at(toks, pos + 1))->Some_0,
                    literal_at(toks, pos),
                    literal_at(toks, pos + 2),
                ),
            ),
            used: 3,
        }),
{
    let left = literal_at(toks, pos);
    let right = literal_at(toks, pos + 2);
    lemma_tier_of(kind_at(toks, pos + 1), tier);
    lemma_tier_of(kind_at(toks, pos + 3), tier);
    lemma_literal_operand(toks, pos, depth, structs, tier);
    lemma_literal_operand(toks, pos + 2, depth, structs, tier);
    lemma_binary(toks, pos, depth, structs, tier);
    lemma_binary_rest(toks, pos + 1, depth, structs, tier, left);
    lemma_binary_rest(
        toks,
        pos + 3,
        depth,
        structs,
        tier,
        joined(operator(tier, kind_at(toks, pos + 1))->Some_0, left, right),
    );
}

/// Precedence, the tighter operator first: in `a OP b OP2 c`, where `a`,
/// `b` and `c` are integer literals and `OP` binds tighter than `OP2`, the
/// operands of `OP2` are `a OP b` and `c`.
pub proof fn lemma_tighter_operator_first(
    toks: Seq<Token>,
    pos: nat,
    depth: nat,
    structs: bool,
    tight: nat,
    loose: nat,
)
    requires
        tight < loose,
        kind_at(toks, pos) is IntLiteral,
        tier_of(kind_at(toks, pos + 1)) == Some(tight),
        kind_at(toks, pos + 2) is IntLiteral,
        tier_of(kind_at(toks, pos + 3)) == Some(loose),
        kind_at(toks, pos + 4) is IntLiteral,
        ends_expression(kind_at(toks, pos + 5)),
    ensures
        expression(toks, pos, depth, structs) == (Step {
            result: Ok(
                joined(
                    operator(loose, kind_at(toks, pos + 3))->Some_0,
                    joined(
                        operator(tight, kind_at(toks, pos + 1))->Some_0,
                        literal_at(toks, pos),
                        literal_at(toks, pos + 2),
                    ),
                    literal_at(toks, pos + 4),
                ),
            ),
            used: 5,
        }),
{
    let second = kind_at(toks, pos + 3);
    let last = kind_at(toks, pos + 5);
    let inner = joined(
        operator(tight, kind_at(toks, pos + 1))->Some_0,
        literal_at(toks, pos),
        literal_at(toks, pos + 2),
    );
    let outer = joined(operator(loose, second)->Some_0, inner, literal_at(toks, pos + 4));
    lemma_tier_of(second, loose);
    lemma_tier_of(second, tight);
    lemma_tier_of(last, loose);
    lemma_pair(toks, pos, depth, structs, tight);
    lemma_lift(toks, pos, depth, structs, tight, (loose - 1) as nat);
    lemma_operand_of_next_tier(toks, pos, depth, structs, (loose - 1) as nat);
    lemma_literal_operand(toks, pos + 4, depth, structs, loose);
    lemma_binary(toks, pos, depth, structs, loose);
    lemma_binary_rest(toks, pos + 3, depth, structs, loose, inner);
    lemma_binary_rest(toks, pos + 5, depth, structs, loose, outer);
    lemma_lift(toks, pos, depth, structs, loose, 9);
    lemma_whole(toks, pos, depth, structs);
}

/// Precedence, the tighter operator last: in `a OP2 b OP c`, where `a`,
/// `b` and `c` are integer literals and `OP` binds tighter than `OP2`, the
/// operands of `OP2` are `a` and `b OP c`.
pub proof fn lemma_tighter_operator_last(
    toks: Seq<Token>,
    pos: nat,
    depth: nat,
    structs: bool,
    tight: nat,
    loose: nat,
)
    requires
        tight < loose,
        kind_at(toks, pos) is IntLiteral,
        tier_of(kind_at(toks, pos + 1)) == Some(loose),
        kind_at(toks, pos + 2) is IntLiteral,
        tier_of(kind_at(toks, pos + 3)) == Some(tight),
        kind_at(toks, pos + 4) is IntLiteral,
        ends_expression(kind_at(toks, pos + 5)),
    ensures
        expression(toks, pos, depth, structs) == (Step {
            result: Ok(
                joined(
                    operator(loose, kind_at(toks, pos + 1))->Some_0,
                    literal_at(toks, pos),
                    joined(
                        operator(tight, kind_at(toks, pos + 3))->Some_0,
                        literal_at(toks, pos + 2),
                        literal_at(toks, pos + 4),
                    ),
                ),
            ),
            used: 5,
        }),
{
    let first = kind_at(toks, pos + 1);
    let last = kind_at(toks, pos + 5);
    let inner = joined(
        operator(tight, kind_at(toks, pos + 3))->Some_0,
        literal_at(toks, pos + 2),
        literal_at(toks, pos + 4),
    );
    let outer = joined(operator(loose, first)->Some_0, literal_at(toks, pos), inner);
    lemma_tier_of(first, loose);
    lemma_tier_of(last, loose);
    lemma_tier_of(last, tight);
    lemma_literal_operand(toks, pos, depth, structs, loose);
    lemma_pair(toks, pos + 2, depth, structs, tight);
    lemma_lift(toks, pos + 2, depth, structs, tight, (loose - 1) as nat);
    lemma_operand_of_next_tier(toks, pos + 2, depth, structs, (loose - 1) as nat);
    lemma_binary(toks, pos, depth, structs, loose);
    lemma_binary_rest(toks, pos + 1, depth, structs, loose, literal_at(toks, pos));
    lemma_binary_rest(toks, pos + 5, depth, structs, loose, outer);
    lemma_lift(toks, pos, depth, structs, loose, 9);
    lemma_whole(toks, pos, depth, structs);
}

} // verus!
