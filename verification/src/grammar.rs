//! The grammar of the language, as functions from a token sequence and a
//! position to the outcome of a production at that position.
//!
//! A production either yields the model of a syntax-tree node or fails with
//! a diagnostic; in both cases it says how many tokens it consumed. Nothing
//! is ever read again: a position only moves forward, and it stops at the
//! first `Eof` token.

use vstd::prelude::*;
use crate::span::Span;
use crate::token::{Token, TokenKindView};

pub mod expressions;
pub mod items;
pub mod laws;
pub mod patterns;
pub mod statements;
pub mod types;
pub mod unfold;

verus! {

/// The model of a parse error: a message, the span it points at, and an
/// optional suggestion.
pub struct ParseErrorView {
    pub message: Seq<char>,
    pub span: Span,
    pub help: Option<Seq<char>>,
}

/// The outcome of a production: what it yields, and the number of tokens
/// that it consumed before it finished or failed.
pub struct Step<T> {
    pub result: Result<T, ParseErrorView>,
    pub used: nat,
}

/// A production that started at `from` and finished at `to` with `value`.
pub open spec fn done<T>(value: T, from: nat, to: nat) -> Step<T> {
    Step { result: Ok(value), used: (to - from) as nat }
}

/// A production that started at `from` and failed at `to` with `error`.
pub open spec fn failed<T>(error: ParseErrorView, from: nat, to: nat) -> Step<T> {
    Step { result: Err(error), used: (to - from) as nat }
}

/// The outcome `step` of a production that started `skipped` tokens after
/// the production that it completes.
pub open spec fn after<T>(skipped: nat, step: Step<T>) -> Step<T> {
    Step { result: step.result, used: skipped + step.used }
}

/// The outcome of an optional part: if it is `present`, that of `step`
/// after `skipped` tokens, with the value it yields; else nothing, and no
/// token consumed.
pub open spec fn optional<T>(present: bool, skipped: nat, step: Step<T>) -> Step<Option<T>> {
    if present {
        Step {
            result: match step.result {
                Ok(value) => Ok(Some(value)),
                Err(error) => Err(error),
            },
            used: skipped + step.used,
        }
    } else {
        Step { result: Ok(None), used: 0 }
    }
}

/// A token sequence that a parser accepts: it ends with `Eof`.
pub open spec fn well_formed(toks: Seq<Token>) -> bool {
    toks.len() > 0 && toks.last().kind@ is Eof
}

/// The kind of the token at `pos`; beyond the last token, `Eof`.
pub open spec fn kind_at(toks: Seq<Token>, pos: nat) -> TokenKindView {
    if pos < toks.len() {
        toks[pos as int].kind@
    } else {
        TokenKindView::Eof
    }
}

/// The span of the token at `pos`; beyond the last token, the empty span.
pub open spec fn span_at(toks: Seq<Token>, pos: nat) -> Span {
    if pos < toks.len() {
        toks[pos as int].span
    } else {
        Span { start: 0, end: 0, line: 0, column: 0 }
    }
}

/// Whether the input ends at `pos`.
pub open spec fn at_end(toks: Seq<Token>, pos: nat) -> bool {
    kind_at(toks, pos) is Eof
}

/// Whether the token at `pos` is of the same variant as `kind`. The end of
/// the input matches nothing.
pub open spec fn check(toks: Seq<Token>, pos: nat, kind: TokenKindView) -> bool {
    !at_end(toks, pos) && kind_at(toks, pos).index() == kind.index()
}

/// The number of tokens from `pos` to the end of the sequence.
pub open spec fn remaining(toks: Seq<Token>, pos: nat) -> nat {
    if pos < toks.len() {
        (toks.len() - pos) as nat
    } else {
        0
    }
}

/// The diagnostic for a token that a production cannot take: `message`,
/// then the kind of the token found.
#[verifier::opaque]
pub open spec fn unexpected(toks: Seq<Token>, pos: nat, message: Seq<char>) -> ParseErrorView {
    ParseErrorView {
        message: message + ", found "@ + kind_at(toks, pos).debug_text(),
        span: span_at(toks, pos),
        help: None,
    }
}

/// A diagnostic with the plain `message`, at the token at `pos`.
#[verifier::opaque]
pub open spec fn plain_error(toks: Seq<Token>, pos: nat, message: Seq<char>) -> ParseErrorView {
    ParseErrorView { message, span: span_at(toks, pos), help: None }
}

/// The diagnostic for a token with which no expression begins.
#[verifier::opaque]
pub open spec fn unexpected_in_expression(toks: Seq<Token>, pos: nat) -> ParseErrorView {
    ParseErrorView {
        message: "Unexpected token in expression: "@ + kind_at(toks, pos).debug_text(),
        span: span_at(toks, pos),
        help: None,
    }
}

/// The span of the token before `pos`: the last one that a production which
/// stands at `pos` has read.
pub open spec fn last_span(toks: Seq<Token>, pos: nat) -> Span {
    span_at(toks, (pos - 1) as nat)
}

/// Takes one token of the variant of `kind`, or fails with `message`.
pub open spec fn expect(
    toks: Seq<Token>,
    pos: nat,
    kind: TokenKindView,
    message: Seq<char>,
) -> Step<()> {
    if check(toks, pos, kind) {
        done((), pos, pos + 1)
    } else {
        failed(unexpected(toks, pos, message), pos, pos)
    }
}

/// Takes one identifier and yields its name, or fails with `message`.
pub open spec fn ident(toks: Seq<Token>, pos: nat, message: Seq<char>) -> Step<Seq<char>> {
    match kind_at(toks, pos) {
        TokenKindView::Ident(name) => done(name, pos, pos + 1),
        _ => failed(unexpected(toks, pos, message), pos, pos),
    }
}

/// The position after an optional token of the variant of `kind` at `pos`.
pub open spec fn skip(toks: Seq<Token>, pos: nat, kind: TokenKindView) -> nat {
    if check(toks, pos, kind) {
        pos + 1
    } else {
        pos
    }
}

} // verus!
