//! The grammar of patterns.

use vstd::prelude::*;
use crate::ast::model::{LiteralView, PatternView};
use crate::grammar::{
    after, at_end, check, done, failed, kind_at, remaining, unexpected, Step,
};
use crate::token::{Token, TokenKindView};

verus! {

/// A pattern: one alternative, or several separated by `|`, which make an
/// or-pattern.
#[verifier::opaque]
pub open spec fn pattern(toks: Seq<Token>, pos: nat) -> Step<PatternView>
    decreases remaining(toks, pos), 2int,
{
    let first = single_pattern(toks, pos);
    let p1 = pos + first.used;
    match first.result {
        Err(e) => failed(e, pos, p1),
        Ok(p) => if check(toks, p1, TokenKindView::BitwiseOr) {
            let rest = alternatives(toks, p1, seq![p]);
            match rest.result {
                Err(e) => failed(e, pos, p1 + rest.used),
                Ok(all) => done(PatternView::Or(all), pos, p1 + rest.used),
            }
        } else {
            done(p, pos, p1)
        },
    }
}

/// The further alternatives of an or-pattern, each after a `|`. `found`
/// holds the alternatives read so far.
#[verifier::opaque]
pub open spec fn alternatives(toks: Seq<Token>, pos: nat, found: Seq<PatternView>) -> Step<
    Seq<PatternView>,
>
    decreases remaining(toks, pos), 1int,
{
    if !check(toks, pos, TokenKindView::BitwiseOr) {
        done(found, pos, pos)
    } else {
        let item = single_pattern(toks, pos + 1);
        let p1 = pos + 1 + item.used;
        match item.result {
            Err(e) => failed(e, pos, p1),
            Ok(p) => after((p1 - pos) as nat, alternatives(toks, p1, found.push(p))),
        }
    }
}

/// A pattern without alternatives: `_`, an integer or boolean literal, a
/// name, a struct pattern `Name { field: pattern, field, ... }`, or a tuple
/// pattern `(pattern, ...)`.
#[verifier::opaque]
pub open spec fn single_pattern(toks: Seq<Token>, pos: nat) -> Step<PatternView>
    decreases remaining(toks, pos), 0int,
{
    match kind_at(toks, pos) {
        TokenKindView::Underscore => done(PatternView::Wildcard, pos, pos + 1),
        TokenKindView::IntLiteral(n) => done(
            PatternView::Literal(LiteralView::Int(n as i64)),
            pos,
            pos + 1,
        ),
        TokenKindView::BoolLiteral(b) => done(
            PatternView::Literal(LiteralView::Bool(b)),
            pos,
            pos + 1,
        ),
        TokenKindView::Ident(name) => if check(toks, pos + 1, TokenKindView::LeftBrace) {
            let fields = field_patterns(toks, pos + 2, Seq::empty());
            let p1 = pos + 2 + fields.used;
            match fields.result {
                Err(e) => failed(e, pos, p1),
                Ok(all) => if check(toks, p1, TokenKindView::RightBrace) {
                    done(PatternView::Struct(name, all), pos, p1 + 1)
                } else {
                    failed(
                        unexpected(toks, p1, "Expected '}' after struct pattern fields"@),
                        pos,
                        p1,
                    )
                },
            }
        } else {
            done(PatternView::Ident(name), pos, pos + 1)
        },
        TokenKindView::LeftParen => {
            let members = pattern_list(toks, pos + 1, Seq::empty());
            let p1 = pos + 1 + members.used;
            match members.result {
                Err(e) => failed(e, pos, p1),
                Ok(all) => if check(toks, p1, TokenKindView::RightParen) {
                    done(PatternView::Tuple(all), pos, p1 + 1)
                } else {
                    failed(unexpected(toks, p1, "Expected ')' after tuple pattern"@), pos, p1)
                },
            }
        },
        _ => failed(unexpected(toks, pos, "Expected pattern"@), pos, pos),
    }
}

/// Patterns separated by commas, up to a `)` or the end of the input; a
/// comma may follow the last one. `found` holds the patterns read so far.
#[verifier::opaque]
pub open spec fn pattern_list(toks: Seq<Token>, pos: nat, found: Seq<PatternView>) -> Step<
    Seq<PatternView>,
>
    decreases remaining(toks, pos), 3int,
{
    if check(toks, pos, TokenKindView::RightParen) || at_end(toks, pos) {
        done(found, pos, pos)
    } else {
        let item = pattern(toks, pos);
        let p1 = pos + item.used;
        match item.result {
            Err(e) => failed(e, pos, p1),
            Ok(p) => if check(toks, p1, TokenKindView::Comma) {
                after((p1 + 1 - pos) as nat, pattern_list(toks, p1 + 1, found.push(p)))
            } else {
                done(found.push(p), pos, p1)
            },
        }
    }
}

/// The fields of a struct pattern, separated by commas, up to a `}` or the
/// end of the input. A field is `name: pattern`, or a bare `name`, which
/// binds the field to a variable of its own name. `found` holds the fields
/// read so far.
#[verifier::opaque]
pub open spec fn field_patterns(
    toks: Seq<Token>,
    pos: nat,
    found: Seq<(Seq<char>, PatternView)>,
) -> Step<Seq<(Seq<char>, PatternView)>>
    decreases remaining(toks, pos), 3int,
{
    if check(toks, pos, TokenKindView::RightBrace) || at_end(toks, pos) {
        done(found, pos, pos)
    } else {
        match kind_at(toks, pos) {
            TokenKindView::Ident(name) => {
                let bound = if check(toks, pos + 1, TokenKindView::Colon) {
                    after(2, pattern(toks, pos + 2))
                } else {
                    done(PatternView::Ident(name), pos, pos + 1)
                };
                let p1 = pos + bound.used;
                match bound.result {
                    Err(e) => failed(e, pos, p1),
                    Ok(p) => if check(toks, p1, TokenKindView::Comma) {
                        after(
                            (p1 + 1 - pos) as nat,
                            field_patterns(toks, p1 + 1, found.push((name, p))),
                        )
                    } else {
                        done(found.push((name, p)), pos, p1)
                    },
                }
            },
            _ => failed(unexpected(toks, pos, "Expected field name in pattern"@), pos, pos),
        }
    }
}

} // verus!
