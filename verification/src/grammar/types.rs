//! The grammar of types.

use vstd::prelude::*;
use crate::ast::model::TypeView;
use crate::grammar::{
    after, at_end, check, done, failed, kind_at, plain_error, remaining, skip, unexpected, Step,
};
use crate::token::{Token, TokenKindView};

verus! {

/// A type.
///
/// A primitive keyword stands for itself; `!` is the never type and `_` the
/// type to infer. `[T; N]` is an array whose size is an integer literal and
/// `[T]` a slice; `*T` and `&T` are a pointer and a reference, mutable with
/// `mut`; `()` is the unit type and `(T, ...)` a tuple, unless `->` follows,
/// which makes it a function type, as `fn(T, ...) -> T` is; a name is a
/// named type, or with `<T, ...>` a generic one.
#[verifier::opaque]
pub open spec fn type_(toks: Seq<Token>, pos: nat) -> Step<TypeView>
    decreases remaining(toks, pos), 1int,
{
    match kind_at(toks, pos) {
        TokenKindView::I8 => done(TypeView::I8, pos, pos + 1),
        TokenKindView::I16 => done(TypeView::I16, pos, pos + 1),
        TokenKindView::I32 => done(TypeView::I32, pos, pos + 1),
        TokenKindView::I64 => done(TypeView::I64, pos, pos + 1),
        TokenKindView::U8 => done(TypeView::U8, pos, pos + 1),
        TokenKindView::U16 => done(TypeView::U16, pos, pos + 1),
        TokenKindView::U32 => done(TypeView::U32, pos, pos + 1),
        TokenKindView::U64 => done(TypeView::U64, pos, pos + 1),
        TokenKindView::Usize => done(TypeView::Usize, pos, pos + 1),
        TokenKindView::Isize => done(TypeView::Isize, pos, pos + 1),
        TokenKindView::F32 => done(TypeView::F32, pos, pos + 1),
        TokenKindView::F64 => done(TypeView::F64, pos, pos + 1),
        TokenKindView::Bool => done(TypeView::Bool, pos, pos + 1),
        TokenKindView::Char => done(TypeView::Char, pos, pos + 1),
        TokenKindView::String => done(TypeView::String, pos, pos + 1),
        TokenKindView::LogicalNot => done(TypeView::Never, pos, pos + 1),
        TokenKindView::Underscore => done(TypeView::Infer, pos, pos + 1),
        TokenKindView::Fn => function_type(toks, pos),
        TokenKindView::LeftBracket => array_or_slice_type(toks, pos),
        TokenKindView::Star => {
            let mutable = check(toks, pos + 1, TokenKindView::Mut);
            let p1 = skip(toks, pos + 1, TokenKindView::Mut);
            let inner = type_(toks, p1);
            match inner.result {
                Err(e) => failed(e, pos, p1 + inner.used),
                Ok(t) => done(TypeView::Pointer(Box::new(t), mutable), pos, p1 + inner.used),
            }
        },
        TokenKindView::BitwiseAnd => {
            let mutable = check(toks, pos + 1, TokenKindView::Mut);
            let p1 = skip(toks, pos + 1, TokenKindView::Mut);
            let inner = type_(toks, p1);
            match inner.result {
                Err(e) => failed(e, pos, p1 + inner.used),
                Ok(t) => done(TypeView::Reference(Box::new(t), mutable), pos, p1 + inner.used),
            }
        },
        TokenKindView::LeftParen => parenthesized_type(toks, pos),
        TokenKindView::Ident(name) => {
            if check(toks, pos + 1, TokenKindView::Less) {
                let first = type_(toks, pos + 2);
                let p1 = pos + 2 + first.used;
                match first.result {
                    Err(e) => failed(e, pos, p1),
                    Ok(t) => {
                        let args = generic_arguments(toks, p1, seq![t]);
                        let p2 = p1 + args.used;
                        match args.result {
                            Err(e) => failed(e, pos, p2),
                            Ok(types) => if check(toks, p2, TokenKindView::Greater) {
                                done(TypeView::Generic(name, types), pos, p2 + 1)
                            } else {
                                failed(
                                    unexpected(toks, p2, "Expected '>' after generic arguments"@),
                                    pos,
                                    p2,
                                )
                            },
                        }
                    },
                }
            } else {
                done(TypeView::Named(name), pos, pos + 1)
            }
        },
        _ => failed(unexpected(toks, pos, "Expected type"@), pos, pos),
    }
}

/// A function type `fn(T, ...) -> T`, at its `fn`.
#[verifier::opaque]
pub open spec fn function_type(toks: Seq<Token>, pos: nat) -> Step<TypeView>
    decreases remaining(toks, pos), 0int,
{
    if !(kind_at(toks, pos) is Fn) {
        failed(unexpected(toks, pos, "Expected 'fn'"@), pos, pos)
    } else if !check(toks, pos + 1, TokenKindView::LeftParen) {
        failed(unexpected(toks, pos + 1, "Expected '(' after 'fn'"@), pos, pos + 1)
    } else {
        let params = type_list(toks, pos + 2, Seq::empty());
        let p1 = pos + 2 + params.used;
        match params.result {
            Err(e) => failed(e, pos, p1),
            Ok(types) => if !check(toks, p1, TokenKindView::RightParen) {
                failed(unexpected(toks, p1, "Expected ')' after function parameters"@), pos, p1)
            } else if !check(toks, p1 + 1, TokenKindView::Arrow) {
                failed(
                    unexpected(toks, p1 + 1, "Expected '->' after function parameters"@),
                    pos,
                    p1 + 1,
                )
            } else {
                let ret = type_(toks, p1 + 2);
                match ret.result {
                    Err(e) => failed(e, pos, p1 + 2 + ret.used),
                    Ok(t) => done(TypeView::Function(types, Box::new(t)), pos, p1 + 2 + ret.used),
                }
            },
        }
    }
}

/// The size that an integer literal gives to an array type, if it gives one:
/// the literal must not be negative.
pub open spec fn literal_size(kind: TokenKindView) -> Option<usize> {
    match kind {
        TokenKindView::IntLiteral(n) => if n >= 0 {
            Some(n as usize)
        } else {
            None
        },
        _ => None,
    }
}

/// An array type `[T; N]` or a slice type `[T]`, at its `[`.
#[verifier::opaque]
pub open spec fn array_or_slice_type(toks: Seq<Token>, pos: nat) -> Step<TypeView>
    decreases remaining(toks, pos), 0int,
{
    if !(kind_at(toks, pos) is LeftBracket) {
        failed(unexpected(toks, pos, "Expected '['"@), pos, pos)
    } else {
        let element = type_(toks, pos + 1);
        let p1 = pos + 1 + element.used;
        match element.result {
            Err(e) => failed(e, pos, p1),
            Ok(t) => if check(toks, p1, TokenKindView::Semicolon) {
                match literal_size(kind_at(toks, p1 + 1)) {
                    Some(size) => if check(toks, p1 + 2, TokenKindView::RightBracket) {
                        done(TypeView::Array(Box::new(t), size), pos, p1 + 3)
                    } else {
                        failed(
                            unexpected(toks, p1 + 2, "Expected ']' after array size"@),
                            pos,
                            p1 + 2,
                        )
                    },
                    None => failed(plain_error(toks, p1 + 1, "Expected array size"@), pos, p1 + 1),
                }
            } else if check(toks, p1, TokenKindView::RightBracket) {
                done(TypeView::Slice(Box::new(t)), pos, p1 + 1)
            } else {
                failed(unexpected(toks, p1, "Expected ']' after slice type"@), pos, p1)
            },
        }
    }
}

/// The unit type, a tuple type, or a function type written with a
/// parenthesized parameter list, at its `(`.
#[verifier::opaque]
pub open spec fn parenthesized_type(toks: Seq<Token>, pos: nat) -> Step<TypeView>
    decreases remaining(toks, pos), 0int,
{
    if !(kind_at(toks, pos) is LeftParen) {
        failed(unexpected(toks, pos, "Expected '('"@), pos, pos)
    } else if check(toks, pos + 1, TokenKindView::RightParen) {
        done(TypeView::Unit, pos, pos + 2)
    } else {
        let first = type_(toks, pos + 1);
        let p1 = pos + 1 + first.used;
        match first.result {
            Err(e) => failed(e, pos, p1),
            Ok(t) => {
                let rest = tuple_rest(toks, p1, seq![t]);
                let p2 = p1 + rest.used;
                match rest.result {
                    Err(e) => failed(e, pos, p2),
                    Ok(types) => if !check(toks, p2, TokenKindView::RightParen) {
                        failed(unexpected(toks, p2, "Expected ')' after tuple types"@), pos, p2)
                    } else if check(toks, p2 + 1, TokenKindView::Arrow) {
                        let ret = type_(toks, p2 + 2);
                        match ret.result {
                            Err(e) => failed(e, pos, p2 + 2 + ret.used),
                            Ok(r) => done(
                                TypeView::Function(types, Box::new(r)),
                                pos,
                                p2 + 2 + ret.used,
                            ),
                        }
                    } else {
                        done(TypeView::Tuple(types), pos, p2 + 1)
                    },
                }
            },
        }
    }
}

/// Types separated by commas, up to a `)` or the end of the input; a comma
/// may follow the last one. `found` holds the types read so far.
#[verifier::opaque]
pub open spec fn type_list(toks: Seq<Token>, pos: nat, found: Seq<TypeView>) -> Step<Seq<TypeView>>
    decreases remaining(toks, pos), 2int,
{
    if check(toks, pos, TokenKindView::RightParen) || at_end(toks, pos) {
        done(found, pos, pos)
    } else {
        let item = type_(toks, pos);
        let p1 = pos + item.used;
        match item.result {
            Err(e) => failed(e, pos, p1),
            Ok(t) => if check(toks, p1, TokenKindView::Comma) {
                after((p1 + 1 - pos) as nat, type_list(toks, p1 + 1, found.push(t)))
            } else {
                done(found.push(t), pos, p1)
            },
        }
    }
}

/// The further members of a tuple type, each after a comma; a comma may
/// stand before the closing `)`. `found` holds the types read so far.
#[verifier::opaque]
pub open spec fn tuple_rest(toks: Seq<Token>, pos: nat, found: Seq<TypeView>) -> Step<Seq<TypeView>>
    decreases remaining(toks, pos), 2int,
{
    if !check(toks, pos, TokenKindView::Comma) {
        done(found, pos, pos)
    } else if check(toks, pos + 1, TokenKindView::RightParen) {
        done(found, pos, pos + 1)
    } else {
        let item = type_(toks, pos + 1);
        let p1 = pos + 1 + item.used;
        match item.result {
            Err(e) => failed(e, pos, p1),
            Ok(t) => after((p1 - pos) as nat, tuple_rest(toks, p1, found.push(t))),
        }
    }
}

/// The further arguments of a generic type, each after a comma. `found`
/// holds the types read so far.
#[verifier::opaque]
pub open spec fn generic_arguments(
    toks: Seq<Token>,
    pos: nat,
    found: Seq<TypeView>,
) -> Step<Seq<TypeView>>
    decreases remaining(toks, pos), 2int,
{
    if !check(toks, pos, TokenKindView::Comma) {
        done(found, pos, pos)
    } else {
        let item = type_(toks, pos + 1);
        let p1 = pos + 1 + item.used;
        match item.result {
            Err(e) => failed(e, pos, p1),
            Ok(t) => after((p1 - pos) as nat, generic_arguments(toks, p1, found.push(t))),
        }
    }
}

} // verus!
