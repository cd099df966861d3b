//! The definitions of the productions, as lemmas. A production is opaque:
//! a proof that needs what one says calls its lemma, which states the
//! definition for the given arguments and nothing of the productions that
//! the definition names.

use vstd::prelude::*;
use crate::ast::UnOp;
use crate::ast::model::{
    BlockView, BreakStmtView, ExprStmtView, ExprView, ForStmtView, IfStmtView, LetStmtView,
    LiteralView, MatchArmView, MatchStmtView, ParameterView, PatternView, ReturnStmtView,
    StatementView, TypeView, WhileStmtView,
};
use crate::grammar::{
    after, at_end, check, done, failed, kind_at, last_span, optional, plain_error, skip, span_at,
    unexpected, unexpected_in_expression,
};
use crate::grammar::expressions::{
    after_label, arguments, arm_body, array_elements, array_literal, assignment, binary,
    binary_rest, break_expression, cast, closure, closure_from_paren, closure_parameter,
    closure_parameters, closure_tail, compound_operator, continue_expression, expression,
    field_values, for_expression, if_expression, label_at, literal_count, match_arm, match_arms,
    match_expression, operand, operator, outside_loop, parameter, parameters, parenthesized,
    postfix, postfix_rest, prefix_operator, primary, range, return_expression, struct_literal,
    unary, while_expression,
};
use crate::grammar::patterns::{alternatives, field_patterns, pattern, pattern_list, single_pattern};
use crate::grammar::statements::{
    block, break_statement, continue_statement, for_statement, if_statement, let_statement,
    match_statement, return_statement, statement, statement_outside_loop, statements,
    while_statement,
};
use crate::grammar::types::{
    array_or_slice_type, function_type, generic_arguments, literal_size, parenthesized_type,
    tuple_rest, type_, type_list,
};
use crate::span::Span;
use crate::token::{Token, TokenKindView};

verus! {

/// The definition of [`type_`].
pub proof fn lemma_type_(toks: Seq<Token>, pos: nat)
    ensures
        type_(toks, pos) == ({
            match kind_at(toks, pos) {
                TokenKindView::I8 => done(TypeView::I8, pos, pos + 1),
                TokenKindView::I16 => done(TypeView::I16, pos, pos + 1),
                TokenKindView::I32 => done(TypeView::I32, pos, pos + 1),
                TokenKindView::I64 => done(TypeView::I64, pos, pos + 1),
                TokenKindView::U8 => done(TypeView::U8, pos, pos + 1),
                TokenKindView::U16 => done(TypeView::U16, pos, pos + 1),
                TokenKindView::U32 => done(TypeView::U32, pos, pos + 1),
                TokenKindView::U64 => done(TypeView::U64, pos, pos + 1),
                TokenKindView::Usize => done(TypeView::Usize, pos, pos + 1),
                TokenKindView::Isize => done(TypeView::Isize, pos, pos + 1),
                TokenKindView::F32 => done(TypeView::F32, pos, pos + 1),
                TokenKindView::F64 => done(TypeView::F64, pos, pos + 1),
                TokenKindView::Bool => done(TypeView::Bool, pos, pos + 1),
                TokenKindView::Char => done(TypeView::Char, pos, pos + 1),
                TokenKindView::String => done(TypeView::String, pos, pos + 1),
                TokenKindView::LogicalNot => done(TypeView::Never, pos, pos + 1),
                TokenKindView::Underscore => done(TypeView::Infer, pos, pos + 1),
                TokenKindView::Fn => function_type(toks, pos),
                TokenKindView::LeftBracket => array_or_slice_type(toks, pos),
                TokenKindView::Star => {
                    let mutable = check(toks, pos + 1, TokenKindView::Mut);
                    let p1 = skip(toks, pos + 1, TokenKindView::Mut);
                    let inner = type_(toks, p1);
                    match inner.result {
                        Err(e) => failed(e, pos, p1 + inner.used),
                        Ok(t) => done(TypeView::Pointer(Box::new(t), mutable), pos, p1 + inner.used),
                    }
                },
                TokenKindView::BitwiseAnd => {
                    let mutable = check(toks, pos + 1, TokenKindView::Mut);
                    let p1 = skip(toks, pos + 1, TokenKindView::Mut);
                    let inner = type_(toks, p1);
                    match inner.result {
                        Err(e) => failed(e, pos, p1 + inner.used),
                        Ok(t) => done(TypeView::Reference(Box::new(t), mutable), pos, p1 + inner.used),
                    }
                },
                TokenKindView::LeftParen => parenthesized_type(toks, pos),
                TokenKindView::Ident(name) => {
                    if check(toks, pos + 1, TokenKindView::Less) {
                        let first = type_(toks, pos + 2);
                        let p1 = pos + 2 + first.used;
                        match first.result {
                            Err(e) => failed(e, pos, p1),
                            Ok(t) => {
                                let args = generic_arguments(toks, p1, seq![t]);
                                let p2 = p1 + args.used;
                                match args.result {
                                    Err(e) => failed(e, pos, p2),
                                    Ok(types) => if check(toks, p2, TokenKindView::Greater) {
                                        done(TypeView::Generic(name, types), pos, p2 + 1)
                                    } else {
                                        failed(
                                            unexpected(
                                                toks,
                                                p2,
                                                "Expected '>' after generic arguments"@,
                                            ),
                                            pos,
                                            p2,
                                        )
                                    },
                                }
                            },
                        }
                    } else {
                        done(TypeView::Named(name), pos, pos + 1)
                    }
                },
                _ => failed(unexpected(toks, pos, "Expected type"@), pos, pos),
            }
        }),
{
    reveal_with_fuel(type_, 1);
    reveal_with_fuel(function_type, 1);
    reveal_with_fuel(array_or_slice_type, 1);
    reveal_with_fuel(parenthesized_type, 1);
    reveal_with_fuel(generic_arguments, 1);
}

/// The definition of [`function_type`].
pub proof fn lemma_function_type(toks: Seq<Token>, pos: nat)
    ensures
        function_type(toks, pos) == ({
            if !(kind_at(toks, pos) is Fn) {
                failed(unexpected(toks, pos, "Expected 'fn'"@), pos, pos)
            } else if !check(toks, pos + 1, TokenKindView::LeftParen) {
                failed(unexpected(toks, pos + 1, "Expected '(' after 'fn'"@), pos, pos + 1)
            } else {
                let params = type_list(toks, pos + 2, Seq::empty());
                let p1 = pos + 2 + params.used;
                match params.result {
                    Err(e) => failed(e, pos, p1),
                    Ok(types) => if !check(toks, p1, TokenKindView::RightParen) {
                        failed(
                            unexpected(toks, p1, "Expected ')' after function parameters"@),
                            pos,
                            p1,
                        )
                    } else if !check(toks, p1 + 1, TokenKindView::Arrow) {
                        failed(
                            unexpected(toks, p1 + 1, "Expected '->' after function parameters"@),
                            pos,
                            p1 + 1,
                        )
                    } else {
                        let ret = type_(toks, p1 + 2);
                        match ret.result {
                            Err(e) => failed(e, pos, p1 + 2 + ret.used),
                            Ok(t) => done(TypeView::Function(types, Box::new(t)), pos, p1 + 2 + ret.used),
                        }
                    },
                }
            }
        }),
{
    reveal_with_fuel(function_type, 1);
    reveal_with_fuel(type_list, 1);
    reveal_with_fuel(type_, 1);
}

/// The definition of [`array_or_slice_type`].
pub proof fn lemma_array_or_slice_type(toks: Seq<Token>, pos: nat)
    ensures
        array_or_slice_type(toks, pos) == ({
            if !(kind_at(toks, pos) is LeftBracket) {
                failed(unexpected(toks, pos, "Expected '['"@), pos, pos)
            } else {
                let element = type_(toks, pos + 1);
                let p1 = pos + 1 + element.used;
                match element.result {
                    Err(e) => failed(e, pos, p1),
                    Ok(t) => if check(toks, p1, TokenKindView::Semicolon) {
                        match literal_size(kind_at(toks, p1 + 1)) {
                            Some(size) => if check(toks, p1 + 2, TokenKindView::RightBracket) {
                                done(TypeView::Array(Box::new(t), size), pos, p1 + 3)
                            } else {
                                failed(
                                    unexpected(toks, p1 + 2, "Expected ']' after array size"@),
                                    pos,
                                    p1 + 2,
                                )
                            },
                            None => failed(
                                plain_error(toks, p1 + 1, "Expected array size"@),
                                pos,
                                p1 + 1,
                            ),
                        }
                    } else if check(toks, p1, TokenKindView::RightBracket) {
                        done(TypeView::Slice(Box::new(t)), pos, p1 + 1)
                    } else {
                        failed(unexpected(toks, p1, "Expected ']' after slice type"@), pos, p1)
                    },
                }
            }
        }),
{
    reveal_with_fuel(array_or_slice_type, 1);
    reveal_with_fuel(type_, 1);
}

/// The definition of [`parenthesized_type`].
pub proof fn lemma_parenthesized_type(toks: Seq<Token>, pos: nat)
    ensures
        parenthesized_type(toks, pos) == ({
            if !(kind_at(toks, pos) is LeftParen) {
                failed(unexpected(toks, pos, "Expected '('"@), pos, pos)
            } else if check(toks, pos + 1, TokenKindView::RightParen) {
                done(TypeView::Unit, pos, pos + 2)
            } else {
                let first = type_(toks, pos + 1);
                let p1 = pos + 1 + first.used;
                match first.result {
                    Err(e) => failed(e, pos, p1),
                    Ok(t) => {
                        let rest = tuple_rest(toks, p1, seq![t]);
                        let p2 = p1 + rest.used;
                        match rest.result {
                            Err(e) => failed(e, pos, p2),
                            Ok(types) => if !check(toks, p2, TokenKindView::RightParen) {
                                failed(
                                    unexpected(toks, p2, "Expected ')' after tuple types"@),
                                    pos,
                                    p2,
                                )
                            } else if check(toks, p2 + 1, TokenKindView::Arrow) {
                                let ret = type_(toks, p2 + 2);
                                match ret.result {
                                    Err(e) => failed(e, pos, p2 + 2 + ret.used),
                                    Ok(r) => done(
                                        TypeView::Function(types, Box::new(r)),
                                        pos,
                                        p2 + 2 + ret.used,
                                    ),
                                }
                            } else {
                                done(TypeView::Tuple(types), pos, p2 + 1)
                            },
                        }
                    },
                }
            }
        }),
{
    reveal_with_fuel(parenthesized_type, 1);
    reveal_with_fuel(type_, 1);
    reveal_with_fuel(tuple_rest, 1);
}

/// The definition of [`type_list`].
pub proof fn lemma_type_list(toks: Seq<Token>, pos: nat, found: Seq<TypeView>)
    ensures
        type_list(toks, pos, found) == ({
            if check(toks, pos, TokenKindView::RightParen) || at_end(toks, pos) {
                done(found, pos, pos)
            } else {
                let item = type_(toks, pos);
                let p1 = pos + item.used;
                match item.result {
                    Err(e) => failed(e, pos, p1),
                    Ok(t) => if check(toks, p1, TokenKindView::Comma) {
                        after((p1 + 1 - pos) as nat, type_list(toks, p1 + 1, found.push(t)))
                    } else {
                        done(found.push(t), pos, p1)
                    },
                }
            }
        }),
{
    reveal_with_fuel(type_list, 1);
    reveal_with_fuel(type_, 1);
}

/// The definition of [`tuple_rest`].
pub proof fn lemma_tuple_rest(toks: Seq<Token>, pos: nat, found: Seq<TypeView>)
    ensures
        tuple_rest(toks, pos, found) == ({
            if !check(toks, pos, TokenKindView::Comma) {
                done(found, pos, pos)
            } else if check(toks, pos + 1, TokenKindView::RightParen) {
                done(found, pos, pos + 1)
            } else {
                let item = type_(toks, pos + 1);
                let p1 = pos + 1 + item.used;
                match item.result {
                    Err(e) => failed(e, pos, p1),
                    Ok(t) => after((p1 - pos) as nat, tuple_rest(toks, p1, found.push(t))),
                }
            }
        }),
{
    reveal_with_fuel(tuple_rest, 1);
    reveal_with_fuel(type_, 1);
}

/// The definition of [`generic_arguments`].
pub proof fn lemma_generic_arguments(toks: Seq<Token>, pos: nat, found: Seq<TypeView>)
    ensures
        generic_arguments(toks, pos, found) == ({
            if !check(toks, pos, TokenKindView::Comma) {
                done(found, pos, pos)
            } else {
                let item = type_(toks, pos + 1);
                let p1 = pos + 1 + item.used;
                match item.result {
                    Err(e) => failed(e, pos, p1),
                    Ok(t) => after((p1 - pos) as nat, generic_arguments(toks, p1, found.push(t))),
                }
            }
        }),
{
    reveal_with_fuel(generic_arguments, 1);
    reveal_with_fuel(type_, 1);
}

/// The definition of [`pattern`].
pub proof fn lemma_pattern(toks: Seq<Token>, pos: nat)
    ensures
        pattern(toks, pos) == ({
            let first = single_pattern(toks, pos);
            let p1 = pos + first.used;
            match first.result {
                Err(e) => failed(e, pos, p1),
                Ok(p) => if check(toks, p1, TokenKindView::BitwiseOr) {
                    let rest = alternatives(toks, p1, seq![p]);
                    match rest.result {
                        Err(e) => failed(e, pos, p1 + rest.used),
                        Ok(all) => done(PatternView::Or(all), pos, p1 + rest.used),
                    }
                } else {
                    done(p, pos, p1)
                },
            }
        }),
{
    reveal_with_fuel(pattern, 1);
    reveal_with_fuel(single_pattern, 1);
    reveal_with_fuel(alternatives, 1);
}

/// The definition of [`alternatives`].
pub proof fn lemma_alternatives(toks: Seq<Token>, pos: nat, found: Seq<PatternView>)
    ensures
        alternatives(toks, pos, found) == ({
            if !check(toks, pos, TokenKindView::BitwiseOr) {
                done(found, pos, pos)
            } else {
                let item = single_pattern(toks, pos + 1);
                let p1 = pos + 1 + item.used;
                match item.result {
                    Err(e) => failed(e, pos, p1),
                    Ok(p) => after((p1 - pos) as nat, alternatives(toks, p1, found.push(p))),
                }
            }
        }),
{
    reveal_with_fuel(alternatives, 1);
    reveal_with_fuel(single_pattern, 1);
}

/// The definition of [`single_pattern`].
pub proof fn lemma_single_pattern(toks: Seq<Token>, pos: nat)
    ensures
        single_pattern(toks, pos) == ({
            match kind_at(toks, pos) {
                TokenKindView::Underscore => done(PatternView::Wildcard, pos, pos + 1),
                TokenKindView::IntLiteral(n) => done(
                    PatternView::Literal(LiteralView::Int(n as i64)),
                    pos,
                    pos + 1,
                ),
                TokenKindView::BoolLiteral(b) => done(
                    PatternView::Literal(LiteralView::Bool(b)),
                    pos,
                    pos + 1,
                ),
                TokenKindView::Ident(name) => if check(toks, pos + 1, TokenKindView::LeftBrace) {
                    let fields = field_patterns(toks, pos + 2, Seq::empty());
                    let p1 = pos + 2 + fields.used;
                    match fields.result {
                        Err(e) => failed(e, pos, p1),
                        Ok(all) => if check(toks, p1, TokenKindView::RightBrace) {
                            done(PatternView::Struct(name, all), pos, p1 + 1)
                        } else {
                            failed(
                                unexpected(toks, p1, "Expected '}' after struct pattern fields"@),
                                pos,
                                p1,
                            )
                        },
                    }
                } else {
                    done(PatternView::Ident(name), pos, pos + 1)
                },
                TokenKindView::LeftParen => {
                    let members = pattern_list(toks, pos + 1, Seq::empty());
                    let p1 = pos + 1 + members.used;
                    match members.result {
                        Err(e) => failed(e, pos, p1),
                        Ok(all) => if check(toks, p1, TokenKindView::RightParen) {
                            done(PatternView::Tuple(all), pos, p1 + 1)
                        } else {
                            failed(
                                unexpected(toks, p1, "Expected ')' after tuple pattern"@),
                                pos,
                                p1,
                            )
                        },
                    }
                },
                _ => failed(unexpected(toks, pos, "Expected pattern"@), pos, pos),
            }
        }),
{
    reveal_with_fuel(single_pattern, 1);
    reveal_with_fuel(field_patterns, 1);
    reveal_with_fuel(pattern_list, 1);
}

/// The definition of [`pattern_list`].
pub proof fn lemma_pattern_list(toks: Seq<Token>, pos: nat, found: Seq<PatternView>)
    ensures
        pattern_list(toks, pos, found) == ({
            if check(toks, pos, TokenKindView::RightParen) || at_end(toks, pos) {
                done(found, pos, pos)
            } else {
                let item = pattern(toks, pos);
                let p1 = pos + item.used;
                match item.result {
                    Err(e) => failed(e, pos, p1),
                    Ok(p) => if check(toks, p1, TokenKindView::Comma) {
                        after((p1 + 1 - pos) as nat, pattern_list(toks, p1 + 1, found.push(p)))
                    } else {
                        done(found.push(p), pos, p1)
                    },
                }
            }
        }),
{
    reveal_with_fuel(pattern_list, 1);
    reveal_with_fuel(pattern, 1);
}

/// The definition of [`field_patterns`].
pub proof fn lemma_field_patterns(toks: Seq<Token>, pos: nat, found: Seq<(Seq<char>, PatternView)>)
    ensures
        field_patterns(toks, pos, found) == ({
            if check(toks, pos, TokenKindView::RightBrace) || at_end(toks, pos) {
                done(found, pos, pos)
            } else {
                match kind_at(toks, pos) {
                    TokenKindView::Ident(name) => {
                        let bound = if check(toks, pos + 1, TokenKindView::Colon) {
                            after(2, pattern(toks, pos + 2))
                        } else {
                            done(PatternView::Ident(name), pos, pos + 1)
                        };
                        let p1 = pos + bound.used;
                        match bound.result {
                            Err(e) => failed(e, pos, p1),
                            Ok(p) => if check(toks, p1, TokenKindView::Comma) {
                                after(
                                    (p1 + 1 - pos) as nat,
                                    field_patterns(toks, p1 + 1, found.push((name, p))),
                                )
                            } else {
                                done(found.push((name, p)), pos, p1)
                            },
                        }
                    },
                    _ => failed(unexpected(toks, pos, "Expected field name in pattern"@), pos, pos),
                }
            }
        }),
{
    reveal_with_fuel(field_patterns, 1);
    reveal_with_fuel(pattern, 1);
}

/// The definition of [`expression`].
pub proof fn lemma_expression(toks: Seq<Token>, pos: nat, depth: nat, structs: bool)
    ensures
        expression(toks, pos, depth, structs) == ({
            assignment(toks, pos, depth, structs)
        }),
{
    reveal_with_fuel(expression, 1);
    reveal_with_fuel(assignment, 1);
}

/// The definition of [`assignment`].
pub proof fn lemma_assignment(toks: Seq<Token>, pos: nat, depth: nat, structs: bool)
    ensures
        assignment(toks, pos, depth, structs) == ({
            let target = binary(toks, pos, depth, structs, 9);
            let p1 = pos + target.used;
            match target.result {
                Err(e) => failed(e, pos, p1),
                Ok(l) => if check(toks, p1, TokenKindView::Assign) {
                    let value = assignment(toks, p1 + 1, depth, structs);
                    let p2 = p1 + 1 + value.used;
                    match value.result {
                        Err(e) => failed(e, pos, p2),
                        Ok(r) => done(
                            ExprView::Assign(
                                Box::new(l),
                                Box::new(r),
                                l.span().merged(last_span(toks, p2)),
                            ),
                            pos,
                            p2,
                        ),
                    }
                } else if !at_end(toks, p1) && compound_operator(kind_at(toks, p1)) is Some {
                    let value = assignment(toks, p1 + 1, depth, structs);
                    let p2 = p1 + 1 + value.used;
                    match value.result {
                        Err(e) => failed(e, pos, p2),
                        Ok(r) => done(
                            ExprView::CompoundAssign(
                                compound_operator(kind_at(toks, p1))->Some_0,
                                Box::new(l),
                                Box::new(r),
                                l.span().merged(last_span(toks, p2)),
                            ),
                            pos,
                            p2,
                        ),
                    }
                } else {
                    done(l, pos, p1)
                },
            }
        }),
{
    reveal_with_fuel(assignment, 1);
    reveal_with_fuel(binary, 1);
}

/// The definition of [`binary`].
pub proof fn lemma_binary(toks: Seq<Token>, pos: nat, depth: nat, structs: bool, tier: nat)
    ensures
        binary(toks, pos, depth, structs, tier) == ({
            let first = operand(toks, pos, depth, structs, tier);
            let p1 = pos + first.used;
            match first.result {
                Err(e) => failed(e, pos, p1),
                Ok(l) => after(first.used, binary_rest(toks, p1, depth, structs, tier, l)),
            }
        }),
{
    reveal_with_fuel(binary, 1);
    reveal_with_fuel(operand, 1);
    reveal_with_fuel(binary_rest, 1);
}

/// The definition of [`binary_rest`].
pub proof fn lemma_binary_rest(
    toks: Seq<Token>,
    pos: nat,
    depth: nat,
    structs: bool,
    tier: nat,
    left: ExprView,
)
    ensures
        binary_rest(toks, pos, depth, structs, tier, left) == ({
            if at_end(toks, pos) || operator(tier, kind_at(toks, pos)) is None {
                done(left, pos, pos)
            } else {
                let right = operand(toks, pos + 1, depth, structs, tier);
                let p1 = pos + 1 + right.used;
                match right.result {
                    Err(e) => failed(e, pos, p1),
                    Ok(r) => after(
                        (p1 - pos) as nat,
                        binary_rest(
                            toks,
                            p1,
                            depth,
                            structs,
                            tier,
                            ExprView::Binary(
                                operator(tier, kind_at(toks, pos))->Some_0,
                                Box::new(left),
                                Box::new(r),
                                left.span().merged(r.span()),
                            ),
                        ),
                    ),
                }
            }
        }),
{
    reveal_with_fuel(binary_rest, 1);
    reveal_with_fuel(operand, 1);
}

/// The definition of [`operand`].
pub proof fn lemma_operand(toks: Seq<Token>, pos: nat, depth: nat, structs: bool, tier: nat)
    ensures
        operand(toks, pos, depth, structs, tier) == ({
            if tier == 0 {
                cast(toks, pos, depth, structs)
            } else if tier == 2 {
                range(toks, pos, depth, structs)
            } else {
                binary(toks, pos, depth, structs, (tier - 1) as nat)
            }
        }),
{
    reveal_with_fuel(operand, 1);
    reveal_with_fuel(cast, 1);
    reveal_with_fuel(range, 1);
    reveal_with_fuel(binary, 1);
}

/// The definition of [`range`].
pub proof fn lemma_range(toks: Seq<Token>, pos: nat, depth: nat, structs: bool)
    ensures
        range(toks, pos, depth, structs) == ({
            let from = binary(toks, pos, depth, structs, 1);
            let p1 = pos + from.used;
            match from.result {
                Err(e) => failed(e, pos, p1),
                Ok(l) => if check(toks, p1, TokenKindView::DotDot) || check(
                    toks,
                    p1,
                    TokenKindView::DotDotEqual,
                ) {
                    let inclusive = check(toks, p1, TokenKindView::DotDotEqual) || check(
                        toks,
                        p1 + 1,
                        TokenKindView::Assign,
                    );
                    let p2 = if check(toks, p1, TokenKindView::DotDotEqual) {
                        p1 + 1
                    } else {
                        skip(toks, p1 + 1, TokenKindView::Assign)
                    };
                    let to = binary(toks, p2, depth, structs, 1);
                    match to.result {
                        Err(e) => failed(e, pos, p2 + to.used),
                        Ok(r) => done(
                            ExprView::Range(
                                Box::new(l),
                                Box::new(r),
                                inclusive,
                                l.span().merged(r.span()),
                            ),
                            pos,
                            p2 + to.used,
                        ),
                    }
                } else {
                    done(l, pos, p1)
                },
            }
        }),
{
    reveal_with_fuel(range, 1);
    reveal_with_fuel(binary, 1);
}

/// The definition of [`cast`].
pub proof fn lemma_cast(toks: Seq<Token>, pos: nat, depth: nat, structs: bool)
    ensures
        cast(toks, pos, depth, structs) == ({
            let value = unary(toks, pos, depth, structs);
            let p1 = pos + value.used;
            match value.result {
                Err(e) => failed(e, pos, p1),
                Ok(x) => if check(toks, p1, TokenKindView::As) {
                    let target = type_(toks, p1 + 1);
                    let p2 = p1 + 1 + target.used;
                    match target.result {
                        Err(e) => failed(e, pos, p2),
                        Ok(t) => done(
                            ExprView::Cast(Box::new(x), t, x.span().merged(last_span(toks, p2))),
                            pos,
                            p2,
                        ),
                    }
                } else {
                    done(x, pos, p1)
                },
            }
        }),
{
    reveal_with_fuel(cast, 1);
    reveal_with_fuel(unary, 1);
}

/// The definition of [`unary`].
pub proof fn lemma_unary(toks: Seq<Token>, pos: nat, depth: nat, structs: bool)
    ensures
        unary(toks, pos, depth, structs) == ({
            if check(toks, pos, TokenKindView::BitwiseAnd) {
                let mutable = check(toks, pos + 1, TokenKindView::Mut);
                let p1 = skip(toks, pos + 1, TokenKindView::Mut);
                let inner = unary(toks, p1, depth, structs);
                let p2 = p1 + inner.used;
                match inner.result {
                    Err(e) => failed(e, pos, p2),
                    Ok(x) => done(
                        ExprView::Unary(
                            if mutable {
                                UnOp::RefMut
                            } else {
                                UnOp::Ref
                            },
                            Box::new(x),
                            span_at(toks, pos).merged(last_span(toks, p2)),
                        ),
                        pos,
                        p2,
                    ),
                }
            } else if !at_end(toks, pos) && prefix_operator(kind_at(toks, pos)) is Some {
                let inner = unary(toks, pos + 1, depth, structs);
                let p2 = pos + 1 + inner.used;
                match inner.result {
                    Err(e) => failed(e, pos, p2),
                    Ok(x) => done(
                        ExprView::Unary(
                            prefix_operator(kind_at(toks, pos))->Some_0,
                            Box::new(x),
                            span_at(toks, pos).merged(last_span(toks, p2)),
                        ),
                        pos,
                        p2,
                    ),
                }
            } else {
                postfix(toks, pos, depth, structs)
            }
        }),
{
    reveal_with_fuel(unary, 1);
    reveal_with_fuel(postfix, 1);
}

/// The definition of [`postfix`].
pub proof fn lemma_postfix(toks: Seq<Token>, pos: nat, depth: nat, structs: bool)
    ensures
        postfix(toks, pos, depth, structs) == ({
            let base = primary(toks, pos, depth, structs);
            let p1 = pos + base.used;
            match base.result {
                Err(e) => failed(e, pos, p1),
                Ok(x) => after(base.used, postfix_rest(toks, p1, depth, x)),
            }
        }),
{
    reveal_with_fuel(postfix, 1);
    reveal_with_fuel(primary, 1);
    reveal_with_fuel(postfix_rest, 1);
}

/// The definition of [`postfix_rest`].
pub proof fn lemma_postfix_rest(toks: Seq<Token>, pos: nat, depth: nat, base: ExprView)
    ensures
        postfix_rest(toks, pos, depth, base) == ({
            if check(toks, pos, TokenKindView::LeftParen) {
                let args = arguments(toks, pos + 1, depth, Seq::empty());
                let p1 = pos + 1 + args.used;
                match args.result {
                    Err(e) => failed(e, pos, p1),
                    Ok(all) => if check(toks, p1, TokenKindView::RightParen) {
                        after(
                            (p1 + 1 - pos) as nat,
                            postfix_rest(
                                toks,
                                p1 + 1,
                                depth,
                                ExprView::Call(
                                    Box::new(base),
                                    all,
                                    base.span().merged(span_at(toks, p1)),
                                ),
                            ),
                        )
                    } else {
                        failed(unexpected(toks, p1, "Expected ')' after arguments"@), pos, p1)
                    },
                }
            } else if check(toks, pos, TokenKindView::Dot) {
                match kind_at(toks, pos + 1) {
                    TokenKindView::Ident(name) => if check(toks, pos + 2, TokenKindView::LeftParen) {
                        let args = arguments(toks, pos + 3, depth, Seq::empty());
                        let p1 = pos + 3 + args.used;
                        match args.result {
                            Err(e) => failed(e, pos, p1),
                            Ok(all) => if check(toks, p1, TokenKindView::RightParen) {
                                after(
                                    (p1 + 1 - pos) as nat,
                                    postfix_rest(
                                        toks,
                                        p1 + 1,
                                        depth,
                                        ExprView::MethodCall(
                                            Box::new(base),
                                            name,
                                            all,
                                            base.span().merged(span_at(toks, p1)),
                                        ),
                                    ),
                                )
                            } else {
                                failed(
                                    unexpected(toks, p1, "Expected ')' after method arguments"@),
                                    pos,
                                    p1,
                                )
                            },
                        }
                    } else {
                        after(
                            2,
                            postfix_rest(
                                toks,
                                pos + 2,
                                depth,
                                ExprView::FieldAccess(
                                    Box::new(base),
                                    name,
                                    base.span().merged(span_at(toks, pos + 1)),
                                ),
                            ),
                        )
                    },
                    _ => failed(
                        plain_error(toks, pos + 1, "Expected identifier after '.'"@),
                        pos,
                        pos + 1,
                    ),
                }
            } else if check(toks, pos, TokenKindView::LeftBracket) {
                let index = expression(toks, pos + 1, depth, true);
                let p1 = pos + 1 + index.used;
                match index.result {
                    Err(e) => failed(e, pos, p1),
                    Ok(i) => if check(toks, p1, TokenKindView::RightBracket) {
                        after(
                            (p1 + 1 - pos) as nat,
                            postfix_rest(
                                toks,
                                p1 + 1,
                                depth,
                                ExprView::IndexAccess(
                                    Box::new(base),
                                    Box::new(i),
                                    base.span().merged(span_at(toks, p1)),
                                ),
                            ),
                        )
                    } else {
                        failed(unexpected(toks, p1, "Expected ']' after index"@), pos, p1)
                    },
                }
            } else {
                done(base, pos, pos)
            }
        }),
{
    reveal_with_fuel(postfix_rest, 1);
    reveal_with_fuel(arguments, 1);
    reveal_with_fuel(expression, 1);
}

/// The definition of [`arguments`].
pub proof fn lemma_arguments(toks: Seq<Token>, pos: nat, depth: nat, found: Seq<ExprView>)
    ensures
        arguments(toks, pos, depth, found) == ({
            if check(toks, pos, TokenKindView::RightParen) || at_end(toks, pos) {
                done(found, pos, pos)
            } else {
                let item = expression(toks, pos, depth, true);
                let p1 = pos + item.used;
                match item.result {
                    Err(e) => failed(e, pos, p1),
                    Ok(x) => if check(toks, p1, TokenKindView::Comma) {
                        after((p1 + 1 - pos) as nat, arguments(toks, p1 + 1, depth, found.push(x)))
                    } else {
                        done(found.push(x), pos, p1)
                    },
                }
            }
        }),
{
    reveal_with_fuel(arguments, 1);
    reveal_with_fuel(expression, 1);
}

/// The definition of [`primary`].
pub proof fn lemma_primary(toks: Seq<Token>, pos: nat, depth: nat, structs: bool)
    ensures
        primary(toks, pos, depth, structs) == ({
            let start = span_at(toks, pos);
            match kind_at(toks, pos) {
                TokenKindView::IntLiteral(n) => done(
                    ExprView::Literal(LiteralView::Int(n as i64), start),
                    pos,
                    pos + 1,
                ),
                TokenKindView::BoolLiteral(b) => done(
                    ExprView::Literal(LiteralView::Bool(b), start),
                    pos,
                    pos + 1,
                ),
                TokenKindView::CharLiteral(c) => done(
                    ExprView::Literal(LiteralView::Char(c), start),
                    pos,
                    pos + 1,
                ),
                TokenKindView::StringLiteral(s) => done(
                    ExprView::Literal(LiteralView::String(s), start),
                    pos,
                    pos + 1,
                ),
                TokenKindView::Ident(name) => if structs && check(toks, pos + 1, TokenKindView::LeftBrace) {
                    struct_literal(toks, pos, depth)
                } else {
                    done(ExprView::Ident(name, start), pos, pos + 1)
                },
                TokenKindView::LeftParen => parenthesized(toks, pos, depth, structs),
                TokenKindView::LeftBracket => array_literal(toks, pos, depth),
                TokenKindView::LeftBrace => {
                    let body = block(toks, pos, depth);
                    match body.result {
                        Err(e) => failed(e, pos, pos + body.used),
                        Ok(b) => done(ExprView::Block(b, b.span), pos, pos + body.used),
                    }
                },
                TokenKindView::If => if_expression(toks, pos, depth),
                TokenKindView::While => while_expression(toks, pos, depth),
                TokenKindView::For => for_expression(toks, pos, depth),
                TokenKindView::Match => match_expression(toks, pos, depth),
                TokenKindView::Break => break_expression(toks, pos, depth, structs),
                TokenKindView::Continue => continue_expression(toks, pos, depth),
                TokenKindView::Return => return_expression(toks, pos, depth, structs),
                TokenKindView::BitwiseOr => closure(toks, pos, depth, structs),
                TokenKindView::LogicalOr => after(
                    1,
                    closure_tail(toks, pos + 1, depth, structs, start, Seq::empty()),
                ),
                _ => failed(unexpected_in_expression(toks, pos), pos, pos),
            }
        }),
{
    reveal_with_fuel(primary, 1);
    reveal_with_fuel(struct_literal, 1);
    reveal_with_fuel(parenthesized, 1);
    reveal_with_fuel(array_literal, 1);
    reveal_with_fuel(block, 1);
    reveal_with_fuel(if_expression, 1);
    reveal_with_fuel(while_expression, 1);
    reveal_with_fuel(for_expression, 1);
    reveal_with_fuel(match_expression, 1);
    reveal_with_fuel(break_expression, 1);
    reveal_with_fuel(continue_expression, 1);
    reveal_with_fuel(return_expression, 1);
    reveal_with_fuel(closure, 1);
    reveal_with_fuel(closure_tail, 1);
}

/// The definition of [`struct_literal`].
pub proof fn lemma_struct_literal(toks: Seq<Token>, pos: nat, depth: nat)
    ensures
        struct_literal(toks, pos, depth) == ({
            match kind_at(toks, pos) {
                TokenKindView::Ident(name) => if check(toks, pos + 1, TokenKindView::LeftBrace) {
                    let fields = field_values(toks, pos + 2, depth, Seq::empty());
                    let p1 = pos + 2 + fields.used;
                    match fields.result {
                        Err(e) => failed(e, pos, p1),
                        Ok(all) => if check(toks, p1, TokenKindView::RightBrace) {
                            done(
                                ExprView::StructLit(
                                    name,
                                    all,
                                    span_at(toks, pos).merged(span_at(toks, p1)),
                                ),
                                pos,
                                p1 + 1,
                            )
                        } else {
                            failed(
                                unexpected(toks, p1, "Expected '}' after struct fields"@),
                                pos,
                                p1,
                            )
                        },
                    }
                } else {
                    failed(unexpected(toks, pos + 1, "Expected '{'"@), pos, pos + 1)
                },
                _ => failed(unexpected(toks, pos, "Expected struct name"@), pos, pos),
            }
        }),
{
    reveal_with_fuel(struct_literal, 1);
    reveal_with_fuel(field_values, 1);
}

/// The definition of [`field_values`].
pub proof fn lemma_field_values(
    toks: Seq<Token>,
    pos: nat,
    depth: nat,
    found: Seq<(Seq<char>, ExprView)>,
)
    ensures
        field_values(toks, pos, depth, found) == ({
            if check(toks, pos, TokenKindView::RightBrace) || at_end(toks, pos) {
                done(found, pos, pos)
            } else {
                match kind_at(toks, pos) {
                    TokenKindView::Ident(name) => {
                        let value = if check(toks, pos + 1, TokenKindView::Colon) {
                            after(2, expression(toks, pos + 2, depth, true))
                        } else {
                            done(ExprView::Ident(name, span_at(toks, pos)), pos, pos + 1)
                        };
                        let p1 = pos + value.used;
                        match value.result {
                            Err(e) => failed(e, pos, p1),
                            Ok(x) => if check(toks, p1, TokenKindView::Comma) {
                                after(
                                    (p1 + 1 - pos) as nat,
                                    field_values(toks, p1 + 1, depth, found.push((name, x))),
                                )
                            } else {
                                done(found.push((name, x)), pos, p1)
                            },
                        }
                    },
                    _ => failed(unexpected(toks, pos, "Expected field name"@), pos, pos),
                }
            }
        }),
{
    reveal_with_fuel(field_values, 1);
    reveal_with_fuel(expression, 1);
}

/// The definition of [`parenthesized`].
pub proof fn lemma_parenthesized(toks: Seq<Token>, pos: nat, depth: nat, structs: bool)
    ensures
        parenthesized(toks, pos, depth, structs) == ({
            let start = span_at(toks, pos);
            if !(kind_at(toks, pos) is LeftParen) {
                failed(unexpected(toks, pos, "Expected '('"@), pos, pos)
            } else if check(toks, pos + 1, TokenKindView::RightParen) {
                done(
                    ExprView::TupleLit(Seq::empty(), start.merged(span_at(toks, pos + 1))),
                    pos,
                    pos + 2,
                )
            } else if check(toks, pos + 1, TokenKindView::BitwiseOr) || (kind_at(toks, pos + 1) is Ident
                && kind_at(toks, pos + 2) is Colon) {
                after(1, closure_from_paren(toks, pos + 1, depth, structs, start))
            } else {
                let first = expression(toks, pos + 1, depth, true);
                let p1 = pos + 1 + first.used;
                match first.result {
                    Err(e) => failed(e, pos, p1),
                    Ok(x) => if check(toks, p1, TokenKindView::Comma) {
                        let rest = arguments(toks, p1 + 1, depth, seq![x]);
                        let p2 = p1 + 1 + rest.used;
                        match rest.result {
                            Err(e) => failed(e, pos, p2),
                            Ok(all) => if check(toks, p2, TokenKindView::RightParen) {
                                done(
                                    ExprView::TupleLit(all, start.merged(span_at(toks, p2))),
                                    pos,
                                    p2 + 1,
                                )
                            } else {
                                failed(unexpected(toks, p2, "Expected ')' after tuple"@), pos, p2)
                            },
                        }
                    } else if check(toks, p1, TokenKindView::RightParen) {
                        done(x, pos, p1 + 1)
                    } else {
                        failed(unexpected(toks, p1, "Expected ')' after expression"@), pos, p1)
                    },
                }
            }
        }),
{
    reveal_with_fuel(parenthesized, 1);
    reveal_with_fuel(closure_from_paren, 1);
    reveal_with_fuel(expression, 1);
    reveal_with_fuel(arguments, 1);
}

/// The definition of [`array_literal`].
pub proof fn lemma_array_literal(toks: Seq<Token>, pos: nat, depth: nat)
    ensures
        array_literal(toks, pos, depth) == ({
            if !(kind_at(toks, pos) is LeftBracket) {
                failed(unexpected(toks, pos, "Expected '['"@), pos, pos)
            } else {
                let elements = array_elements(toks, pos + 1, depth, Seq::empty());
                let p1 = pos + 1 + elements.used;
                match elements.result {
                    Err(e) => failed(e, pos, p1),
                    Ok(all) => if check(toks, p1, TokenKindView::RightBracket) {
                        done(
                            ExprView::ArrayLit(all, span_at(toks, pos).merged(span_at(toks, p1))),
                            pos,
                            p1 + 1,
                        )
                    } else {
                        failed(unexpected(toks, p1, "Expected ']' after array elements"@), pos, p1)
                    },
                }
            }
        }),
{
    reveal_with_fuel(array_literal, 1);
    reveal_with_fuel(array_elements, 1);
}

/// The definition of [`array_elements`].
pub proof fn lemma_array_elements(toks: Seq<Token>, pos: nat, depth: nat, found: Seq<ExprView>)
    ensures
        array_elements(toks, pos, depth, found) == ({
            if check(toks, pos, TokenKindView::RightBracket) || at_end(toks, pos) {
                done(found, pos, pos)
            } else {
                let item = expression(toks, pos, depth, true);
                let p1 = pos + item.used;
                match item.result {
                    Err(e) => failed(e, pos, p1),
                    Ok(x) => if check(toks, p1, TokenKindView::Semicolon) {
                        match literal_count(kind_at(toks, p1 + 1)) {
                            Some(count) => done(
                                Seq::new(count, |i: int| found.push(x)[0]),
                                pos,
                                p1 + 2,
                            ),
                            None => failed(
                                plain_error(
                                    toks,
                                    p1 + 1,
                                    "Expected integer after ';' in array literal"@,
                                ),
                                pos,
                                p1 + 1,
                            ),
                        }
                    } else if check(toks, p1, TokenKindView::Comma) {
                        after(
                            (p1 + 1 - pos) as nat,
                            array_elements(toks, p1 + 1, depth, found.push(x)),
                        )
                    } else {
                        done(found.push(x), pos, p1)
                    },
                }
            }
        }),
{
    reveal_with_fuel(array_elements, 1);
    reveal_with_fuel(expression, 1);
}

/// The definition of [`if_expression`].
pub proof fn lemma_if_expression(toks: Seq<Token>, pos: nat, depth: nat)
    ensures
        if_expression(toks, pos, depth) == ({
            if !(kind_at(toks, pos) is If) {
                failed(unexpected(toks, pos, "Expected 'if'"@), pos, pos)
            } else {
                let cond = expression(toks, pos + 1, depth, false);
                let p1 = pos + 1 + cond.used;
                match cond.result {
                    Err(e) => failed(e, pos, p1),
                    Ok(c) => {
                        let then = block(toks, p1, depth);
                        let p2 = p1 + then.used;
                        match then.result {
                            Err(e) => failed(e, pos, p2),
                            Ok(t) => {
                                let other = optional(
                                    check(toks, p2, TokenKindView::Else),
                                    1,
                                    block(toks, p2 + 1, depth),
                                );
                                let p3 = p2 + other.used;
                                match other.result {
                                    Err(e) => failed(e, pos, p3),
                                    Ok(o) => done(
                                        ExprView::If(
                                            Box::new(c),
                                            t,
                                            o,
                                            span_at(toks, pos).merged(last_span(toks, p3)),
                                        ),
                                        pos,
                                        p3,
                                    ),
                                }
                            },
                        }
                    },
                }
            }
        }),
{
    reveal_with_fuel(if_expression, 1);
    reveal_with_fuel(expression, 1);
    reveal_with_fuel(block, 1);
}

/// The definition of [`while_expression`].
pub proof fn lemma_while_expression(toks: Seq<Token>, pos: nat, depth: nat)
    ensures
        while_expression(toks, pos, depth) == ({
            if !(kind_at(toks, pos) is While) {
                failed(unexpected(toks, pos, "Expected 'while'"@), pos, pos)
            } else {
                let cond = expression(toks, pos + 1, depth, false);
                let p1 = pos + 1 + cond.used;
                match cond.result {
                    Err(e) => failed(e, pos, p1),
                    Ok(c) => {
                        let body = block(toks, p1, depth + 1);
                        let p2 = p1 + body.used;
                        match body.result {
                            Err(e) => failed(e, pos, p2),
                            Ok(b) => done(
                                ExprView::While(
                                    Box::new(c),
                                    b,
                                    span_at(toks, pos).merged(last_span(toks, p2)),
                                ),
                                pos,
                                p2,
                            ),
                        }
                    },
                }
            }
        }),
{
    reveal_with_fuel(while_expression, 1);
    reveal_with_fuel(expression, 1);
    reveal_with_fuel(block, 1);
}

/// The definition of [`for_expression`].
pub proof fn lemma_for_expression(toks: Seq<Token>, pos: nat, depth: nat)
    ensures
        for_expression(toks, pos, depth) == ({
            if !(kind_at(toks, pos) is For) {
                failed(unexpected(toks, pos, "Expected 'for'"@), pos, pos)
            } else {
                let binding = pattern(toks, pos + 1);
                let p1 = pos + 1 + binding.used;
                match binding.result {
                    Err(e) => failed(e, pos, p1),
                    Ok(p) => if !check(toks, p1, TokenKindView::In) {
                        failed(unexpected(toks, p1, "Expected 'in' in for loop"@), pos, p1)
                    } else {
                        let iterable = expression(toks, p1 + 1, depth, false);
                        let p2 = p1 + 1 + iterable.used;
                        match iterable.result {
                            Err(e) => failed(e, pos, p2),
                            Ok(i) => {
                                let body = block(toks, p2, depth + 1);
                                let p3 = p2 + body.used;
                                match body.result {
                                    Err(e) => failed(e, pos, p3),
                                    Ok(b) => done(
                                        ExprView::For(
                                            p,
                                            Box::new(i),
                                            b,
                                            span_at(toks, pos).merged(last_span(toks, p3)),
                                        ),
                                        pos,
                                        p3,
                                    ),
                                }
                            },
                        }
                    },
                }
            }
        }),
{
    reveal_with_fuel(for_expression, 1);
    reveal_with_fuel(expression, 1);
    reveal_with_fuel(block, 1);
}

/// The definition of [`match_expression`].
pub proof fn lemma_match_expression(toks: Seq<Token>, pos: nat, depth: nat)
    ensures
        match_expression(toks, pos, depth) == ({
            if !(kind_at(toks, pos) is Match) {
                failed(unexpected(toks, pos, "Expected 'match'"@), pos, pos)
            } else {
                let scrutinee = expression(toks, pos + 1, depth, false);
                let p1 = pos + 1 + scrutinee.used;
                match scrutinee.result {
                    Err(e) => failed(e, pos, p1),
                    Ok(s) => if !check(toks, p1, TokenKindView::LeftBrace) {
                        failed(
                            unexpected(toks, p1, "Expected '{' after match expression"@),
                            pos,
                            p1,
                        )
                    } else {
                        let arms = match_arms(toks, p1 + 1, depth, false, Seq::empty());
                        let p2 = p1 + 1 + arms.used;
                        match arms.result {
                            Err(e) => failed(e, pos, p2),
                            Ok(all) => if check(toks, p2, TokenKindView::RightBrace) {
                                done(
                                    ExprView::Match(
                                        Box::new(s),
                                        all,
                                        span_at(toks, pos).merged(span_at(toks, p2)),
                                    ),
                                    pos,
                                    p2 + 1,
                                )
                            } else {
                                failed(
                                    unexpected(toks, p2, "Expected '}' after match arms"@),
                                    pos,
                                    p2,
                                )
                            },
                        }
                    },
                }
            }
        }),
{
    reveal_with_fuel(match_expression, 1);
    reveal_with_fuel(expression, 1);
    reveal_with_fuel(match_arms, 1);
}

/// The definition of [`arm_body`].
pub proof fn lemma_arm_body(toks: Seq<Token>, pos: nat, depth: nat, in_statement: bool)
    ensures
        arm_body(toks, pos, depth, in_statement) == ({
            if in_statement && check(toks, pos, TokenKindView::LeftBrace) {
                let body = block(toks, pos, depth);
                match body.result {
                    Err(e) => failed(e, pos, pos + body.used),
                    Ok(b) => done(ExprView::Block(b, b.span), pos, pos + body.used),
                }
            } else {
                expression(toks, pos, depth, true)
            }
        }),
{
    reveal_with_fuel(arm_body, 1);
    reveal_with_fuel(block, 1);
    reveal_with_fuel(expression, 1);
}

/// The definition of [`match_arm`].
pub proof fn lemma_match_arm(toks: Seq<Token>, pos: nat, depth: nat, in_statement: bool)
    ensures
        match_arm(toks, pos, depth, in_statement) == ({
            let binding = pattern(toks, pos);
            let p1 = pos + binding.used;
            match binding.result {
                Err(e) => failed(e, pos, p1),
                Ok(p) => {
                    let guard = optional(
                        check(toks, p1, TokenKindView::If),
                        1,
                        expression(toks, p1 + 1, depth, true),
                    );
                    let p2 = p1 + guard.used;
                    match guard.result {
                        Err(e) => failed(e, pos, p2),
                        Ok(g) => if !check(toks, p2, TokenKindView::FatArrow) {
                            failed(
                                unexpected(
                                    toks,
                                    p2,
                                    if in_statement {
                                        "Expected '=>' after match pattern"@
                                    } else {
                                        "Expected '=>' in match arm"@
                                    },
                                ),
                                pos,
                                p2,
                            )
                        } else {
                            let body = arm_body(toks, p2 + 1, depth, in_statement);
                            let p3 = p2 + 1 + body.used;
                            match body.result {
                                Err(e) => failed(e, pos, p3),
                                Ok(b) => done(
                                    MatchArmView {
                                        pattern: p,
                                        guard: g,
                                        body: b,
                                        span: span_at(toks, pos).merged(last_span(toks, p3)),
                                    },
                                    pos,
                                    p3,
                                ),
                            }
                        },
                    }
                },
            }
        }),
{
    reveal_with_fuel(match_arm, 1);
    reveal_with_fuel(expression, 1);
    reveal_with_fuel(arm_body, 1);
}

/// The definition of [`match_arms`].
pub proof fn lemma_match_arms(
    toks: Seq<Token>,
    pos: nat,
    depth: nat,
    in_statement: bool,
    found: Seq<MatchArmView>,
)
    ensures
        match_arms(toks, pos, depth, in_statement, found) == ({
            if check(toks, pos, TokenKindView::RightBrace) || at_end(toks, pos) {
                done(found, pos, pos)
            } else {
                let arm = match_arm(toks, pos, depth, in_statement);
                let p1 = pos + arm.used;
                match arm.result {
                    Err(e) => failed(e, pos, p1),
                    Ok(a) => if check(toks, p1, TokenKindView::Comma) {
                        after(
                            (p1 + 1 - pos) as nat,
                            match_arms(toks, p1 + 1, depth, in_statement, found.push(a)),
                        )
                    } else {
                        done(found.push(a), pos, p1)
                    },
                }
            }
        }),
{
    reveal_with_fuel(match_arms, 1);
    reveal_with_fuel(match_arm, 1);
}

/// The definition of [`break_expression`].
pub proof fn lemma_break_expression(toks: Seq<Token>, pos: nat, depth: nat, structs: bool)
    ensures
        break_expression(toks, pos, depth, structs) == ({
            if !(kind_at(toks, pos) is Break) {
                failed(unexpected(toks, pos, "Expected 'break'"@), pos, pos)
            } else if depth == 0 {
                failed(outside_loop(toks, pos, "break outside of loop"@), pos, pos + 1)
            } else {
                let label = label_at(toks, pos + 1);
                let p1 = after_label(toks, pos + 1);
                let value = optional(
                    !check(toks, p1, TokenKindView::Semicolon) && !check(
                        toks,
                        p1,
                        TokenKindView::RightBrace,
                    ) && !check(toks, p1, TokenKindView::Comma),
                    0,
                    expression(toks, p1, depth, structs),
                );
                let p2 = p1 + value.used;
                match value.result {
                    Err(e) => failed(e, pos, p2),
                    Ok(v) => done(
                        ExprView::Break(
                            label,
                            match v {
                                Some(x) => Some(Box::new(x)),
                                None => None,
                            },
                            span_at(toks, pos).merged(last_span(toks, p2)),
                        ),
                        pos,
                        p2,
                    ),
                }
            }
        }),
{
    reveal_with_fuel(break_expression, 1);
    reveal_with_fuel(expression, 1);
}

/// The definition of [`continue_expression`].
pub proof fn lemma_continue_expression(toks: Seq<Token>, pos: nat, depth: nat)
    ensures
        continue_expression(toks, pos, depth) == ({
            if !(kind_at(toks, pos) is Continue) {
                failed(unexpected(toks, pos, "Expected 'continue'"@), pos, pos)
            } else if depth == 0 {
                failed(outside_loop(toks, pos, "continue outside of loop"@), pos, pos + 1)
            } else {
                let p1 = after_label(toks, pos + 1);
                done(
                    ExprView::Continue(
                        label_at(toks, pos + 1),
                        span_at(toks, pos).merged(last_span(toks, p1)),
                    ),
                    pos,
                    p1,
                )
            }
        }),
{
    reveal_with_fuel(continue_expression, 1);
}

/// The definition of [`return_expression`].
pub proof fn lemma_return_expression(toks: Seq<Token>, pos: nat, depth: nat, structs: bool)
    ensures
        return_expression(toks, pos, depth, structs) == ({
            if !(kind_at(toks, pos) is Return) {
                failed(unexpected(toks, pos, "Expected 'return'"@), pos, pos)
            } else {
                let value = optional(
                    !check(toks, pos + 1, TokenKindView::Semicolon) && !check(
                        toks,
                        pos + 1,
                        TokenKindView::RightBrace,
                    ),
                    0,
                    expression(toks, pos + 1, depth, structs),
                );
                let p2 = pos + 1 + value.used;
                match value.result {
                    Err(e) => failed(e, pos, p2),
                    Ok(v) => done(
                        ExprView::Return(
                            match v {
                                Some(x) => Some(Box::new(x)),
                                None => None,
                            },
                            span_at(toks, pos).merged(last_span(toks, p2)),
                        ),
                        pos,
                        p2,
                    ),
                }
            }
        }),
{
    reveal_with_fuel(return_expression, 1);
    reveal_with_fuel(expression, 1);
}

/// The definition of [`parameters`].
pub proof fn lemma_parameters(toks: Seq<Token>, pos: nat, found: Seq<ParameterView>)
    ensures
        parameters(toks, pos, found) == ({
            if check(toks, pos, TokenKindView::RightParen) || at_end(toks, pos) {
                done(found, pos, pos)
            } else {
                let item = parameter(toks, pos);
                let p1 = pos + item.used;
                match item.result {
                    Err(e) => failed(e, pos, p1),
                    Ok(x) => if check(toks, p1, TokenKindView::Comma) {
                        after((p1 + 1 - pos) as nat, parameters(toks, p1 + 1, found.push(x)))
                    } else {
                        done(found.push(x), pos, p1)
                    },
                }
            }
        }),
{
    reveal_with_fuel(parameters, 1);
}

/// The definition of [`closure_parameters`].
pub proof fn lemma_closure_parameters(toks: Seq<Token>, pos: nat, found: Seq<ParameterView>)
    ensures
        closure_parameters(toks, pos, found) == ({
            if check(toks, pos, TokenKindView::BitwiseOr) || at_end(toks, pos) {
                done(found, pos, pos)
            } else {
                let item = closure_parameter(toks, pos);
                let p1 = pos + item.used;
                match item.result {
                    Err(e) => failed(e, pos, p1),
                    Ok(x) => if check(toks, p1, TokenKindView::Comma) {
                        after(
                            (p1 + 1 - pos) as nat,
                            closure_parameters(toks, p1 + 1, found.push(x)),
                        )
                    } else {
                        done(found.push(x), pos, p1)
                    },
                }
            }
        }),
{
    reveal_with_fuel(closure_parameters, 1);
}

/// The definition of [`closure`].
pub proof fn lemma_closure(toks: Seq<Token>, pos: nat, depth: nat, structs: bool)
    ensures
        closure(toks, pos, depth, structs) == ({
            if !check(toks, pos, TokenKindView::BitwiseOr) {
                failed(unexpected(toks, pos, "Expected '|' to start closure"@), pos, pos)
            } else {
                let params = closure_parameters(toks, pos + 1, Seq::empty());
                let p1 = pos + 1 + params.used;
                match params.result {
                    Err(e) => failed(e, pos, p1),
                    Ok(all) => if !check(toks, p1, TokenKindView::BitwiseOr) {
                        failed(
                            unexpected(toks, p1, "Expected '|' after closure parameters"@),
                            pos,
                            p1,
                        )
                    } else {
                        after(
                            (p1 + 1 - pos) as nat,
                            closure_tail(toks, p1 + 1, depth, structs, span_at(toks, pos), all),
                        )
                    },
                }
            }
        }),
{
    reveal_with_fuel(closure, 1);
    reveal_with_fuel(closure_parameters, 1);
    reveal_with_fuel(closure_tail, 1);
}

/// The definition of [`closure_from_paren`].
pub proof fn lemma_closure_from_paren(
    toks: Seq<Token>,
    pos: nat,
    depth: nat,
    structs: bool,
    start: Span,
)
    ensures
        closure_from_paren(toks, pos, depth, structs, start) == ({
            let params = parameters(toks, pos, Seq::empty());
            let p1 = pos + params.used;
            match params.result {
                Err(e) => failed(e, pos, p1),
                Ok(all) => if !check(toks, p1, TokenKindView::RightParen) {
                    failed(unexpected(toks, p1, "Expected ')' after closure parameters"@), pos, p1)
                } else {
                    after(
                        (p1 + 1 - pos) as nat,
                        closure_tail(toks, p1 + 1, depth, structs, start, all),
                    )
                },
            }
        }),
{
    reveal_with_fuel(closure_from_paren, 1);
    reveal_with_fuel(parameters, 1);
    reveal_with_fuel(closure_tail, 1);
}

/// The definition of [`closure_tail`].
pub proof fn lemma_closure_tail(
    toks: Seq<Token>,
    pos: nat,
    depth: nat,
    structs: bool,
    start: Span,
    params: Seq<ParameterView>,
)
    ensures
        closure_tail(toks, pos, depth, structs, start, params) == ({
            let ret = optional(check(toks, pos, TokenKindView::Arrow), 1, type_(toks, pos + 1));
            let p1 = pos + ret.used;
            match ret.result {
                Err(e) => failed(e, pos, p1),
                Ok(r) => {
                    let body = expression(toks, p1, depth, structs);
                    let p2 = p1 + body.used;
                    match body.result {
                        Err(e) => failed(e, pos, p2),
                        Ok(b) => done(
                            ExprView::Closure(
                                params,
                                r,
                                Box::new(b),
                                start.merged(last_span(toks, p2)),
                            ),
                            pos,
                            p2,
                        ),
                    }
                },
            }
        }),
{
    reveal_with_fuel(closure_tail, 1);
    reveal_with_fuel(expression, 1);
}

/// The definition of [`block`].
pub proof fn lemma_block(toks: Seq<Token>, pos: nat, depth: nat)
    ensures
        block(toks, pos, depth) == ({
            if !check(toks, pos, TokenKindView::LeftBrace) {
                failed(unexpected(toks, pos, "Expected '{'"@), pos, pos)
            } else {
                let body = statements(toks, pos + 1, depth, Seq::empty());
                let p1 = pos + 1 + body.used;
                match body.result {
                    Err(e) => failed(e, pos, p1),
                    Ok(all) => if check(toks, p1, TokenKindView::RightBrace) {
                        done(
                            BlockView { statements: all, span: span_at(toks, pos).merged(span_at(toks, p1)) },
                            pos,
                            p1 + 1,
                        )
                    } else {
                        failed(unexpected(toks, p1, "Expected '}'"@), pos, p1)
                    },
                }
            }
        }),
{
    reveal_with_fuel(block, 1);
    reveal_with_fuel(statements, 1);
}

/// The definition of [`statements`].
pub proof fn lemma_statements(toks: Seq<Token>, pos: nat, depth: nat, found: Seq<StatementView>)
    ensures
        statements(toks, pos, depth, found) == ({
            if check(toks, pos, TokenKindView::RightBrace) || at_end(toks, pos) {
                done(found, pos, pos)
            } else {
                let item = statement(toks, pos, depth);
                let p1 = pos + item.used;
                match item.result {
                    Err(e) => failed(e, pos, p1),
                    Ok(s) => if item.used == 0 {
                        done(found.push(s), pos, pos)
                    } else {
                        after(item.used, statements(toks, p1, depth, found.push(s)))
                    },
                }
            }
        }),
{
    reveal_with_fuel(statements, 1);
    reveal_with_fuel(statement, 1);
}

/// The definition of [`statement`].
pub proof fn lemma_statement(toks: Seq<Token>, pos: nat, depth: nat)
    ensures
        statement(toks, pos, depth) == ({
            match kind_at(toks, pos) {
                TokenKindView::Let => {
                    let s = let_statement(toks, pos, depth);
                    match s.result {
                        Err(e) => failed(e, pos, pos + s.used),
                        Ok(x) => done(StatementView::Let(x), pos, pos + s.used),
                    }
                },
                TokenKindView::Return => {
                    let s = return_statement(toks, pos, depth);
                    match s.result {
                        Err(e) => failed(e, pos, pos + s.used),
                        Ok(x) => done(StatementView::Return(x), pos, pos + s.used),
                    }
                },
                TokenKindView::If => {
                    let s = if_statement(toks, pos, depth);
                    match s.result {
                        Err(e) => failed(e, pos, pos + s.used),
                        Ok(x) => done(StatementView::If(x), pos, pos + s.used),
                    }
                },
                TokenKindView::While => {
                    let s = while_statement(toks, pos, depth);
                    match s.result {
                        Err(e) => failed(e, pos, pos + s.used),
                        Ok(x) => done(StatementView::While(x), pos, pos + s.used),
                    }
                },
                TokenKindView::For => {
                    let s = for_statement(toks, pos, depth);
                    match s.result {
                        Err(e) => failed(e, pos, pos + s.used),
                        Ok(x) => done(StatementView::For(x), pos, pos + s.used),
                    }
                },
                TokenKindView::Match => {
                    let s = match_statement(toks, pos, depth);
                    match s.result {
                        Err(e) => failed(e, pos, pos + s.used),
                        Ok(x) => done(StatementView::Match(x), pos, pos + s.used),
                    }
                },
                TokenKindView::Break => {
                    let s = break_statement(toks, pos, depth);
                    match s.result {
                        Err(e) => failed(e, pos, pos + s.used),
                        Ok(x) => done(StatementView::Break(x), pos, pos + s.used),
                    }
                },
                TokenKindView::Continue => {
                    let s = continue_statement(toks, pos, depth);
                    match s.result {
                        Err(e) => failed(e, pos, pos + s.used),
                        Ok(x) => done(StatementView::Continue(x), pos, pos + s.used),
                    }
                },
                TokenKindView::LeftBrace => {
                    let s = block(toks, pos, depth);
                    match s.result {
                        Err(e) => failed(e, pos, pos + s.used),
                        Ok(x) => done(StatementView::Block(x), pos, pos + s.used),
                    }
                },
                _ => {
                    let value = expression(toks, pos, depth, true);
                    let p1 = pos + value.used;
                    match value.result {
                        Err(e) => failed(e, pos, p1),
                        Ok(x) => done(
                            StatementView::Expr(
                                ExprStmtView {
                                    expr: x,
                                    semicolon: check(toks, p1, TokenKindView::Semicolon),
                                    span: x.span(),
                                },
                            ),
                            pos,
                            skip(toks, p1, TokenKindView::Semicolon),
                        ),
                    }
                },
            }
        }),
{
    reveal_with_fuel(statement, 1);
    reveal_with_fuel(let_statement, 1);
    reveal_with_fuel(return_statement, 1);
    reveal_with_fuel(if_statement, 1);
    reveal_with_fuel(while_statement, 1);
    reveal_with_fuel(for_statement, 1);
    reveal_with_fuel(match_statement, 1);
    reveal_with_fuel(break_statement, 1);
    reveal_with_fuel(block, 1);
    reveal_with_fuel(expression, 1);
}

/// The definition of [`let_statement`].
pub proof fn lemma_let_statement(toks: Seq<Token>, pos: nat, depth: nat)
    ensures
        let_statement(toks, pos, depth) == ({
            if !check(toks, pos, TokenKindView::Let) {
                failed(unexpected(toks, pos, "Expected 'let'"@), pos, pos)
            } else {
                let mutable = check(toks, pos + 1, TokenKindView::Mut);
                let p1 = skip(toks, pos + 1, TokenKindView::Mut);
                let binding = pattern(toks, p1);
                let p2 = p1 + binding.used;
                match binding.result {
                    Err(e) => failed(e, pos, p2),
                    Ok(p) => {
                        let ty = optional(
                            check(toks, p2, TokenKindView::Colon),
                            1,
                            type_(toks, p2 + 1),
                        );
                        let p3 = p2 + ty.used;
                        match ty.result {
                            Err(e) => failed(e, pos, p3),
                            Ok(t) => {
                                let init = optional(
                                    check(toks, p3, TokenKindView::Assign),
                                    1,
                                    expression(toks, p3 + 1, depth, true),
                                );
                                let p4 = p3 + init.used;
                                match init.result {
                                    Err(e) => failed(e, pos, p4),
                                    Ok(i) => if check(toks, p4, TokenKindView::Semicolon) {
                                        done(
                                            LetStmtView {
                                                pattern: p,
                                                ty: t,
                                                init: i,
                                                mutable,
                                                span: span_at(toks, pos).merged(span_at(toks, p4)),
                                            },
                                            pos,
                                            p4 + 1,
                                        )
                                    } else {
                                        failed(
                                            unexpected(
                                                toks,
                                                p4,
                                                "Expected ';' after let statement"@,
                                            ),
                                            pos,
                                            p4,
                                        )
                                    },
                                }
                            },
                        }
                    },
                }
            }
        }),
{
    reveal_with_fuel(let_statement, 1);
    reveal_with_fuel(expression, 1);
}

/// The definition of [`return_statement`].
pub proof fn lemma_return_statement(toks: Seq<Token>, pos: nat, depth: nat)
    ensures
        return_statement(toks, pos, depth) == ({
            if !check(toks, pos, TokenKindView::Return) {
                failed(unexpected(toks, pos, "Expected 'return'"@), pos, pos)
            } else {
                let value = optional(
                    !check(toks, pos + 1, TokenKindView::Semicolon),
                    0,
                    expression(toks, pos + 1, depth, true),
                );
                let p1 = pos + 1 + value.used;
                match value.result {
                    Err(e) => failed(e, pos, p1),
                    Ok(v) => if check(toks, p1, TokenKindView::Semicolon) {
                        done(
                            ReturnStmtView { expr: v, span: span_at(toks, pos).merged(span_at(toks, p1)) },
                            pos,
                            p1 + 1,
                        )
                    } else {
                        failed(
                            unexpected(toks, p1, "Expected ';' after return statement"@),
                            pos,
                            p1,
                        )
                    },
                }
            }
        }),
{
    reveal_with_fuel(return_statement, 1);
    reveal_with_fuel(expression, 1);
}

/// The definition of [`if_statement`].
pub proof fn lemma_if_statement(toks: Seq<Token>, pos: nat, depth: nat)
    ensures
        if_statement(toks, pos, depth) == ({
            if !check(toks, pos, TokenKindView::If) {
                failed(unexpected(toks, pos, "Expected 'if'"@), pos, pos)
            } else {
                let cond = expression(toks, pos + 1, depth, false);
                let p1 = pos + 1 + cond.used;
                match cond.result {
                    Err(e) => failed(e, pos, p1),
                    Ok(c) => {
                        let then = block(toks, p1, depth);
                        let p2 = p1 + then.used;
                        match then.result {
                            Err(e) => failed(e, pos, p2),
                            Ok(t) => if !check(toks, p2, TokenKindView::Else) {
                                done(
                                    IfStmtView {
                                        cond: c,
                                        then_block: t,
                                        else_block: None,
                                        span: span_at(toks, pos).merged(last_span(toks, p2)),
                                    },
                                    pos,
                                    p2,
                                )
                            } else if check(toks, p2 + 1, TokenKindView::If) {
                                let nested = if_statement(toks, p2 + 1, depth);
                                let p3 = p2 + 1 + nested.used;
                                match nested.result {
                                    Err(e) => failed(e, pos, p3),
                                    Ok(n) => done(
                                        IfStmtView {
                                            cond: c,
                                            then_block: t,
                                            else_block: Some(
                                                BlockView {
                                                    statements: seq![StatementView::If(n)],
                                                    span: last_span(toks, p3),
                                                },
                                            ),
                                            span: span_at(toks, pos).merged(last_span(toks, p3)),
                                        },
                                        pos,
                                        p3,
                                    ),
                                }
                            } else {
                                let other = block(toks, p2 + 1, depth);
                                let p3 = p2 + 1 + other.used;
                                match other.result {
                                    Err(e) => failed(e, pos, p3),
                                    Ok(o) => done(
                                        IfStmtView {
                                            cond: c,
                                            then_block: t,
                                            else_block: Some(o),
                                            span: span_at(toks, pos).merged(last_span(toks, p3)),
                                        },
                                        pos,
                                        p3,
                                    ),
                                }
                            },
                        }
                    },
                }
            }
        }),
{
    reveal_with_fuel(if_statement, 1);
    reveal_with_fuel(expression, 1);
    reveal_with_fuel(block, 1);
}

/// The definition of [`while_statement`].
pub proof fn lemma_while_statement(toks: Seq<Token>, pos: nat, depth: nat)
    ensures
        while_statement(toks, pos, depth) == ({
            if !check(toks, pos, TokenKindView::While) {
                failed(unexpected(toks, pos, "Expected 'while'"@), pos, pos)
            } else {
                let cond = expression(toks, pos + 1, depth, false);
                let p1 = pos + 1 + cond.used;
                match cond.result {
                    Err(e) => failed(e, pos, p1),
                    Ok(c) => {
                        let body = block(toks, p1, depth + 1);
                        let p2 = p1 + body.used;
                        match body.result {
                            Err(e) => failed(e, pos, p2),
                            Ok(b) => done(
                                WhileStmtView {
                                    cond: c,
                                    body: b,
                                    span: span_at(toks, pos).merged(last_span(toks, p2)),
                                },
                                pos,
                                p2,
                            ),
                        }
                    },
                }
            }
        }),
{
    reveal_with_fuel(while_statement, 1);
    reveal_with_fuel(expression, 1);
    reveal_with_fuel(block, 1);
}

/// The definition of [`for_statement`].
pub proof fn lemma_for_statement(toks: Seq<Token>, pos: nat, depth: nat)
    ensures
        for_statement(toks, pos, depth) == ({
            if !check(toks, pos, TokenKindView::For) {
                failed(unexpected(toks, pos, "Expected 'for'"@), pos, pos)
            } else {
                let binding = pattern(toks, pos + 1);
                let p1 = pos + 1 + binding.used;
                match binding.result {
                    Err(e) => failed(e, pos, p1),
                    Ok(p) => if !check(toks, p1, TokenKindView::In) {
                        failed(
                            unexpected(toks, p1, "Expected 'in' after for loop variable"@),
                            pos,
                            p1,
                        )
                    } else {
                        let iterable = expression(toks, p1 + 1, depth, false);
                        let p2 = p1 + 1 + iterable.used;
                        match iterable.result {
                            Err(e) => failed(e, pos, p2),
                            Ok(i) => {
                                let body = block(toks, p2, depth + 1);
                                let p3 = p2 + body.used;
                                match body.result {
                                    Err(e) => failed(e, pos, p3),
                                    Ok(b) => done(
                                        ForStmtView {
                                            pattern: p,
                                            iterable: i,
                                            body: b,
                                            span: span_at(toks, pos).merged(last_span(toks, p3)),
                                        },
                                        pos,
                                        p3,
                                    ),
                                }
                            },
                        }
                    },
                }
            }
        }),
{
    reveal_with_fuel(for_statement, 1);
    reveal_with_fuel(expression, 1);
    reveal_with_fuel(block, 1);
}

/// The definition of [`match_statement`].
pub proof fn lemma_match_statement(toks: Seq<Token>, pos: nat, depth: nat)
    ensures
        match_statement(toks, pos, depth) == ({
            if !check(toks, pos, TokenKindView::Match) {
                failed(unexpected(toks, pos, "Expected 'match'"@), pos, pos)
            } else {
                let scrutinee = expression(toks, pos + 1, depth, false);
                let p1 = pos + 1 + scrutinee.used;
                match scrutinee.result {
                    Err(e) => failed(e, pos, p1),
                    Ok(s) => if !check(toks, p1, TokenKindView::LeftBrace) {
                        failed(
                            unexpected(toks, p1, "Expected '{' after match expression"@),
                            pos,
                            p1,
                        )
                    } else {
                        let arms = match_arms(toks, p1 + 1, depth, true, Seq::empty());
                        let p2 = p1 + 1 + arms.used;
                        match arms.result {
                            Err(e) => failed(e, pos, p2),
                            Ok(all) => if check(toks, p2, TokenKindView::RightBrace) {
                                done(
                                    MatchStmtView {
                                        expr: s,
                                        arms: all,
                                        span: span_at(toks, pos).merged(span_at(toks, p2)),
                                    },
                                    pos,
                                    p2 + 1,
                                )
                            } else {
                                failed(
                                    unexpected(toks, p2, "Expected '}' after match arms"@),
                                    pos,
                                    p2,
                                )
                            },
                        }
                    },
                }
            }
        }),
{
    reveal_with_fuel(match_statement, 1);
    reveal_with_fuel(expression, 1);
    reveal_with_fuel(match_arms, 1);
}

/// The definition of [`break_statement`].
pub proof fn lemma_break_statement(toks: Seq<Token>, pos: nat, depth: nat)
    ensures
        break_statement(toks, pos, depth) == ({
            if !check(toks, pos, TokenKindView::Break) {
                failed(unexpected(toks, pos, "Expected 'break'"@), pos, pos)
            } else if depth == 0 {
                failed(
                    statement_outside_loop(
                        toks,
                        pos,
                        "break statement outside of loop"@,
                        "break can only be used inside while or for loops"@,
                    ),
                    pos,
                    pos + 1,
                )
            } else {
                let label = label_at(toks, pos + 1);
                let p1 = after_label(toks, pos + 1);
                let value = optional(
                    !check(toks, p1, TokenKindView::Semicolon),
                    0,
                    expression(toks, p1, depth, true),
                );
                let p2 = p1 + value.used;
                match value.result {
                    Err(e) => failed(e, pos, p2),
                    Ok(v) => if check(toks, p2, TokenKindView::Semicolon) {
                        done(
                            BreakStmtView {
                                label,
                                expr: v,
                                span: span_at(toks, pos).merged(span_at(toks, p2)),
                            },
                            pos,
                            p2 + 1,
                        )
                    } else {
                        failed(unexpected(toks, p2, "Expected ';' after break statement"@), pos, p2)
                    },
                }
            }
        }),
{
    reveal_with_fuel(break_statement, 1);
    reveal_with_fuel(expression, 1);
}

} // verus!
