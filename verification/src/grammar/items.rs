//! The grammar of declarations and of a whole program, with the recovery
//! after an error.

use vstd::prelude::*;
use crate::ast::model::{
    ConstDefView, EnumDefView, EnumVariantView, ExportStmtView, FieldView, FunctionView,
    GenericParamView, GenericsView, ImportStmtView, ItemView, ProgramView, StaticDefView,
    StructDefView, TypeView,
};
use crate::ast::Visibility;
use crate::grammar::expressions::{expression, parameters};
use crate::grammar::statements::block;
use crate::grammar::types::{type_, type_list};
use crate::grammar::{
    after, at_end, check, done, failed, ident, kind_at, last_span, optional, remaining, skip,
    span_at, unexpected, ParseErrorView, Step,
};
use crate::span::Span;
use crate::token::{Token, TokenKindView};

verus! {

/// The visibility that an optional `pub` at `pos` gives.
pub open spec fn visibility_at(toks: Seq<Token>, pos: nat) -> Visibility {
    if check(toks, pos, TokenKindView::Pub) {
        Visibility::Public
    } else {
        Visibility::Private
    }
}

/// Names, each after a token of the variant of `separator`; `message` is
/// the error for a separator that no name follows. `found` holds the names
/// read so far.
pub open spec fn more_names(
    toks: Seq<Token>,
    pos: nat,
    separator: TokenKindView,
    message: Seq<char>,
    found: Seq<Seq<char>>,
) -> Step<Seq<Seq<char>>>
    decreases remaining(toks, pos),
{
    if !check(toks, pos, separator) {
        done(found, pos, pos)
    } else {
        let name = ident(toks, pos + 1, message);
        let p1 = pos + 1 + name.used;
        match name.result {
            Err(e) => failed(e, pos, p1),
            Ok(n) => after((p1 - pos) as nat, more_names(toks, p1, separator, message, found.push(n))),
        }
    }
}

/// The bounds of a generic parameter: nothing, or `: Bound + Bound ...`.
#[verifier::opaque]
pub open spec fn bounds(toks: Seq<Token>, pos: nat) -> Step<Seq<Seq<char>>> {
    if !check(toks, pos, TokenKindView::Colon) {
        done(Seq::empty(), pos, pos)
    } else {
        let first = ident(toks, pos + 1, "Expected trait bound"@);
        let p1 = pos + 1 + first.used;
        match first.result {
            Err(e) => failed(e, pos, p1),
            Ok(n) => after(
                (p1 - pos) as nat,
                more_names(
                    toks,
                    p1,
                    TokenKindView::Plus,
                    "Expected trait bound after '+'"@,
                    seq![n],
                ),
            ),
        }
    }
}

/// A generic parameter: a name with its bounds.
#[verifier::opaque]
pub open spec fn generic_param(toks: Seq<Token>, pos: nat) -> Step<GenericParamView> {
    let name = ident(toks, pos, "Expected generic parameter name"@);
    let p1 = pos + name.used;
    match name.result {
        Err(e) => failed(e, pos, p1),
        Ok(n) => {
            let limits = bounds(toks, p1);
            let p2 = p1 + limits.used;
            match limits.result {
                Err(e) => failed(e, pos, p2),
                Ok(b) => done(
                    GenericParamView {
                        name: n,
                        bounds: b,
                        span: span_at(toks, pos).merged(last_span(toks, p2)),
                    },
                    pos,
                    p2,
                ),
            }
        },
    }
}

/// Generic parameters separated by commas, up to a `>` or the end of the
/// input; a comma may follow the last one. `found` holds the parameters
/// read so far.
pub open spec fn generic_params(toks: Seq<Token>, pos: nat, found: Seq<GenericParamView>) -> Step<
    Seq<GenericParamView>,
>
    decreases remaining(toks, pos),
{
    if check(toks, pos, TokenKindView::Greater) || at_end(toks, pos) {
        done(found, pos, pos)
    } else {
        let item = generic_param(toks, pos);
        let p1 = pos + item.used;
        match item.result {
            Err(e) => failed(e, pos, p1),
            Ok(x) => if check(toks, p1, TokenKindView::Comma) {
                after((p1 + 1 - pos) as nat, generic_params(toks, p1 + 1, found.push(x)))
            } else {
                done(found.push(x), pos, p1)
            },
        }
    }
}

/// The generic parameters of a declaration, after their `<`: the
/// parameters and the closing `>`.
#[verifier::opaque]
pub open spec fn generics(toks: Seq<Token>, pos: nat) -> Step<GenericsView> {
    let params = generic_params(toks, pos, Seq::empty());
    let p1 = pos + params.used;
    match params.result {
        Err(e) => failed(e, pos, p1),
        Ok(all) => if check(toks, p1, TokenKindView::Greater) {
            done(
                GenericsView { params: all, span: span_at(toks, pos).merged(span_at(toks, p1)) },
                pos,
                p1 + 1,
            )
        } else {
            failed(unexpected(toks, p1, "Expected '>' after generic parameters"@), pos, p1)
        },
    }
}

/// The generic parameters that may follow the name of a declaration:
/// `<parameters>`, or nothing.
#[verifier::opaque]
pub open spec fn optional_generics(toks: Seq<Token>, pos: nat) -> Step<Option<GenericsView>> {
    optional(check(toks, pos, TokenKindView::Less), 1, generics(toks, pos + 1))
}

/// A function `fn name<generics>(parameters) -> Type block`, at its `fn`;
/// the generics and the return type are optional.
#[verifier::opaque]
pub open spec fn function(toks: Seq<Token>, pos: nat, depth: nat, visibility: Visibility) -> Step<
    FunctionView,
> {
    if !check(toks, pos, TokenKindView::Fn) {
        failed(unexpected(toks, pos, "Expected 'fn'"@), pos, pos)
    } else {
        let name = ident(toks, pos + 1, "Expected function name"@);
        let p1 = pos + 1 + name.used;
        match name.result {
            Err(e) => failed(e, pos, p1),
            Ok(n) => {
                let gen = optional_generics(toks, p1);
                let p2 = p1 + gen.used;
                match gen.result {
                    Err(e) => failed(e, pos, p2),
                    Ok(g) => if !check(toks, p2, TokenKindView::LeftParen) {
                        failed(unexpected(toks, p2, "Expected '(' after function name"@), pos, p2)
                    } else {
                        let params = parameters(toks, p2 + 1, Seq::empty());
                        let p3 = p2 + 1 + params.used;
                        match params.result {
                            Err(e) => failed(e, pos, p3),
                            Ok(ps) => if !check(toks, p3, TokenKindView::RightParen) {
                                failed(
                                    unexpected(toks, p3, "Expected ')' after parameters"@),
                                    pos,
                                    p3,
                                )
                            } else {
                                let ret = optional(
                                    check(toks, p3 + 1, TokenKindView::Arrow),
                                    1,
                                    type_(toks, p3 + 2),
                                );
                                let p4 = p3 + 1 + ret.used;
                                match ret.result {
                                    Err(e) => failed(e, pos, p4),
                                    Ok(r) => {
                                        let body = block(toks, p4, depth);
                                        let p5 = p4 + body.used;
                                        match body.result {
                                            Err(e) => failed(e, pos, p5),
                                            Ok(b) => done(
                                                FunctionView {
                                                    visibility,
                                                    name: n,
                                                    generics: g,
                                                    params: ps,
                                                    return_type: r,
                                                    body: b,
                                                    span: span_at(toks, pos).merged(
                                                        last_span(toks, p5),
                                                    ),
                                                },
                                                pos,
                                                p5,
                                            ),
                                        }
                                    },
                                }
                            },
                        }
                    },
                }
            },
        }
    }
}

/// A field of a struct: `name: Type`, after an optional `pub`. Its span is
/// that of the last token of its type.
#[verifier::opaque]
pub open spec fn field(toks: Seq<Token>, pos: nat) -> Step<FieldView> {
    let p0 = skip(toks, pos, TokenKindView::Pub);
    let name = ident(toks, p0, "Expected field name"@);
    let p1 = p0 + name.used;
    match name.result {
        Err(e) => failed(e, pos, p1),
        Ok(n) => if !check(toks, p1, TokenKindView::Colon) {
            failed(unexpected(toks, p1, "Expected ':' after field name"@), pos, p1)
        } else {
            let ty = type_(toks, p1 + 1);
            let p2 = p1 + 1 + ty.used;
            match ty.result {
                Err(e) => failed(e, pos, p2),
                Ok(t) => done(
                    FieldView {
                        visibility: visibility_at(toks, pos),
                        name: n,
                        ty: t,
                        span: last_span(toks, p2),
                    },
                    pos,
                    p2,
                ),
            }
        },
    }
}

/// Fields separated by commas, up to a `}` or the end of the input; a comma
/// may follow the last one. `found` holds the fields read so far.
pub open spec fn fields(toks: Seq<Token>, pos: nat, found: Seq<FieldView>) -> Step<Seq<FieldView>>
    decreases remaining(toks, pos),
{
    if check(toks, pos, TokenKindView::RightBrace) || at_end(toks, pos) {
        done(found, pos, pos)
    } else {
        let item = field(toks, pos);
        let p1 = pos + item.used;
        match item.result {
            Err(e) => failed(e, pos, p1),
            Ok(x) => if check(toks, p1, TokenKindView::Comma) {
                after((p1 + 1 - pos) as nat, fields(toks, p1 + 1, found.push(x)))
            } else {
                done(found.push(x), pos, p1)
            },
        }
    }
}

/// A struct `struct Name<generics> { fields }`, at its `struct`.
#[verifier::opaque]
pub open spec fn struct_def(toks: Seq<Token>, pos: nat, visibility: Visibility) -> Step<
    StructDefView,
> {
    if !check(toks, pos, TokenKindView::Struct) {
        failed(unexpected(toks, pos, "Expected 'struct'"@), pos, pos)
    } else {
        let name = ident(toks, pos + 1, "Expected struct name"@);
        let p1 = pos + 1 + name.used;
        match name.result {
            Err(e) => failed(e, pos, p1),
            Ok(n) => {
                let gen = optional_generics(toks, p1);
                let p2 = p1 + gen.used;
                match gen.result {
                    Err(e) => failed(e, pos, p2),
                    Ok(g) => if !check(toks, p2, TokenKindView::LeftBrace) {
                        failed(unexpected(toks, p2, "Expected '{' after struct name"@), pos, p2)
                    } else {
                        let members = fields(toks, p2 + 1, Seq::empty());
                        let p3 = p2 + 1 + members.used;
                        match members.result {
                            Err(e) => failed(e, pos, p3),
                            Ok(fs) => if check(toks, p3, TokenKindView::RightBrace) {
                                done(
                                    StructDefView {
                                        visibility,
                                        name: n,
                                        generics: g,
                                        fields: fs,
                                        span: span_at(toks, pos).merged(span_at(toks, p3)),
                                    },
                                    pos,
                                    p3 + 1,
                                )
                            } else {
                                failed(
                                    unexpected(toks, p3, "Expected '}' after struct fields"@),
                                    pos,
                                    p3,
                                )
                            },
                        }
                    },
                }
            },
        }
    }
}

/// The field list that may follow the name of an enum variant: `(Type,
/// ...)`, or nothing.
#[verifier::opaque]
pub open spec fn variant_fields(toks: Seq<Token>, pos: nat) -> Step<Option<Seq<TypeView>>> {
    if !check(toks, pos, TokenKindView::LeftParen) {
        done(None, pos, pos)
    } else {
        let types = type_list(toks, pos + 1, Seq::empty());
        let p1 = pos + 1 + types.used;
        match types.result {
            Err(e) => failed(e, pos, p1),
            Ok(ts) => if check(toks, p1, TokenKindView::RightParen) {
                done(Some(ts), pos, p1 + 1)
            } else {
                failed(unexpected(toks, p1, "Expected ')' after variant fields"@), pos, p1)
            },
        }
    }
}

/// A variant of an enum: a name and an optional field list.
#[verifier::opaque]
pub open spec fn variant(toks: Seq<Token>, pos: nat) -> Step<EnumVariantView> {
    let name = ident(toks, pos, "Expected variant name"@);
    let p1 = pos + name.used;
    match name.result {
        Err(e) => failed(e, pos, p1),
        Ok(n) => {
            let members = variant_fields(toks, p1);
            let p2 = p1 + members.used;
            match members.result {
                Err(e) => failed(e, pos, p2),
                Ok(fs) => done(
                    EnumVariantView {
                        name: n,
                        fields: fs,
                        span: span_at(toks, pos).merged(last_span(toks, p2)),
                    },
                    pos,
                    p2,
                ),
            }
        },
    }
}

/// Variants separated by commas, up to a `}` or the end of the input; a
/// comma may follow the last one. `found` holds the variants read so far.
pub open spec fn variants(toks: Seq<Token>, pos: nat, found: Seq<EnumVariantView>) -> Step<
    Seq<EnumVariantView>,
>
    decreases remaining(toks, pos),
{
    if check(toks, pos, TokenKindView::RightBrace) || at_end(toks, pos) {
        done(found, pos, pos)
    } else {
        let item = variant(toks, pos);
        let p1 = pos + item.used;
        match item.result {
            Err(e) => failed(e, pos, p1),
            Ok(x) => if check(toks, p1, TokenKindView::Comma) {
                after((p1 + 1 - pos) as nat, variants(toks, p1 + 1, found.push(x)))
            } else {
                done(found.push(x), pos, p1)
            },
        }
    }
}

/// An enum `enum Name<generics> { variants }`, at its `enum`.
#[verifier::opaque]
pub open spec fn enum_def(toks: Seq<Token>, pos: nat, visibility: Visibility) -> Step<EnumDefView> {
    if !check(toks, pos, TokenKindView::Enum) {
        failed(unexpected(toks, pos, "Expected 'enum'"@), pos, pos)
    } else {
        let name = ident(toks, pos + 1, "Expected enum name"@);
        let p1 = pos + 1 + name.used;
        match name.result {
            Err(e) => failed(e, pos, p1),
            Ok(n) => {
                let gen = optional_generics(toks, p1);
                let p2 = p1 + gen.used;
                match gen.result {
                    Err(e) => failed(e, pos, p2),
                    Ok(g) => if !check(toks, p2, TokenKindView::LeftBrace) {
                        failed(unexpected(toks, p2, "Expected '{' after enum name"@), pos, p2)
                    } else {
                        let members = variants(toks, p2 + 1, Seq::empty());
                        let p3 = p2 + 1 + members.used;
                        match members.result {
                            Err(e) => failed(e, pos, p3),
                            Ok(vs) => if check(toks, p3, TokenKindView::RightBrace) {
                                done(
                                    EnumDefView {
                                        visibility,
                                        name: n,
                                        generics: g,
                                        variants: vs,
                                        span: span_at(toks, pos).merged(span_at(toks, p3)),
                                    },
                                    pos,
                                    p3 + 1,
                                )
                            } else {
                                failed(
                                    unexpected(toks, p3, "Expected '}' after enum variants"@),
                                    pos,
                                    p3,
                                )
                            },
                        }
                    },
                }
            },
        }
    }
}

/// What follows the keyword of a constant or a static: `name: Type =
/// value;`. `what` is `"const"` or `"static"`, for the messages. Yields the
/// name, the type and the value.
#[verifier::opaque]
pub open spec fn binding(toks: Seq<Token>, pos: nat, depth: nat, what: Seq<char>) -> Step<
    (Seq<char>, TypeView, crate::ast::model::ExprView),
> {
    let name = ident(toks, pos, "Expected "@ + what + " name"@);
    let p1 = pos + name.used;
    match name.result {
        Err(e) => failed(e, pos, p1),
        Ok(n) => if !check(toks, p1, TokenKindView::Colon) {
            failed(unexpected(toks, p1, "Expected ':' after "@ + what + " name"@), pos, p1)
        } else {
            let ty = type_(toks, p1 + 1);
            let p2 = p1 + 1 + ty.used;
            match ty.result {
                Err(e) => failed(e, pos, p2),
                Ok(t) => if !check(toks, p2, TokenKindView::Assign) {
                    failed(unexpected(toks, p2, "Expected '=' after "@ + what + " type"@), pos, p2)
                } else {
                    let value = expression(toks, p2 + 1, depth, true);
                    let p3 = p2 + 1 + value.used;
                    match value.result {
                        Err(e) => failed(e, pos, p3),
                        Ok(v) => if check(toks, p3, TokenKindView::Semicolon) {
                            done((n, t, v), pos, p3 + 1)
                        } else {
                            failed(
                                unexpected(toks, p3, "Expected ';' after "@ + what + " value"@),
                                pos,
                                p3,
                            )
                        },
                    }
                },
            }
        },
    }
}

/// A constant `const name: Type = value;`, at its `const`.
#[verifier::opaque]
pub open spec fn const_def(toks: Seq<Token>, pos: nat, depth: nat, visibility: Visibility) -> Step<
    ConstDefView,
> {
    if !check(toks, pos, TokenKindView::Const) {
        failed(unexpected(toks, pos, "Expected 'const'"@), pos, pos)
    } else {
        let rest = binding(toks, pos + 1, depth, "const"@);
        let p1 = pos + 1 + rest.used;
        match rest.result {
            Err(e) => failed(e, pos, p1),
            Ok(b) => done(
                ConstDefView {
                    visibility,
                    name: b.0,
                    ty: b.1,
                    value: b.2,
                    span: span_at(toks, pos).merged(last_span(toks, p1)),
                },
                pos,
                p1,
            ),
        }
    }
}

/// A static `static name: Type = value;`, at its `static`; `mut` may
/// follow the keyword.
#[verifier::opaque]
pub open spec fn static_def(toks: Seq<Token>, pos: nat, depth: nat, visibility: Visibility) -> Step<
    StaticDefView,
> {
    if !check(toks, pos, TokenKindView::Static) {
        failed(unexpected(toks, pos, "Expected 'static'"@), pos, pos)
    } else {
        let p0 = skip(toks, pos + 1, TokenKindView::Mut);
        let rest = binding(toks, p0, depth, "static"@);
        let p1 = p0 + rest.used;
        match rest.result {
            Err(e) => failed(e, pos, p1),
            Ok(b) => done(
                StaticDefView {
                    visibility,
                    mutable: check(toks, pos + 1, TokenKindView::Mut),
                    name: b.0,
                    ty: b.1,
                    value: b.2,
                    span: span_at(toks, pos).merged(last_span(toks, p1)),
                },
                pos,
                p1,
            ),
        }
    }
}

/// An import `import a::b::c as name;`, at its `import`; the alias is
/// optional.
#[verifier::opaque]
pub open spec fn import(toks: Seq<Token>, pos: nat) -> Step<ImportStmtView> {
    if !check(toks, pos, TokenKindView::Import) {
        failed(unexpected(toks, pos, "Expected 'import'"@), pos, pos)
    } else {
        let first = ident(toks, pos + 1, "Expected module path"@);
        let p1 = pos + 1 + first.used;
        match first.result {
            Err(e) => failed(e, pos, p1),
            Ok(n) => {
                let path = more_names(
                    toks,
                    p1,
                    TokenKindView::DoubleColon,
                    "Expected module name after '::'"@,
                    seq![n],
                );
                let p2 = p1 + path.used;
                match path.result {
                    Err(e) => failed(e, pos, p2),
                    Ok(names) => {
                        let alias = optional(
                            check(toks, p2, TokenKindView::As),
                            1,
                            ident(toks, p2 + 1, "Expected alias name after 'as'"@),
                        );
                        let p3 = p2 + alias.used;
                        match alias.result {
                            Err(e) => failed(e, pos, p3),
                            Ok(a) => if check(toks, p3, TokenKindView::Semicolon) {
                                done(
                                    ImportStmtView {
                                        path: names,
                                        alias: a,
                                        span: span_at(toks, pos).merged(span_at(toks, p3)),
                                    },
                                    pos,
                                    p3 + 1,
                                )
                            } else {
                                failed(unexpected(toks, p3, "Expected ';' after import"@), pos, p3)
                            },
                        }
                    },
                }
            },
        }
    }
}

/// Names separated by commas, up to a `}` or the end of the input; a comma
/// may follow the last one. `found` holds the names read so far.
pub open spec fn exported_names(toks: Seq<Token>, pos: nat, found: Seq<Seq<char>>) -> Step<
    Seq<Seq<char>>,
>
    decreases remaining(toks, pos),
{
    if check(toks, pos, TokenKindView::RightBrace) || at_end(toks, pos) {
        done(found, pos, pos)
    } else {
        let name = ident(toks, pos, "Expected export item name"@);
        let p1 = pos + name.used;
        match name.result {
            Err(e) => failed(e, pos, p1),
            Ok(n) => if check(toks, p1, TokenKindView::Comma) {
                after((p1 + 1 - pos) as nat, exported_names(toks, p1 + 1, found.push(n)))
            } else {
                done(found.push(n), pos, p1)
            },
        }
    }
}

/// An export `export { name, ... };`, at its `export`.
#[verifier::opaque]
pub open spec fn export(toks: Seq<Token>, pos: nat) -> Step<ExportStmtView> {
    if !check(toks, pos, TokenKindView::Export) {
        failed(unexpected(toks, pos, "Expected 'export'"@), pos, pos)
    } else if !check(toks, pos + 1, TokenKindView::LeftBrace) {
        failed(unexpected(toks, pos + 1, "Expected '{' after export"@), pos, pos + 1)
    } else {
        let names = exported_names(toks, pos + 2, Seq::empty());
        let p1 = pos + 2 + names.used;
        match names.result {
            Err(e) => failed(e, pos, p1),
            Ok(all) => if !check(toks, p1, TokenKindView::RightBrace) {
                failed(unexpected(toks, p1, "Expected '}' after export items"@), pos, p1)
            } else if !check(toks, p1 + 1, TokenKindView::Semicolon) {
                failed(unexpected(toks, p1 + 1, "Expected ';' after export"@), pos, p1 + 1)
            } else {
                done(
                    ExportStmtView {
                        items: all,
                        span: span_at(toks, pos).merged(span_at(toks, p1 + 1)),
                    },
                    pos,
                    p1 + 2,
                )
            },
        }
    }
}

/// The outcome `step` of a declaration, as the outcome of an item that
/// began `skipped` tokens before it; `wrap` makes the item of the
/// declaration.
pub open spec fn as_item<T>(skipped: nat, step: Step<T>, wrap: spec_fn(T) -> ItemView) -> Step<
    ItemView,
> {
    Step {
        result: match step.result {
            Ok(value) => Ok(wrap(value)),
            Err(error) => Err(error),
        },
        used: skipped + step.used,
    }
}

/// An item: after an optional `pub`, the declaration that the keyword at
/// the position begins.
#[verifier::opaque]
pub open spec fn item(toks: Seq<Token>, pos: nat, depth: nat) -> Step<ItemView> {
    let visibility = visibility_at(toks, pos);
    let p1 = skip(toks, pos, TokenKindView::Pub);
    let skipped = (p1 - pos) as nat;
    match kind_at(toks, p1) {
        TokenKindView::Fn => as_item(
            skipped,
            function(toks, p1, depth, visibility),
            |x: FunctionView| ItemView::Function(x),
        ),
        TokenKindView::Struct => as_item(
            skipped,
            struct_def(toks, p1, visibility),
            |x: StructDefView| ItemView::Struct(x),
        ),
        TokenKindView::Enum => as_item(
            skipped,
            enum_def(toks, p1, visibility),
            |x: EnumDefView| ItemView::Enum(x),
        ),
        TokenKindView::Const => as_item(
            skipped,
            const_def(toks, p1, depth, visibility),
            |x: ConstDefView| ItemView::Const(x),
        ),
        TokenKindView::Static => as_item(
            skipped,
            static_def(toks, p1, depth, visibility),
            |x: StaticDefView| ItemView::Static(x),
        ),
        TokenKindView::Import => as_item(
            skipped,
            import(toks, p1),
            |x: ImportStmtView| ItemView::Import(x),
        ),
        TokenKindView::Export => as_item(
            skipped,
            export(toks, p1),
            |x: ExportStmtView| ItemView::Export(x),
        ),
        _ => failed(unexpected(toks, p1, "Expected item declaration"@), pos, p1),
    }
}

/// Whether a token of `kind` begins an item or a statement at which parsing
/// can resume after an error.
pub open spec fn resumes(kind: TokenKindView) -> bool {
    kind is Fn || kind is Struct || kind is Enum || kind is Let || kind is If || kind is While
        || kind is For || kind is Return || kind is Match
}

/// The number of tokens from `pos` to the place where parsing resumes: the
/// end of the input, the token after a `;`, or a token that begins an item
/// or a statement.
pub open spec fn resume_distance(toks: Seq<Token>, pos: nat) -> nat
    decreases remaining(toks, pos),
{
    if at_end(toks, pos) || (pos > 0 && kind_at(toks, (pos - 1) as nat) is Semicolon) || resumes(
        kind_at(toks, pos),
    ) {
        0
    } else {
        1 + resume_distance(toks, pos + 1)
    }
}

/// The position at which parsing resumes after an error at `pos`: one
/// token is skipped in any case, unless the input ends at `pos`.
pub open spec fn synchronize(toks: Seq<Token>, pos: nat) -> nat {
    let p1 = if at_end(toks, pos) {
        pos
    } else {
        pos + 1
    };
    p1 + resume_distance(toks, p1)
}

/// What a parser has read of a program: the items, the errors, and the
/// position at which it stopped.
pub struct Outcome {
    pub items: Seq<ItemView>,
    pub errors: Seq<ParseErrorView>,
    pub end: nat,
}

/// The items from `pos` to the end of the input. An item that cannot be
/// read adds its error to `errors`, and reading resumes at the next
/// synchronization point; `items` holds the items read so far.
pub open spec fn items_from(
    toks: Seq<Token>,
    pos: nat,
    depth: nat,
    items: Seq<ItemView>,
    errors: Seq<ParseErrorView>,
) -> Outcome
    decreases remaining(toks, pos),
{
    if at_end(toks, pos) {
        Outcome { items, errors, end: pos }
    } else {
        let next = item(toks, pos, depth);
        let p1 = pos + next.used;
        match next.result {
            Ok(x) => if next.used == 0 {
                Outcome { items: items.push(x), errors, end: pos }
            } else {
                items_from(toks, p1, depth, items.push(x), errors)
            },
            Err(e) => items_from(toks, synchronize(toks, p1), depth, items, errors.push(e)),
        }
    }
}

/// The span of a program read from `from` to `to`: from the first token to
/// the last one read.
pub open spec fn program_span(toks: Seq<Token>, from: nat, to: nat) -> Span {
    span_at(toks, from).merged(
        if to > 0 {
            last_span(toks, to)
        } else {
            span_at(toks, from)
        },
    )
}

/// The result of parsing a program from `from`, `outcome` being what was
/// read: the program, if no error was recorded before or found now; else
/// all the errors.
pub open spec fn program_result(toks: Seq<Token>, from: nat, outcome: Outcome) -> Result<
    ProgramView,
    Seq<ParseErrorView>,
> {
    if outcome.errors.len() == 0 {
        Ok(ProgramView { items: outcome.items, span: program_span(toks, from, outcome.end) })
    } else {
        Err(outcome.errors)
    }
}

} // verus!
