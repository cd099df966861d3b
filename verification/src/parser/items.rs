//! Parsing declarations and whole programs.

use vstd::prelude::*;
use vstd::string::StringExecFns;
use crate::ast::{
    ConstDef, EnumDef, EnumVariant, ExportStmt, Expr, Field, Function, GenericParam, Generics,
    ImportStmt, Item, StaticDef, StructDef, Type, Visibility,
};
use crate::ast::abstraction::types_view;
use crate::ast::model::{
    lemma_views_empty, lemma_views_push, views, EnumVariantView, FieldView, GenericParamView,
    TypeView,
};
use crate::grammar::{after, check, ident, optional, remaining, ParseErrorView};
use crate::grammar::expressions::parameters;
use crate::grammar::items::{
    binding, bounds, const_def, enum_def, export, exported_names, field, fields, function,
    generic_param, generic_params, generics, import, item, more_names, optional_generics,
    static_def, struct_def, variant, variant_fields, variants,
};
use crate::grammar::types::type_;
use crate::parser::{ParseError, Parser};
use crate::token::{TokenKind, TokenKindView};

verus! {

impl Parser {

    /// Parses names, each after a token of the variant of `separator`, after
    /// those in `initial`.
    fn parse_more_names(
        &mut self,
        separator: TokenKind,
        message: &str,
        initial: Vec<String>,
    ) -> (result: Result<Vec<String>, ParseError>)
        requires
            old(self).wf(),
        ensures
            final(self).yields(
                *old(self),
                match result {
                    Ok(items) => Ok(views(items@)),
                    Err(error) => Err(error@),
                },
                more_names(
                    old(self).tokens(),
                    old(self).position(),
                    separator@,
                    message@,
                    views(initial@),
                ),
            ),
    {
        let ghost start = self.position();
        let ghost before = views(initial@);
        let ghost whole = more_names(self.tokens(), start, separator@, message@, before);
        let mut found = initial;
        loop
            invariant_except_break
                whole == after(
                    (self.position() - start) as nat,
                    more_names(self.tokens(), self.position(), separator@, message@, views(found@)),
                ),
            invariant
                before == views(initial@),
                whole == more_names(
                    old(self).tokens(),
                    old(self).position(),
                    separator@,
                    message@,
                    before,
                ),
                self.moved(*old(self), (self.position() - start) as nat),
                start == old(self).position(),
            ensures
                whole.result == Ok::<Seq<Seq<char>>, ParseErrorView>(views(found@)),
                whole.used == self.position() - start,
            decreases remaining(self.tokens(), self.position()),
        {
            if !self.match_token(&separator) {
                break;
            }
            let name = self.expect_ident(message)?;
            proof {
                lemma_views_push(found@, name);
            }
            found.push(name);
        }
        Ok(found)
    }

    /// Parses the bounds of a generic parameter.
    fn parse_bounds(&mut self) -> (result: Result<Vec<String>, ParseError>)
        requires
            old(self).wf(),
        ensures
            final(self).yields(
                *old(self),
                match result {
                    Ok(items) => Ok(views(items@)),
                    Err(error) => Err(error@),
                },
                bounds(old(self).tokens(), old(self).position()),
            ),
    {
        proof {
            reveal(bounds);
        }
        let mut found: Vec<String> = Vec::new();
        proof {
            lemma_views_empty::<String>();
            assert(found@ =~= Seq::<String>::empty());
        }
        if !self.match_token(&TokenKind::Colon) {
            return Ok(found);
        }
        let first = self.expect_ident("Expected trait bound")?;
        proof {
            lemma_views_push(found@, first);
            assert(Seq::<Seq<char>>::empty().push(first@) =~= seq![first@]);
        }
        found.push(first);
        self.parse_more_names(TokenKind::Plus, "Expected trait bound after '+'", found)
    }


    /// Parses a generic parameter.
    fn parse_generic_param(&mut self) -> (result: Result<GenericParam, ParseError>)
        requires
            old(self).wf(),
        ensures
            final(self).advances(
                *old(self),
                match result {
                    Ok(node) => Ok(node@),
                    Err(error) => Err(error@),
                },
                generic_param(old(self).tokens(), old(self).position()),
            ),
    {
        proof {
            reveal(generic_param);
        }
        let start = self.current_span();
        let name = self.expect_ident("Expected generic parameter name")?;
        let bounds = self.parse_bounds()?;
        let span = start.merge(&self.previous_span());
        Ok(GenericParam { name, bounds, span })
    }

    /// Parses generic parameters separated by commas, up to a `>`.
    fn parse_generic_params(&mut self) -> (result: Result<Vec<GenericParam>, ParseError>)
        requires
            old(self).wf(),
        ensures
            final(self).yields(
                *old(self),
                match result {
                    Ok(items) => Ok(views(items@)),
                    Err(error) => Err(error@),
                },
                generic_params(old(self).tokens(), old(self).position(), Seq::empty()),
            ),
    {
        let ghost start = self.position();
        let ghost whole = generic_params(self.tokens(), start, Seq::empty());
        let mut found: Vec<GenericParam> = Vec::new();
        proof {
            lemma_views_empty::<GenericParam>();
            assert(found@ =~= Seq::<GenericParam>::empty());
        }
        loop
            invariant_except_break
                whole == after(
                    (self.position() - start) as nat,
                    generic_params(self.tokens(), self.position(), views(found@)),
                ),
            invariant
                whole == generic_params(old(self).tokens(), old(self).position(), Seq::empty()),
                self.moved(*old(self), (self.position() - start) as nat),
                start == old(self).position(),
                remaining(self.tokens(), self.position()) <= remaining(
                    old(self).tokens(),
                    old(self).position(),
                ),
            ensures
                whole.result == Ok::<Seq<GenericParamView>, ParseErrorView>(views(found@)),
                whole.used == self.position() - start,
            decreases remaining(self.tokens(), self.position()),
        {
            if self.check(&TokenKind::Greater) || self.is_at_end() {
                break;
            }
            let item = self.parse_generic_param()?;
            proof {
                lemma_views_push(found@, item);
            }
            found.push(item);
            if !self.match_token(&TokenKind::Comma) {
                break;
            }
        }
        Ok(found)
    }

    /// Parses the generic parameters of a declaration, after their `<`.
    fn parse_generics(&mut self) -> (result: Result<Generics, ParseError>)
        requires
            old(self).wf(),
        ensures
            final(self).advances(
                *old(self),
                match result {
                    Ok(node) => Ok(node@),
                    Err(error) => Err(error@),
                },
                generics(old(self).tokens(), old(self).position()),
            ),
    {
        proof {
            reveal(generics);
        }
        let start = self.current_span();
        let params = self.parse_generic_params()?;
        self.consume(TokenKind::Greater, "Expected '>' after generic parameters")?;
        let span = start.merge(&self.previous_span());
        Ok(Generics { params, span })
    }

    /// Parses the generic parameters that may follow the name of a
    /// declaration.
    fn parse_optional_generics(&mut self) -> (result: Result<Option<Generics>, ParseError>)
        requires
            old(self).wf(),
        ensures
            final(self).yields(
                *old(self),
                match result {
                    Ok(Some(node)) => Ok(Some(node@)),
                    Ok(None) => Ok(None),
                    Err(error) => Err(error@),
                },
                optional_generics(old(self).tokens(), old(self).position()),
            ),
    {
        proof {
            reveal(optional_generics);
        }
        if self.match_token(&TokenKind::Less) {
            Ok(Some(self.parse_generics()?))
        } else {
            Ok(None)
        }
    }


    /// Parses a function, at its `fn`.
    fn parse_function(&mut self, visibility: Visibility) -> (result: Result<Function, ParseError>)
        requires
            old(self).wf(),
        ensures
            final(self).advances(
                *old(self),
                match result {
                    Ok(node) => Ok(node@),
                    Err(error) => Err(error@),
                },
                function(old(self).tokens(), old(self).position(), old(self).depth(), visibility),
            ),
    {
        proof {
            reveal(function);
        }
        let start = self.current_span();
        self.consume(TokenKind::Fn, "Expected 'fn'")?;
        let name = self.expect_ident("Expected function name")?;
        let generics = self.parse_optional_generics()?;
        self.consume(TokenKind::LeftParen, "Expected '(' after function name")?;
        let params = self.parse_parameters()?;
        self.consume(TokenKind::RightParen, "Expected ')' after parameters")?;
        let ghost p3 = self.position();
        let return_type = if self.match_token(&TokenKind::Arrow) {
            Some(self.parse_type()?)
        } else {
            None
        };
        let ghost part_return_type = optional(
            check(self.tokens(), p3, TokenKindView::Arrow),
            1,
            type_(self.tokens(), p3 + 1),
        );
        assert(self.position() == p3 + part_return_type.used);
        assert(part_return_type.result == Ok::<Option<TypeView>, ParseErrorView>(
            match return_type {
                Some(v) => Some(v@),
                None => None,
            },
        ));
        let body = self.parse_block()?;
        let span = start.merge(&self.previous_span());
        Ok(Function { visibility, name, generics, params, return_type, body, span })
    }

    /// Parses a field of a struct.
    fn parse_field(&mut self) -> (result: Result<Field, ParseError>)
        requires
            old(self).wf(),
        ensures
            final(self).advances(
                *old(self),
                match result {
                    Ok(node) => Ok(node@),
                    Err(error) => Err(error@),
                },
                field(old(self).tokens(), old(self).position()),
            ),
    {
        proof {
            reveal(field);
        }
        let visibility = if self.match_token(&TokenKind::Pub) {
            Visibility::Public
        } else {
            Visibility::Private
        };
        let name = self.expect_ident("Expected field name")?;
        self.consume(TokenKind::Colon, "Expected ':' after field name")?;
        let ty = self.parse_type()?;
        let span = self.previous_span();
        Ok(Field { visibility, name, ty, span })
    }

    /// Parses fields separated by commas, up to a `}`.
    fn parse_fields(&mut self) -> (result: Result<Vec<Field>, ParseError>)
        requires
            old(self).wf(),
        ensures
            final(self).yields(
                *old(self),
                match result {
                    Ok(items) => Ok(views(items@)),
                    Err(error) => Err(error@),
                },
                fields(old(self).tokens(), old(self).position(), Seq::empty()),
            ),
    {
        let ghost start = self.position();
        let ghost whole = fields(self.tokens(), start, Seq::empty());
        let mut found: Vec<Field> = Vec::new();
        proof {
            lemma_views_empty::<Field>();
            assert(found@ =~= Seq::<Field>::empty());
        }
        loop
            invariant_except_break
                whole == after(
                    (self.position() - start) as nat,
                    fields(self.tokens(), self.position(), views(found@)),
                ),
            invariant
                whole == fields(old(self).tokens(), old(self).position(), Seq::empty()),
                self.moved(*old(self), (self.position() - start) as nat),
                start == old(self).position(),
                remaining(self.tokens(), self.position()) <= remaining(
                    old(self).tokens(),
                    old(self).position(),
                ),
            ensures
                whole.result == Ok::<Seq<FieldView>, ParseErrorView>(views(found@)),
                whole.used == self.position() - start,
            decreases remaining(self.tokens(), self.position()),
        {
            if self.check(&TokenKind::RightBrace) || self.is_at_end() {
                break;
            }
            let item = self.parse_field()?;
            proof {
                lemma_views_push(found@, item);
            }
            found.push(item);
            if !self.match_token(&TokenKind::Comma) {
                break;
            }
        }
        Ok(found)
    }

    /// Parses a struct, at its `struct`.
    fn parse_struct(&mut self, visibility: Visibility) -> (result: Result<StructDef, ParseError>)
        requires
            old(self).wf(),
        ensures
            final(self).advances(
                *old(self),
                match result {
                    Ok(node) => Ok(node@),
                    Err(error) => Err(error@),
                },
                struct_def(old(self).tokens(), old(self).position(), visibility),
            ),
    {
        proof {
            reveal(struct_def);
        }
        let start = self.current_span();
        self.consume(TokenKind::Struct, "Expected 'struct'")?;
        let name = self.expect_ident("Expected struct name")?;
        let generics = self.parse_optional_generics()?;
        self.consume(TokenKind::LeftBrace, "Expected '{' after struct name")?;
        let fields = self.parse_fields()?;
        self.consume(TokenKind::RightBrace, "Expected '}' after struct fields")?;
        let span = start.merge(&self.previous_span());
        Ok(StructDef { visibility, name, generics, fields, span })
    }

    /// Parses the field list that may follow the name of an enum variant.
    fn parse_variant_fields(&mut self) -> (result: Result<Option<Vec<Type>>, ParseError>)
        requires
            old(self).wf(),
        ensures
            final(self).yields(
                *old(self),
                match result {
                    Ok(Some(types)) => Ok(Some(types_view(types@))),
                    Ok(None) => Ok(None),
                    Err(error) => Err(error@),
                },
                variant_fields(old(self).tokens(), old(self).position()),
            ),
    {
        proof {
            reveal(variant_fields);
        }
        if self.match_token(&TokenKind::LeftParen) {
            let types = self.parse_type_list()?;
            self.consume(TokenKind::RightParen, "Expected ')' after variant fields")?;
            Ok(Some(types))
        } else {
            Ok(None)
        }
    }


    /// Parses a variant of an enum.
    fn parse_variant(&mut self) -> (result: Result<EnumVariant, ParseError>)
        requires
            old(self).wf(),
        ensures
            final(self).advances(
                *old(self),
                match result {
                    Ok(node) => Ok(node@),
                    Err(error) => Err(error@),
                },
                variant(old(self).tokens(), old(self).position()),
            ),
    {
        proof {
            reveal(variant);
        }
        let start = self.current_span();
        let name = self.expect_ident("Expected variant name")?;
        let fields = self.parse_variant_fields()?;
        let span = start.merge(&self.previous_span());
        Ok(EnumVariant { name, fields, span })
    }

    /// Parses variants separated by commas, up to a `}`.
    fn parse_variants(&mut self) -> (result: Result<Vec<EnumVariant>, ParseError>)
        requires
            old(self).wf(),
        ensures
            final(self).yields(
                *old(self),
                match result {
                    Ok(items) => Ok(views(items@)),
                    Err(error) => Err(error@),
                },
                variants(old(self).tokens(), old(self).position(), Seq::empty()),
            ),
    {
        let ghost start = self.position();
        let ghost whole = variants(self.tokens(), start, Seq::empty());
        let mut found: Vec<EnumVariant> = Vec::new();
        proof {
            lemma_views_empty::<EnumVariant>();
            assert(found@ =~= Seq::<EnumVariant>::empty());
        }
        loop
            invariant_except_break
                whole == after(
                    (self.position() - start) as nat,
                    variants(self.tokens(), self.position(), views(found@)),
                ),
            invariant
                whole == variants(old(self).tokens(), old(self).position(), Seq::empty()),
                self.moved(*old(self), (self.position() - start) as nat),
                start == old(self).position(),
                remaining(self.tokens(), self.position()) <= remaining(
                    old(self).tokens(),
                    old(self).position(),
                ),
            ensures
                whole.result == Ok::<Seq<EnumVariantView>, ParseErrorView>(views(found@)),
                whole.used == self.position() - start,
            decreases remaining(self.tokens(), self.position()),
        {
            if self.check(&TokenKind::RightBrace) || self.is_at_end() {
                break;
            }
            let item = self.parse_variant()?;
            proof {
                lemma_views_push(found@, item);
            }
            found.push(item);
            if !self.match_token(&TokenKind::Comma) {
                break;
            }
        }
        Ok(found)
    }

    /// Parses an enum, at its `enum`.
    fn parse_enum(&mut self, visibility: Visibility) -> (result: Result<EnumDef, ParseError>)
        requires
            old(self).wf(),
        ensures
            final(self).advances(
                *old(self),
                match result {
                    Ok(node) => Ok(node@),
                    Err(error) => Err(error@),
                },
                enum_def(old(self).tokens(), old(self).position(), visibility),
            ),
    {
        proof {
            reveal(enum_def);
        }
        let start = self.current_span();
        self.consume(TokenKind::Enum, "Expected 'enum'")?;
        let name = self.expect_ident("Expected enum name")?;
        let generics = self.parse_optional_generics()?;
        self.consume(TokenKind::LeftBrace, "Expected '{' after enum name")?;
        let variants = self.parse_variants()?;
        self.consume(TokenKind::RightBrace, "Expected '}' after enum variants")?;
        let span = start.merge(&self.previous_span());
        Ok(EnumDef { visibility, name, generics, variants, span })
    }

    /// Parses what follows the keyword of a constant or a static; `what` is
    /// `"const"` or `"static"`.
    fn parse_binding(&mut self, what: &str) -> (result: Result<(String, Type, Expr), ParseError>)
        requires
            old(self).wf(),
        ensures
            final(self).advances(
                *old(self),
                match result {
                    Ok(found) => Ok((found.0@, found.1@, found.2@)),
                    Err(error) => Err(error@),
                },
                binding(old(self).tokens(), old(self).position(), old(self).depth(), what@),
            ),
    {
        proof {
            reveal(binding);
        }
        let mut no_name = String::from_str("Expected ");
        no_name.append(what);
        no_name.append(" name");
        let name = self.expect_ident(no_name.as_str())?;
        let mut no_colon = String::from_str("Expected ':' after ");
        no_colon.append(what);
        no_colon.append(" name");
        self.consume(TokenKind::Colon, no_colon.as_str())?;
        let ty = self.parse_type()?;
        let mut no_assign = String::from_str("Expected '=' after ");
        no_assign.append(what);
        no_assign.append(" type");
        self.consume(TokenKind::Assign, no_assign.as_str())?;
        let value = self.parse_expression_in(true)?;
        let mut no_semicolon = String::from_str("Expected ';' after ");
        no_semicolon.append(what);
        no_semicolon.append(" value");
        self.consume(TokenKind::Semicolon, no_semicolon.as_str())?;
        Ok((name, ty, value))
    }


    /// Parses a constant, at its `const`.
    fn parse_const(&mut self, visibility: Visibility) -> (result: Result<ConstDef, ParseError>)
        requires
            old(self).wf(),
        ensures
            final(self).advances(
                *old(self),
                match result {
                    Ok(node) => Ok(node@),
                    Err(error) => Err(error@),
                },
                const_def(old(self).tokens(), old(self).position(), old(self).depth(), visibility),
            ),
    {
        proof {
            reveal(const_def);
        }
        let start = self.current_span();
        self.consume(TokenKind::Const, "Expected 'const'")?;
        let (name, ty, value) = self.parse_binding("const")?;
        let span = start.merge(&self.previous_span());
        Ok(ConstDef { visibility, name, ty, value, span })
    }

    /// Parses a static, at its `static`.
    fn parse_static(&mut self, visibility: Visibility) -> (result: Result<StaticDef, ParseError>)
        requires
            old(self).wf(),
        ensures
            final(self).advances(
                *old(self),
                match result {
                    Ok(node) => Ok(node@),
                    Err(error) => Err(error@),
                },
                static_def(old(self).tokens(), old(self).position(), old(self).depth(), visibility),
            ),
    {
        proof {
            reveal(static_def);
        }
        let start = self.current_span();
        self.consume(TokenKind::Static, "Expected 'static'")?;
        let mutable = self.match_token(&TokenKind::Mut);
        let (name, ty, value) = self.parse_binding("static")?;
        let span = start.merge(&self.previous_span());
        Ok(StaticDef { visibility, mutable, name, ty, value, span })
    }

    /// Parses an import, at its `import`.
    fn parse_import(&mut self) -> (result: Result<ImportStmt, ParseError>)
        requires
            old(self).wf(),
        ensures
            final(self).advances(
                *old(self),
                match result {
                    Ok(node) => Ok(node@),
                    Err(error) => Err(error@),
                },
                import(old(self).tokens(), old(self).position()),
            ),
    {
        proof {
            reveal(import);
        }
        let start = self.current_span();
        self.consume(TokenKind::Import, "Expected 'import'")?;
        let first = self.expect_ident("Expected module path")?;
        let mut names: Vec<String> = Vec::new();
        proof {
            lemma_views_empty::<String>();
            assert(names@ =~= Seq::<String>::empty());
            lemma_views_push(names@, first);
            assert(Seq::<Seq<char>>::empty().push(first@) =~= seq![first@]);
        }
        names.push(first);
        let path = self.parse_more_names(
            TokenKind::DoubleColon,
            "Expected module name after '::'",
            names,
        )?;
        let ghost p2 = self.position();
        let alias = if self.match_token(&TokenKind::As) {
            Some(self.expect_ident("Expected alias name after 'as'")?)
        } else {
            None
        };
        let ghost part_alias = optional(
            check(self.tokens(), p2, TokenKindView::As),
            1,
            ident(self.tokens(), p2 + 1, "Expected alias name after 'as'"@),
        );
        assert(self.position() == p2 + part_alias.used);
        assert(part_alias.result == Ok::<Option<Seq<char>>, ParseErrorView>(
            match alias {
                Some(v) => Some(v@),
                None => None,
            },
        ));
        self.consume(TokenKind::Semicolon, "Expected ';' after import")?;
        let span = start.merge(&self.previous_span());
        Ok(ImportStmt { path, alias, span })
    }

    /// Parses names separated by commas, up to a `}`.
    fn parse_exported_names(&mut self) -> (result: Result<Vec<String>, ParseError>)
        requires
            old(self).wf(),
        ensures
            final(self).yields(
                *old(self),
                match result {
                    Ok(items) => Ok(views(items@)),
                    Err(error) => Err(error@),
                },
                exported_names(old(self).tokens(), old(self).position(), Seq::empty()),
            ),
    {
        let ghost start = self.position();
        let ghost whole = exported_names(self.tokens(), start, Seq::empty());
        let mut found: Vec<String> = Vec::new();
        proof {
            lemma_views_empty::<String>();
            assert(found@ =~= Seq::<String>::empty());
        }
        loop
            invariant_except_break
                whole == after(
                    (self.position() - start) as nat,
                    exported_names(self.tokens(), self.position(), views(found@)),
                ),
            invariant
                whole == exported_names(old(self).tokens(), old(self).position(), Seq::empty()),
                self.moved(*old(self), (self.position() - start) as nat),
                start == old(self).position(),
                remaining(self.tokens(), self.position()) <= remaining(
                    old(self).tokens(),
                    old(self).position(),
                ),
            ensures
                whole.result == Ok::<Seq<Seq<char>>, ParseErrorView>(views(found@)),
                whole.used == self.position() - start,
            decreases remaining(self.tokens(), self.position()),
        {
            if self.check(&TokenKind::RightBrace) || self.is_at_end() {
                break;
            }
            let item = self.expect_ident("Expected export item name")?;
            proof {
                lemma_views_push(found@, item);
            }
            found.push(item);
            if !self.match_token(&TokenKind::Comma) {
                break;
            }
        }
        Ok(found)
    }

    /// Parses an export, at its `export`.
    fn parse_export(&mut self) -> (result: Result<ExportStmt, ParseError>)
        requires
            old(self).wf(),
        ensures
            final(self).advances(
                *old(self),
                match result {
                    Ok(node) => Ok(node@),
                    Err(error) => Err(error@),
                },
                export(old(self).tokens(), old(self).position()),
            ),
    {
        proof {
            reveal(export);
        }
        let start = self.current_span();
        self.consume(TokenKind::Export, "Expected 'export'")?;
        self.consume(TokenKind::LeftBrace, "Expected '{' after export")?;
        let items = self.parse_exported_names()?;
        self.consume(TokenKind::RightBrace, "Expected '}' after export items")?;
        self.consume(TokenKind::Semicolon, "Expected ';' after export")?;
        let span = start.merge(&self.previous_span());
        Ok(ExportStmt { items, span })
    }

    /// Parses an item.
    pub(crate) fn parse_item(&mut self) -> (result: Result<Item, ParseError>)
        requires
            old(self).wf(),
        ensures
            final(self).advances(
                *old(self),
                match result {
                    Ok(node) => Ok(node@),
                    Err(error) => Err(error@),
                },
                item(old(self).tokens(), old(self).position(), old(self).depth()),
            ),
    {
        proof {
            reveal(item);
        }
        let visibility = if self.match_token(&TokenKind::Pub) {
            Visibility::Public
        } else {
            Visibility::Private
        };
        match self.peek() {
            TokenKind::Fn => Ok(Item::Function(self.parse_function(visibility)?)),
            TokenKind::Struct => Ok(Item::Struct(self.parse_struct(visibility)?)),
            TokenKind::Enum => Ok(Item::Enum(self.parse_enum(visibility)?)),
            TokenKind::Const => Ok(Item::Const(self.parse_const(visibility)?)),
            TokenKind::Static => Ok(Item::Static(self.parse_static(visibility)?)),
            TokenKind::Import => Ok(Item::Import(self.parse_import()?)),
            TokenKind::Export => Ok(Item::Export(self.parse_export()?)),
            _ => Err(self.unexpected("Expected item declaration")),
        }
    }

}

} // verus!
