//! Parsing types.

use vstd::prelude::*;
use crate::ast::Type;
use crate::ast::abstraction::{
    lemma_type_view, lemma_types_view_empty, lemma_types_view_push, types_view,
};
use crate::grammar::{after, remaining};
use crate::grammar::types::{
    array_or_slice_type, function_type, generic_arguments, parenthesized_type, tuple_rest, type_,
    type_list,
};
use crate::grammar::unfold::{
    lemma_array_or_slice_type, lemma_function_type, lemma_generic_arguments,
    lemma_parenthesized_type, lemma_tuple_rest, lemma_type_, lemma_type_list,
};
use crate::parser::{ParseError, Parser};
use crate::token::TokenKind;

verus! {

impl Parser {
    /// Parses a type.
    pub(crate) fn parse_type(&mut self) -> (result: Result<Type, ParseError>)
        requires
            old(self).wf(),
        ensures
            final(self).advances(
                *old(self),
                match result {
                    Ok(node) => Ok(node@),
                    Err(error) => Err(error@),
                },
                type_(old(self).tokens(), old(self).position()),
            ),
        decreases remaining(old(self).tokens(), old(self).position()), 1int,
    {
        proof {
            lemma_type_(self.tokens(), self.position());
        }
        match self.peek() {
            TokenKind::I8 => {
                self.advance();
                let node = Type::I8;
                proof {
                    lemma_type_view(node);
                }
                Ok(node)
            },
            TokenKind::I16 => {
                self.advance();
                let node = Type::I16;
                proof {
                    lemma_type_view(node);
                }
                Ok(node)
            },
            TokenKind::I32 => {
                self.advance();
                let node = Type::I32;
                proof {
                    lemma_type_view(node);
                }
                Ok(node)
            },
            TokenKind::I64 => {
                self.advance();
                let node = Type::I64;
                proof {
                    lemma_type_view(node);
                }
                Ok(node)
            },
            TokenKind::U8 => {
                self.advance();
                let node = Type::U8;
                proof {
                    lemma_type_view(node);
                }
                Ok(node)
            },
            TokenKind::U16 => {
                self.advance();
                let node = Type::U16;
                proof {
                    lemma_type_view(node);
                }
                Ok(node)
            },
            TokenKind::U32 => {
                self.advance();
                let node = Type::U32;
                proof {
                    lemma_type_view(node);
                }
                Ok(node)
            },
            TokenKind::U64 => {
                self.advance();
                let node = Type::U64;
                proof {
                    lemma_type_view(node);
                }
                Ok(node)
            },
            TokenKind::Usize => {
                self.advance();
                let node = Type::Usize;
                proof {
                    lemma_type_view(node);
                }
                Ok(node)
            },
            TokenKind::Isize => {
                self.advance();
                let node = Type::Isize;
                proof {
                    lemma_type_view(node);
                }
                Ok(node)
            },
            TokenKind::F32 => {
                self.advance();
                let node = Type::F32;
                proof {
                    lemma_type_view(node);
                }
                Ok(node)
            },
            TokenKind::F64 => {
                self.advance();
                let node = Type::F64;
                proof {
                    lemma_type_view(node);
                }
                Ok(node)
            },
            TokenKind::Bool => {
                self.advance();
                let node = Type::Bool;
                proof {
                    lemma_type_view(node);
                }
                Ok(node)
            },
            TokenKind::Char => {
                self.advance();
                let node = Type::Char;
                proof {
                    lemma_type_view(node);
                }
                Ok(node)
            },
            TokenKind::String => {
                self.advance();
                let node = Type::String;
                proof {
                    lemma_type_view(node);
                }
                Ok(node)
            },
            TokenKind::LogicalNot => {
                self.advance();
                let node = Type::Never;
                proof {
                    lemma_type_view(node);
                }
                Ok(node)
            },
            TokenKind::Underscore => {
                self.advance();
                let node = Type::Infer;
                proof {
                    lemma_type_view(node);
                }
                Ok(node)
            },
            TokenKind::Fn => self.parse_function_type(),
            TokenKind::LeftBracket => self.parse_array_or_slice_type(),
            TokenKind::Star => {
                self.advance();
                let mutable = self.match_token(&TokenKind::Mut);
                let inner = self.parse_type()?;
                let node = Type::Pointer(Box::new(inner), mutable);
                proof {
                    lemma_type_view(node);
                }
                Ok(node)
            },
            TokenKind::BitwiseAnd => {
                self.advance();
                let mutable = self.match_token(&TokenKind::Mut);
                let inner = self.parse_type()?;
                let node = Type::Reference(Box::new(inner), mutable);
                proof {
                    lemma_type_view(node);
                }
                Ok(node)
            },
            TokenKind::LeftParen => self.parse_parenthesized_type(),
            TokenKind::Ident(name) => {
                let name = name.clone();
                self.advance();
                if self.match_token(&TokenKind::Less) {
                    let first = self.parse_type()?;
                    let args = self.parse_generic_arguments(first)?;
                    self.consume(TokenKind::Greater, "Expected '>' after generic arguments")?;
                    let node = Type::Generic(name, args);
                    proof {
                        lemma_type_view(node);
                    }
                    Ok(node)
                } else {
                    let node = Type::Named(name);
                    proof {
                        lemma_type_view(node);
                    }
                    Ok(node)
                }
            },
            _ => Err(self.unexpected("Expected type")),
        }
    }

    /// Parses a function type, at its `fn`.
    fn parse_function_type(&mut self) -> (result: Result<Type, ParseError>)
        requires
            old(self).wf(),
        ensures
            final(self).advances(
                *old(self),
                match result {
                    Ok(node) => Ok(node@),
                    Err(error) => Err(error@),
                },
                function_type(old(self).tokens(), old(self).position()),
            ),
        decreases remaining(old(self).tokens(), old(self).position()), 0int,
    {
        proof {
            lemma_function_type(self.tokens(), self.position());
        }
        self.consume(TokenKind::Fn, "Expected 'fn'")?;
        self.consume(TokenKind::LeftParen, "Expected '(' after 'fn'")?;
        let params = self.parse_type_list()?;
        self.consume(TokenKind::RightParen, "Expected ')' after function parameters")?;
        self.consume(TokenKind::Arrow, "Expected '->' after function parameters")?;
        let ret = self.parse_type()?;
        let node = Type::Function(params, Box::new(ret));
        proof {
            lemma_type_view(node);
        }
        Ok(node)
    }

    /// Parses an array or a slice type, at its `[`.
    fn parse_array_or_slice_type(&mut self) -> (result: Result<Type, ParseError>)
        requires
            old(self).wf(),
        ensures
            final(self).advances(
                *old(self),
                match result {
                    Ok(node) => Ok(node@),
                    Err(error) => Err(error@),
                },
                array_or_slice_type(old(self).tokens(), old(self).position()),
            ),
        decreases remaining(old(self).tokens(), old(self).position()), 0int,
    {
        proof {
            lemma_array_or_slice_type(self.tokens(), self.position());
        }
        self.consume(TokenKind::LeftBracket, "Expected '['")?;
        let element = self.parse_type()?;
        if self.match_token(&TokenKind::Semicolon) {
            let size: Option<usize> = match self.peek() {
                TokenKind::IntLiteral(n) => if *n >= 0 {
                    Some(*n as usize)
                } else {
                    None
                },
                _ => None,
            };
            match size {
                Some(size) => {
                    self.advance();
                    self.consume(TokenKind::RightBracket, "Expected ']' after array size")?;
                    let node = Type::Array(Box::new(element), size);
                    proof {
                        lemma_type_view(node);
                    }
                    Ok(node)
                },
                None => Err(self.plain_error("Expected array size")),
            }
        } else {
            self.consume(TokenKind::RightBracket, "Expected ']' after slice type")?;
            let node = Type::Slice(Box::new(element));
            proof {
                lemma_type_view(node);
            }
            Ok(node)
        }
    }

    /// Parses the unit type, a tuple type, or a function type written with
    /// a parenthesized parameter list, at its `(`.
    fn parse_parenthesized_type(&mut self) -> (result: Result<Type, ParseError>)
        requires
            old(self).wf(),
        ensures
            final(self).advances(
                *old(self),
                match result {
                    Ok(node) => Ok(node@),
                    Err(error) => Err(error@),
                },
                parenthesized_type(old(self).tokens(), old(self).position()),
            ),
        decreases remaining(old(self).tokens(), old(self).position()), 0int,
    {
        proof {
            lemma_parenthesized_type(self.tokens(), self.position());
        }
        self.consume(TokenKind::LeftParen, "Expected '('")?;
        if self.match_token(&TokenKind::RightParen) {
            let node = Type::Unit;
            proof {
                lemma_type_view(node);
            }
            return Ok(node);
        }
        let first = self.parse_type()?;
        let types = self.parse_tuple_rest(first)?;
        self.consume(TokenKind::RightParen, "Expected ')' after tuple types")?;
        if self.match_token(&TokenKind::Arrow) {
            let ret = self.parse_type()?;
            let node = Type::Function(types, Box::new(ret));
            proof {
                lemma_type_view(node);
            }
            Ok(node)
        } else {
            let node = Type::Tuple(types);
            proof {
                lemma_type_view(node);
            }
            Ok(node)
        }
    }

    /// Parses types separated by commas, up to a `)`.
    pub(crate) fn parse_type_list(&mut self) -> (result: Result<Vec<Type>, ParseError>)
        requires
            old(self).wf(),
        ensures
            final(self).yields(
                *old(self),
                match result {
                    Ok(items) => Ok(types_view(items@)),
                    Err(error) => Err(error@),
                },
                type_list(old(self).tokens(), old(self).position(), Seq::empty()),
            ),
        decreases remaining(old(self).tokens(), old(self).position()), 2int,
    {
        proof {
            lemma_type_list(self.tokens(), self.position(), Seq::empty());
        }
        let ghost start = self.position();
        let ghost whole = type_list(self.tokens(), start, Seq::empty());
        let mut types: Vec<Type> = Vec::new();
        proof {
            lemma_types_view_empty();
            assert(types@ =~= Seq::<Type>::empty());
        }
        loop
            invariant_except_break
                whole == after(
                    (self.position() - start) as nat,
                    type_list(self.tokens(), self.position(), types_view(types@)),
                ),
            invariant
                whole == type_list(old(self).tokens(), old(self).position(), Seq::empty()),
                self.moved(*old(self), (self.position() - start) as nat),
                start == old(self).position(),
                remaining(self.tokens(), self.position()) <= remaining(
                    old(self).tokens(),
                    old(self).position(),
                ),
            ensures
                whole.result == Ok::<Seq<crate::ast::model::TypeView>, crate::grammar::ParseErrorView>(
                    types_view(types@),
                ),
                whole.used == self.position() - start,
            decreases remaining(self.tokens(), self.position()),
        {
            proof {
                lemma_type_list(self.tokens(), self.position(), types_view(types@));
            }
            if self.check(&TokenKind::RightParen) || self.is_at_end() {
                break;
            }
            let item = self.parse_type()?;
            proof {
                lemma_types_view_push(types@, item);
            }
            types.push(item);
            if !self.match_token(&TokenKind::Comma) {
                break;
            }
        }
        Ok(types)
    }

    /// Parses the further members of a tuple type; `first` is the one
    /// already read.
    fn parse_tuple_rest(&mut self, first: Type) -> (result: Result<Vec<Type>, ParseError>)
        requires
            old(self).wf(),
        ensures
            final(self).yields(
                *old(self),
                match result {
                    Ok(items) => Ok(types_view(items@)),
                    Err(error) => Err(error@),
                },
                tuple_rest(old(self).tokens(), old(self).position(), seq![first@]),
            ),
        decreases remaining(old(self).tokens(), old(self).position()), 2int,
    {
        proof {
            lemma_tuple_rest(self.tokens(), self.position(), seq![first@]);
        }
        let ghost start = self.position();
        let ghost whole = tuple_rest(self.tokens(), start, seq![first@]);
        let mut types: Vec<Type> = Vec::new();
        proof {
            lemma_types_view_empty();
            assert(types@ =~= Seq::<Type>::empty());
            lemma_types_view_push(types@, first);
            assert(Seq::<crate::ast::model::TypeView>::empty().push(first@) =~= seq![first@]);
        }
        types.push(first);
        loop
            invariant_except_break
                whole == after(
                    (self.position() - start) as nat,
                    tuple_rest(self.tokens(), self.position(), types_view(types@)),
                ),
            invariant
                whole == tuple_rest(old(self).tokens(), old(self).position(), seq![first@]),
                self.moved(*old(self), (self.position() - start) as nat),
                start == old(self).position(),
                remaining(self.tokens(), self.position()) <= remaining(
                    old(self).tokens(),
                    old(self).position(),
                ),
            ensures
                whole.result == Ok::<Seq<crate::ast::model::TypeView>, crate::grammar::ParseErrorView>(
                    types_view(types@),
                ),
                whole.used == self.position() - start,
            decreases remaining(self.tokens(), self.position()),
        {
            proof {
                lemma_tuple_rest(self.tokens(), self.position(), types_view(types@));
            }
            if !self.match_token(&TokenKind::Comma) {
                break;
            }
            if self.check(&TokenKind::RightParen) {
                break;
            }
            let item = self.parse_type()?;
            proof {
                lemma_types_view_push(types@, item);
            }
            types.push(item);
        }
        Ok(types)
    }

    /// Parses the further arguments of a generic type; `first` is the one
    /// already read.
    fn parse_generic_arguments(&mut self, first: Type) -> (result: Result<Vec<Type>, ParseError>)
        requires
            old(self).wf(),
        ensures
            final(self).yields(
                *old(self),
                match result {
                    Ok(items) => Ok(types_view(items@)),
                    Err(error) => Err(error@),
                },
                generic_arguments(old(self).tokens(), old(self).position(), seq![first@]),
            ),
        decreases remaining(old(self).tokens(), old(self).position()), 2int,
    {
        proof {
            lemma_generic_arguments(self.tokens(), self.position(), seq![first@]);
        }
        let ghost start = self.position();
        let ghost whole = generic_arguments(self.tokens(), start, seq![first@]);
        let mut types: Vec<Type> = Vec::new();
        proof {
            lemma_types_view_empty();
            assert(types@ =~= Seq::<Type>::empty());
            lemma_types_view_push(types@, first);
            assert(Seq::<crate::ast::model::TypeView>::empty().push(first@) =~= seq![first@]);
        }
        types.push(first);
        loop
            invariant_except_break
                whole == after(
                    (self.position() - start) as nat,
                    generic_arguments(self.tokens(), self.position(), types_view(types@)),
                ),
            invariant
                whole == generic_arguments(old(self).tokens(), old(self).position(), seq![first@]),
                self.moved(*old(self), (self.position() - start) as nat),
                start == old(self).position(),
                remaining(self.tokens(), self.position()) <= remaining(
                    old(self).tokens(),
                    old(self).position(),
                ),
            ensures
                whole.result == Ok::<Seq<crate::ast::model::TypeView>, crate::grammar::ParseErrorView>(
                    types_view(types@),
                ),
                whole.used == self.position() - start,
            decreases remaining(self.tokens(), self.position()),
        {
            proof {
                lemma_generic_arguments(self.tokens(), self.position(), types_view(types@));
            }
            if !self.match_token(&TokenKind::Comma) {
                break;
            }
            let item = self.parse_type()?;
            proof {
                lemma_types_view_push(types@, item);
            }
            types.push(item);
        }
        Ok(types)
    }
}

} // verus!
