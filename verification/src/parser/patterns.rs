//! Parsing patterns.

use vstd::prelude::*;
use crate::ast::{Literal, Pattern};
use crate::ast::abstraction::{
    lemma_named_patterns_view_empty, lemma_named_patterns_view_push, lemma_pattern_view,
    lemma_patterns_view_empty, lemma_patterns_view_push, named_patterns_view, patterns_view,
};
use crate::ast::model::PatternView;
use crate::grammar::{after, remaining, ParseErrorView};
use crate::grammar::patterns::{
    alternatives, field_patterns, pattern, pattern_list, single_pattern,
};
use crate::grammar::unfold::{
    lemma_alternatives, lemma_field_patterns, lemma_pattern, lemma_pattern_list,
    lemma_single_pattern,
};
use crate::parser::{ParseError, Parser};
use crate::token::TokenKind;

verus! {

impl Parser {
    /// Parses a pattern.
    pub(crate) fn parse_pattern(&mut self) -> (result: Result<Pattern, ParseError>)
        requires
            old(self).wf(),
        ensures
            final(self).advances(
                *old(self),
                match result {
                    Ok(node) => Ok(node@),
                    Err(error) => Err(error@),
                },
                pattern(old(self).tokens(), old(self).position()),
            ),
        decreases remaining(old(self).tokens(), old(self).position()), 2int,
    {
        proof {
            lemma_pattern(self.tokens(), self.position());
        }
        let first = self.parse_single_pattern()?;
        if self.check(&TokenKind::BitwiseOr) {
            let all = self.parse_alternatives(first)?;
            let node = Pattern::Or(all);
            proof {
                lemma_pattern_view(node);
            }
            Ok(node)
        } else {
            Ok(first)
        }
    }

    /// Parses the further alternatives of an or-pattern; `first` is the one
    /// already read.
    fn parse_alternatives(&mut self, first: Pattern) -> (result: Result<Vec<Pattern>, ParseError>)
        requires
            old(self).wf(),
        ensures
            final(self).yields(
                *old(self),
                match result {
                    Ok(items) => Ok(patterns_view(items@)),
                    Err(error) => Err(error@),
                },
                alternatives(old(self).tokens(), old(self).position(), seq![first@]),
            ),
        decreases remaining(old(self).tokens(), old(self).position()), 1int,
    {
        proof {
            lemma_alternatives(self.tokens(), self.position(), seq![first@]);
        }
        let ghost start = self.position();
        let ghost whole = alternatives(self.tokens(), start, seq![first@]);
        let mut found: Vec<Pattern> = Vec::new();
        proof {
            lemma_patterns_view_empty();
            assert(found@ =~= Seq::<Pattern>::empty());
            lemma_patterns_view_push(found@, first);
            assert(Seq::<PatternView>::empty().push(first@) =~= seq![first@]);
        }
        found.push(first);
        loop
            invariant_except_break
                whole == after(
                    (self.position() - start) as nat,
                    alternatives(self.tokens(), self.position(), patterns_view(found@)),
                ),
            invariant
                whole == alternatives(old(self).tokens(), old(self).position(), seq![first@]),
                self.moved(*old(self), (self.position() - start) as nat),
                start == old(self).position(),
                remaining(self.tokens(), self.position()) <= remaining(
                    old(self).tokens(),
                    old(self).position(),
                ),
            ensures
                whole.result == Ok::<Seq<PatternView>, ParseErrorView>(patterns_view(found@)),
                whole.used == self.position() - start,
            decreases remaining(self.tokens(), self.position()),
        {
            proof {
                lemma_alternatives(self.tokens(), self.position(), patterns_view(found@));
            }
            if !self.match_token(&TokenKind::BitwiseOr) {
                break;
            }
            let item = self.parse_single_pattern()?;
            proof {
                lemma_patterns_view_push(found@, item);
            }
            found.push(item);
        }
        Ok(found)
    }

    /// Parses a pattern without alternatives.
    pub(crate) fn parse_single_pattern(&mut self) -> (result: Result<Pattern, ParseError>)
        requires
            old(self).wf(),
        ensures
            final(self).advances(
                *old(self),
                match result {
                    Ok(node) => Ok(node@),
                    Err(error) => Err(error@),
                },
                single_pattern(old(self).tokens(), old(self).position()),
            ),
        decreases remaining(old(self).tokens(), old(self).position()), 0int,
    {
        proof {
            lemma_single_pattern(self.tokens(), self.position());
        }
        match self.peek() {
            TokenKind::Underscore => {
                self.advance();
                let node = Pattern::Wildcard;
                proof {
                    lemma_pattern_view(node);
                }
                Ok(node)
            },
            TokenKind::IntLiteral(n) => {
                let n = *n as i64;
                self.advance();
                let node = Pattern::Literal(Literal::Int(n));
                proof {
                    lemma_pattern_view(node);
                }
                Ok(node)
            },
            TokenKind::BoolLiteral(b) => {
                let b = *b;
                self.advance();
                let node = Pattern::Literal(Literal::Bool(b));
                proof {
                    lemma_pattern_view(node);
                }
                Ok(node)
            },
            TokenKind::Ident(name) => {
                let name = name.clone();
                self.advance();
                if self.match_token(&TokenKind::LeftBrace) {
                    let fields = self.parse_field_patterns()?;
                    self.consume(
                        TokenKind::RightBrace,
                        "Expected '}' after struct pattern fields",
                    )?;
                    let node = Pattern::Struct(name, fields);
                    proof {
                        lemma_pattern_view(node);
                    }
                    Ok(node)
                } else {
                    let node = Pattern::Ident(name);
                    proof {
                        lemma_pattern_view(node);
                    }
                    Ok(node)
                }
            },
            TokenKind::LeftParen => {
                self.advance();
                let members = self.parse_pattern_list()?;
                self.consume(TokenKind::RightParen, "Expected ')' after tuple pattern")?;
                let node = Pattern::Tuple(members);
                proof {
                    lemma_pattern_view(node);
                }
                Ok(node)
            },
            _ => Err(self.unexpected("Expected pattern")),
        }
    }

    /// Parses patterns separated by commas, up to a `)`.
    fn parse_pattern_list(&mut self) -> (result: Result<Vec<Pattern>, ParseError>)
        requires
            old(self).wf(),
        ensures
            final(self).yields(
                *old(self),
                match result {
                    Ok(items) => Ok(patterns_view(items@)),
                    Err(error) => Err(error@),
                },
                pattern_list(old(self).tokens(), old(self).position(), Seq::empty()),
            ),
        decreases remaining(old(self).tokens(), old(self).position()), 3int,
    {
        proof {
            lemma_pattern_list(self.tokens(), self.position(), Seq::empty());
        }
        let ghost start = self.position();
        let ghost whole = pattern_list(self.tokens(), start, Seq::empty());
        let mut found: Vec<Pattern> = Vec::new();
        proof {
            lemma_patterns_view_empty();
            assert(found@ =~= Seq::<Pattern>::empty());
        }
        loop
            invariant_except_break
                whole == after(
                    (self.position() - start) as nat,
                    pattern_list(self.tokens(), self.position(), patterns_view(found@)),
                ),
            invariant
                whole == pattern_list(old(self).tokens(), old(self).position(), Seq::empty()),
                self.moved(*old(self), (self.position() - start) as nat),
                start == old(self).position(),
                remaining(self.tokens(), self.position()) <= remaining(
                    old(self).tokens(),
                    old(self).position(),
                ),
            ensures
                whole.result == Ok::<Seq<PatternView>, ParseErrorView>(patterns_view(found@)),
                whole.used == self.position() - start,
            decreases remaining(self.tokens(), self.position()),
        {
            proof {
                lemma_pattern_list(self.tokens(), self.position(), patterns_view(found@));
            }
            if self.check(&TokenKind::RightParen) || self.is_at_end() {
                break;
            }
            let item = self.parse_pattern()?;
            proof {
                lemma_patterns_view_push(found@, item);
            }
            found.push(item);
            if !self.match_token(&TokenKind::Comma) {
                break;
            }
        }
        Ok(found)
    }

    /// Parses the fields of a struct pattern, up to its `}`.
    fn parse_field_patterns(&mut self) -> (result: Result<Vec<(String, Pattern)>, ParseError>)
        requires
            old(self).wf(),
        ensures
            final(self).yields(
                *old(self),
                match result {
                    Ok(items) => Ok(named_patterns_view(items@)),
                    Err(error) => Err(error@),
                },
                field_patterns(old(self).tokens(), old(self).position(), Seq::empty()),
            ),
        decreases remaining(old(self).tokens(), old(self).position()), 3int,
    {
        proof {
            lemma_field_patterns(self.tokens(), self.position(), Seq::empty());
        }
        let ghost start = self.position();
        let ghost whole = field_patterns(self.tokens(), start, Seq::empty());
        let mut found: Vec<(String, Pattern)> = Vec::new();
        proof {
            lemma_named_patterns_view_empty();
            assert(found@ =~= Seq::<(String, Pattern)>::empty());
        }
        loop
            invariant_except_break
                whole == after(
                    (self.position() - start) as nat,
                    field_patterns(self.tokens(), self.position(), named_patterns_view(found@)),
                ),
            invariant
                whole == field_patterns(old(self).tokens(), old(self).position(), Seq::empty()),
                self.moved(*old(self), (self.position() - start) as nat),
                start == old(self).position(),
                remaining(self.tokens(), self.position()) <= remaining(
                    old(self).tokens(),
                    old(self).position(),
                ),
            ensures
                whole.result == Ok::<Seq<(Seq<char>, PatternView)>, ParseErrorView>(
                    named_patterns_view(found@),
                ),
                whole.used == self.position() - start,
            decreases remaining(self.tokens(), self.position()),
        {
            proof {
                lemma_field_patterns(self.tokens(), self.position(), named_patterns_view(found@));
            }
            if self.check(&TokenKind::RightBrace) || self.is_at_end() {
                break;
            }
            let name = self.expect_ident("Expected field name in pattern")?;
            let bound = if self.match_token(&TokenKind::Colon) {
                self.parse_pattern()?
            } else {
                Pattern::Ident(name.clone())
            };
            proof {
                lemma_pattern_view(bound);
                lemma_named_patterns_view_push(found@, (name, bound));
            }
            found.push((name, bound));
            if !self.match_token(&TokenKind::Comma) {
                break;
            }
        }
        Ok(found)
    }
}

} // verus!
