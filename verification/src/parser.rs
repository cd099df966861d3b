//! The parser: recursive descent over a token sequence, with precedence
//! climbing for expressions, a count of the enclosing loops, and recovery
//! at item boundaries after an error.

use vstd::prelude::*;
use vstd::string::StringExecFns;
use crate::ast::model::{lemma_views_empty, lemma_views_push, views, ProgramView};
use crate::ast::{Item, Program};
use crate::grammar::items::{items_from, program_result, resume_distance, synchronize};
use crate::grammar::{
    at_end, check, expect, ident, kind_at, plain_error, remaining, skip, span_at, unexpected,
    well_formed, ParseErrorView, Step,
};
use crate::span::Span;
use crate::text::push_decimal;
use crate::token::{Token, TokenKind};

pub mod expressions;
pub mod items;
pub mod patterns;
pub mod statements;
pub mod types;

verus! {

/// A syntax error: a message, the span it points at, and an optional
/// suggestion.
#[derive(Debug)]
pub struct ParseError {
    pub message: String,
    pub span: Span,
    pub help: Option<String>,
}

impl View for ParseError {
    type V = ParseErrorView;

    open spec fn view(&self) -> ParseErrorView {
        ParseErrorView {
            message: self.message@,
            span: self.span,
            help: match self.help {
                Some(text) => Some(text@),
                None => None,
            },
        }
    }
}

impl ParseErrorView {
    /// The error as one text: the line and column, the message, and on a
    /// second line the suggestion, if there is one.
    pub open spec fn display_text(self) -> Seq<char> {
        let head = "Parse error at line "@ + crate::text::decimal_text(self.span.line as int)
            + ", column "@ + crate::text::decimal_text(self.span.column as int) + ": "@
            + self.message;
        match self.help {
            Some(text) => head + "\nhelp: "@ + text,
            None => head,
        }
    }
}

impl ParseError {
    pub fn new(message: String, span: Span) -> (error: Self)
        ensures
            error == (ParseError { message, span, help: None }),
    {
        ParseError { message, span, help: None }
    }

    pub fn with_help(self, help: String) -> (error: Self)
        ensures
            error == (ParseError { message: self.message, span: self.span, help: Some(help) }),
    {
        ParseError { message: self.message, span: self.span, help: Some(help) }
    }

    /// The error as one text, as a diagnostic prints it.
    pub fn describe(&self) -> (text: String)
        ensures
            text@ == self@.display_text(),
    {
        let mut text = String::from_str("Parse error at line ");
        push_decimal(&mut text, self.span.line as i64);
        text.append(", column ");
        push_decimal(&mut text, self.span.column as i64);
        text.append(": ");
        text.append(self.message.as_str());
        match &self.help {
            Some(help) => {
                text.append("\nhelp: ");
                text.append(help.as_str());
            },
            None => {},
        }
        text
    }
}

impl Clone for ParseError {
    fn clone(&self) -> (copy: Self)
        ensures
            copy@ == self@,
    {
        ParseError {
            message: self.message.clone(),
            span: self.span,
            help: match &self.help {
                Some(text) => Some(text.clone()),
                None => None,
            },
        }
    }
}

/// Copies of the errors in `errors`.
fn clone_errors(errors: &Vec<ParseError>) -> (copies: Vec<ParseError>)
    ensures
        views(copies@) == views(errors@),
{
    let mut copies: Vec<ParseError> = Vec::new();
    let mut i: usize = 0;
    proof {
        assert(copies@ =~= errors@.take(0));
    }
    while i < errors.len()
        invariant
            i <= errors.len(),
            views(copies@) == views(errors@.take(i as int)),
        decreases errors.len() - i,
    {
        let copy = errors[i].clone();
        proof {
            assert(errors@.take(i + 1) =~= errors@.take(i as int).push(errors@[i as int]));
            lemma_views_push(copies@, copy);
            lemma_views_push(errors@.take(i as int), errors@[i as int]);
        }
        copies.push(copy);
        i += 1;
    }
    assert(errors@.take(errors.len() as int) =~= errors@);
    copies
}

/// A cursor over a token sequence, with the errors found so far.
pub struct Parser {
    tokens: Vec<Token>,
    current: usize,
    errors: Vec<ParseError>,
    panic_mode: bool,
    loop_depth: usize,
}

impl Parser {
    /// The tokens that the parser reads.
    pub closed spec fn tokens(&self) -> Seq<Token> {
        self.tokens@
    }

    /// The index of the next token to read.
    pub closed spec fn position(&self) -> nat {
        self.current as nat
    }

    /// The number of `while` and `for` bodies around the position.
    pub closed spec fn depth(&self) -> nat {
        self.loop_depth as nat
    }

    /// The errors recorded so far, in the order in which they were found.
    pub closed spec fn reported(&self) -> Seq<ParseErrorView> {
        views(self.errors@)
    }

    /// The invariant of a parser: its tokens end with `Eof`, its position is
    /// that of a token, it is not recovering from an error, and no more
    /// loops are open than tokens were read.
    pub closed spec fn wf(&self) -> bool {
        self.steady() && !self.panic_mode
    }

    /// What holds of a parser in both of its states, the normal one and the
    /// one in which it recovers from an error.
    pub closed spec fn steady(&self) -> bool {
        &&& well_formed(self.tokens@)
        &&& self.current < self.tokens.len()
        &&& self.loop_depth <= self.current
    }

    /// `self` is `before` after `used` more tokens were read: nothing else
    /// has changed.
    pub open spec fn moved(self, before: Parser, used: nat) -> bool {
        &&& self.wf()
        &&& self.tokens() == before.tokens()
        &&& self.reported() == before.reported()
        &&& self.depth() == before.depth()
        &&& self.position() == before.position() + used
    }

    /// `self` is `before` after the production with the outcome `step`, and
    /// `got` is what that production yields.
    pub open spec fn yields<V>(
        self,
        before: Parser,
        got: Result<V, ParseErrorView>,
        step: Step<V>,
    ) -> bool {
        self.moved(before, step.used) && got == step.result
    }

    /// `self` is `before` after the production with the outcome `step`, `got`
    /// is what that production yields, and where it yields a node it has
    /// read at least one token.
    pub open spec fn advances<V>(
        self,
        before: Parser,
        got: Result<V, ParseErrorView>,
        step: Step<V>,
    ) -> bool {
        self.yields(before, got, step) && (got is Ok ==> step.used > 0)
    }

    /// A parser at the first of `tokens`, with no error recorded and no loop
    /// open.
    pub fn new(tokens: Vec<Token>) -> (parser: Self)
        requires
            well_formed(tokens@),
        ensures
            parser.wf(),
            parser.tokens() == tokens@,
            parser.position() == 0,
            parser.depth() == 0,
            parser.reported() == Seq::<ParseErrorView>::empty(),
    {
        proof {
            crate::ast::model::lemma_views_empty::<ParseError>();
        }
        let errors: Vec<ParseError> = Vec::new();
        assert(errors@ =~= Seq::<ParseError>::empty());
        Parser { tokens, current: 0, errors, panic_mode: false, loop_depth: 0 }
    }

    /// The kind of the token at the position.
    pub(crate) fn peek(&self) -> (kind: &TokenKind)
        requires
            self.wf(),
        ensures
            kind@ == kind_at(self.tokens(), self.position()),
            *kind == self.tokens()[self.position() as int].kind,
    {
        &self.tokens[self.current].kind
    }

    /// The span of the token at the position.
    pub(crate) fn current_span(&self) -> (span: Span)
        requires
            self.wf(),
        ensures
            span == span_at(self.tokens(), self.position()),
    {
        self.tokens[self.current].span
    }

    /// The span of the token before the position.
    pub(crate) fn previous_span(&self) -> (span: Span)
        requires
            self.wf(),
            self.position() > 0,
        ensures
            span == span_at(self.tokens(), (self.position() - 1) as nat),
    {
        self.tokens[self.current - 1].span
    }

    /// Whether the position is at the end of the input.
    pub(crate) fn is_at_end(&self) -> (end: bool)
        requires
            self.wf(),
        ensures
            end == at_end(self.tokens(), self.position()),
    {
        matches!(self.tokens[self.current].kind, TokenKind::Eof)
    }

    /// Moves past the token at the position, unless the input ends there.
    pub(crate) fn advance(&mut self)
        requires
            old(self).wf(),
        ensures
            final(self).moved(
                *old(self),
                if at_end(old(self).tokens(), old(self).position()) {
                    0nat
                } else {
                    1nat
                },
            ),
    {
        if !self.is_at_end() {
            self.current += 1;
        }
    }

    /// Whether the token at the position is of the variant of `kind`.
    pub(crate) fn check(&self, kind: &TokenKind) -> (same: bool)
        requires
            self.wf(),
        ensures
            same == check(self.tokens(), self.position(), kind@),
    {
        if self.is_at_end() {
            false
        } else {
            self.tokens[self.current].kind.same_variant(kind)
        }
    }

    /// Moves past the token at the position if it is of the variant of
    /// `kind`, and says whether it was.
    pub(crate) fn match_token(&mut self, kind: &TokenKind) -> (same: bool)
        requires
            old(self).wf(),
        ensures
            same == check(old(self).tokens(), old(self).position(), kind@),
            final(self).wf(),
            final(self).tokens() == old(self).tokens(),
            final(self).reported() == old(self).reported(),
            final(self).depth() == old(self).depth(),
            final(self).position() == skip(old(self).tokens(), old(self).position(), kind@),
    {
        if self.check(kind) {
            self.current += 1;
            true
        } else {
            false
        }
    }

    /// The kind of the token `n` places after the position, if there is one.
    pub(crate) fn peek_ahead(&self, n: usize) -> (kind: Option<&TokenKind>)
        requires
            self.wf(),
        ensures
            match kind {
                Some(k) => self.position() + n < self.tokens().len() && *k == self.tokens()[self.position()
                    + n].kind,
                None => self.position() + n >= self.tokens().len(),
            },
    {
        if n < self.tokens.len() - self.current {
            Some(&self.tokens[self.current + n].kind)
        } else {
            None
        }
    }

    /// Leaves the state of recovery: moves past the token at the position,
    /// and then to the next point at which parsing can resume.
    fn synchronize(&mut self)
        requires
            old(self).steady(),
        ensures
            final(self).wf(),
            final(self).tokens() == old(self).tokens(),
            final(self).reported() == old(self).reported(),
            final(self).depth() == old(self).depth(),
            final(self).position() == synchronize(old(self).tokens(), old(self).position()),
    {
        self.panic_mode = false;
        self.advance();
        let ghost first = self.position();
        loop
            invariant_except_break
                first + resume_distance(self.tokens(), first) == self.position() + resume_distance(
                    self.tokens(),
                    self.position(),
                ),
            invariant
                self.wf(),
                self.tokens() == old(self).tokens(),
                self.reported() == old(self).reported(),
                self.depth() == old(self).depth(),
                self.position() > 0 || at_end(self.tokens(), self.position()),
            ensures
                first + resume_distance(self.tokens(), first) == self.position(),
            decreases remaining(self.tokens(), self.position()),
        {
            if self.is_at_end() {
                break;
            }
            if matches!(self.tokens[self.current - 1].kind, TokenKind::Semicolon) {
                break;
            }
            match self.peek() {
                TokenKind::Fn
                | TokenKind::Struct
                | TokenKind::Enum
                | TokenKind::Let
                | TokenKind::If
                | TokenKind::While
                | TokenKind::For
                | TokenKind::Return
                | TokenKind::Match => {
                    break;
                },
                _ => {},
            }
            self.advance();
        }
    }

    /// Parses a program: the items up to the end of the input. After an
    /// item that cannot be read, its error is recorded and parsing resumes
    /// at the next synchronization point, so that one call finds every
    /// error. The program is returned if no error is on record, else all
    /// the errors.
    pub fn parse(&mut self) -> (result: Result<Program, Vec<ParseError>>)
        requires
            old(self).wf(),
        ensures
            final(self).wf(),
            final(self).tokens() == old(self).tokens(),
            final(self).depth() == old(self).depth(),
            ({
                let outcome = items_from(
                    old(self).tokens(),
                    old(self).position(),
                    old(self).depth(),
                    Seq::empty(),
                    old(self).reported(),
                );
                &&& final(self).position() == outcome.end
                &&& final(self).reported() == outcome.errors
                &&& program_result(old(self).tokens(), old(self).position(), outcome) == (match result {
                    Ok(program) => Ok::<ProgramView, Seq<ParseErrorView>>(program@),
                    Err(errors) => Err(views(errors@)),
                })
            }),
    {
        let start = self.current_span();
        let ghost from = self.position();
        let mut items: Vec<Item> = Vec::new();
        proof {
            lemma_views_empty::<Item>();
            assert(items@ =~= Seq::<Item>::empty());
        }
        while !self.is_at_end()
            invariant
                self.wf(),
                self.tokens() == old(self).tokens(),
                self.depth() == old(self).depth(),
                from == old(self).position(),
                from <= self.position(),
                start == span_at(self.tokens(), from),
                items_from(
                    old(self).tokens(),
                    old(self).position(),
                    old(self).depth(),
                    Seq::empty(),
                    old(self).reported(),
                ) == items_from(
                    self.tokens(),
                    self.position(),
                    self.depth(),
                    views(items@),
                    self.reported(),
                ),
            decreases remaining(self.tokens(), self.position()),
        {
            match self.parse_item() {
                Ok(item) => {
                    proof {
                        lemma_views_push(items@, item);
                    }
                    items.push(item);
                    self.panic_mode = false;
                },
                Err(error) => {
                    proof {
                        lemma_views_push(self.errors@, error);
                    }
                    self.errors.push(error);
                    self.panic_mode = true;
                    self.synchronize();
                },
            }
        }
        if self.errors.len() == 0 {
            let end = if self.current > 0 {
                self.tokens[self.current - 1].span
            } else {
                start
            };
            Ok(Program { items, span: start.merge(&end) })
        } else {
            Err(clone_errors(&self.errors))
        }
    }

    /// The error for the token at the position, which the production in
    /// progress cannot take.
    pub(crate) fn unexpected(&self, message: &str) -> (error: ParseError)
        requires
            self.wf(),
        ensures
            error@ == unexpected(self.tokens(), self.position(), message@),
    {
        proof {
            reveal(unexpected);
        }
        let mut text = String::from_str(message);
        text.append(", found ");
        text.append(self.tokens[self.current].kind.debug_text().as_str());
        ParseError::new(text, self.tokens[self.current].span)
    }

    /// The error with the plain `message`, at the token at the position.
    pub(crate) fn plain_error(&self, message: &str) -> (error: ParseError)
        requires
            self.wf(),
        ensures
            error@ == plain_error(self.tokens(), self.position(), message@),
    {
        proof {
            reveal(plain_error);
        }
        ParseError::new(String::from_str(message), self.tokens[self.current].span)
    }

    /// Moves past a token of the variant of `kind`, or fails with `message`.
    pub(crate) fn consume(&mut self, kind: TokenKind, message: &str) -> (result: Result<
        (),
        ParseError,
    >)
        requires
            old(self).wf(),
        ensures
            final(self).moved(
                *old(self),
                expect(old(self).tokens(), old(self).position(), kind@, message@).used,
            ),
            result is Ok == check(old(self).tokens(), old(self).position(), kind@),
            match result {
                Ok(_) => true,
                Err(error) => error@ == unexpected(
                    old(self).tokens(),
                    old(self).position(),
                    message@,
                ),
            },
    {
        if self.check(&kind) {
            self.current += 1;
            Ok(())
        } else {
            Err(self.unexpected(message))
        }
    }

    /// Moves past an identifier and yields its name, or fails with
    /// `message`.
    pub(crate) fn expect_ident(&mut self, message: &str) -> (result: Result<String, ParseError>)
        requires
            old(self).wf(),
        ensures
            final(self).yields(
                *old(self),
                match result {
                    Ok(name) => Ok(name@),
                    Err(error) => Err(error@),
                },
                ident(old(self).tokens(), old(self).position(), message@),
            ),
    {
        match &self.tokens[self.current].kind {
            TokenKind::Ident(name) => {
                let name = name.clone();
                self.current += 1;
                Ok(name)
            },
            _ => Err(self.unexpected(message)),
        }
    }
}

} // verus!
