//! Parsing blocks and statements.

use vstd::prelude::*;
use vstd::string::StringExecFns;
use crate::ast::{
    Block, BreakStmt, ContinueStmt, ExprStmt, ForStmt, IfStmt, LetStmt, MatchStmt, ReturnStmt,
    Statement, WhileStmt,
};
use crate::ast::abstraction::{
    lemma_block_view, lemma_break_stmt_view, lemma_expr_stmt_view, lemma_for_stmt_view,
    lemma_if_stmt_view, lemma_let_stmt_view, lemma_match_stmt_view, lemma_return_stmt_view,
    lemma_statement_view, lemma_statements_view_empty, lemma_statements_view_push,
    lemma_while_stmt_view, statements_view,
};
use crate::ast::model::{ExprView, StatementView, TypeView};
use crate::grammar::{after, check, optional, remaining, ParseErrorView};
use crate::grammar::expressions::{after_label, expression, label_at};
use crate::grammar::statements::{
    block, break_statement, continue_statement, for_statement, if_statement, let_statement,
    match_statement, return_statement, statement, statements, while_statement,
};
use crate::grammar::types::type_;
use crate::grammar::unfold::{
    lemma_block, lemma_break_statement, lemma_for_statement, lemma_if_statement,
    lemma_let_statement, lemma_match_statement, lemma_return_statement, lemma_statement,
    lemma_statements, lemma_while_statement,
};
use crate::parser::{ParseError, Parser};
use crate::token::TokenKind;
use crate::token::TokenKindView;

verus! {

impl Parser {

    /// Parses a block.
    pub(crate) fn parse_block(&mut self) -> (result: Result<Block, ParseError>)
        requires
            old(self).wf(),
        ensures
            final(self).advances(
                *old(self),
                match result {
                    Ok(node) => Ok(node@),
                    Err(error) => Err(error@),
                },
                block(old(self).tokens(), old(self).position(), old(self).depth()),
            ),
        decreases remaining(old(self).tokens(), old(self).position()), 0int,
    {
        proof {
            lemma_block(self.tokens(), self.position(), self.depth());
        }
        let start = self.current_span();
        self.consume(TokenKind::LeftBrace, "Expected '{'")?;
        let all = self.parse_statements()?;
        self.consume(TokenKind::RightBrace, "Expected '}'")?;
        let span = start.merge(&self.previous_span());
        let node = Block { statements: all, span };
        proof {
            lemma_block_view(node);
        }
        Ok(node)
    }

    /// Parses the body of a loop: a block, read one loop deeper. The depth
    /// is restored when the block has been read, and when it could not be.
    pub(crate) fn parse_loop_body(&mut self) -> (result: Result<Block, ParseError>)
        requires
            old(self).wf(),
            old(self).depth() < old(self).position(),
        ensures
            final(self).advances(
                *old(self),
                match result {
                    Ok(node) => Ok(node@),
                    Err(error) => Err(error@),
                },
                block(old(self).tokens(), old(self).position(), old(self).depth() + 1),
            ),
        decreases remaining(old(self).tokens(), old(self).position()), 1int,
    {
        proof {
            lemma_block(self.tokens(), self.position(), self.depth() + 1);
        }
        self.loop_depth += 1;
        let body = self.parse_block();
        self.loop_depth -= 1;
        body
    }


    /// Parses statements, up to a `}`.
    fn parse_statements(&mut self) -> (result: Result<Vec<Statement>, ParseError>)
        requires
            old(self).wf(),
        ensures
            final(self).yields(
                *old(self),
                match result {
                    Ok(items) => Ok(statements_view(items@)),
                    Err(error) => Err(error@),
                },
                statements(
                    old(self).tokens(),
                    old(self).position(),
                    old(self).depth(),
                    Seq::empty(),
                ),
            ),
        decreases remaining(old(self).tokens(), old(self).position()), 54int,
    {
        proof {
            lemma_statements(self.tokens(), self.position(), self.depth(), Seq::empty());
        }
        let ghost start = self.position();
        let ghost whole = statements(self.tokens(), start, self.depth(), Seq::empty());
        let mut found: Vec<Statement> = Vec::new();
        proof {
            lemma_statements_view_empty();
            assert(found@ =~= Seq::<Statement>::empty());
        }
        loop
            invariant_except_break
                whole == after(
                    (self.position() - start) as nat,
                    statements(
                        self.tokens(),
                        self.position(),
                        self.depth(),
                        statements_view(found@),
                    ),
                ),
            invariant
                whole == statements(
                    old(self).tokens(),
                    old(self).position(),
                    old(self).depth(),
                    Seq::empty(),
                ),
                self.moved(*old(self), (self.position() - start) as nat),
                start == old(self).position(),
                remaining(self.tokens(), self.position()) <= remaining(
                    old(self).tokens(),
                    old(self).position(),
                ),
            ensures
                whole.result == Ok::<Seq<StatementView>, ParseErrorView>(statements_view(found@)),
                whole.used == self.position() - start,
            decreases remaining(self.tokens(), self.position()),
        {
            proof {
                lemma_statements(
                    self.tokens(),
                    self.position(),
                    self.depth(),
                    statements_view(found@),
                );
            }
            if self.check(&TokenKind::RightBrace) || self.is_at_end() {
                break;
            }
            let item = self.parse_statement()?;
            proof {
                lemma_statements_view_push(found@, item);
            }
            found.push(item);
        }
        Ok(found)
    }

    /// Parses a statement.
    pub(crate) fn parse_statement(&mut self) -> (result: Result<Statement, ParseError>)
        requires
            old(self).wf(),
        ensures
            final(self).advances(
                *old(self),
                match result {
                    Ok(node) => Ok(node@),
                    Err(error) => Err(error@),
                },
                statement(old(self).tokens(), old(self).position(), old(self).depth()),
            ),
        decreases remaining(old(self).tokens(), old(self).position()), 53int,
    {
        proof {
            lemma_statement(self.tokens(), self.position(), self.depth());
        }
        match self.peek() {
            TokenKind::Let => {
                let node = Statement::Let(self.parse_let_statement()?);
                proof {
                    lemma_statement_view(node);
                }
                Ok(node)
            },
            TokenKind::Return => {
                let node = Statement::Return(self.parse_return_statement()?);
                proof {
                    lemma_statement_view(node);
                }
                Ok(node)
            },
            TokenKind::If => {
                let node = Statement::If(self.parse_if_statement()?);
                proof {
                    lemma_statement_view(node);
                }
                Ok(node)
            },
            TokenKind::While => {
                let node = Statement::While(self.parse_while_statement()?);
                proof {
                    lemma_statement_view(node);
                }
                Ok(node)
            },
            TokenKind::For => {
                let node = Statement::For(self.parse_for_statement()?);
                proof {
                    lemma_statement_view(node);
                }
                Ok(node)
            },
            TokenKind::Match => {
                let node = Statement::Match(self.parse_match_statement()?);
                proof {
                    lemma_statement_view(node);
                }
                Ok(node)
            },
            TokenKind::Break => {
                let node = Statement::Break(self.parse_break_statement()?);
                proof {
                    lemma_statement_view(node);
                }
                Ok(node)
            },
            TokenKind::Continue => {
                let node = Statement::Continue(self.parse_continue_statement()?);
                proof {
                    lemma_statement_view(node);
                }
                Ok(node)
            },
            TokenKind::LeftBrace => {
                let node = Statement::Block(self.parse_block()?);
                proof {
                    lemma_statement_view(node);
                }
                Ok(node)
            },
            _ => {
                let expr = self.parse_expression_in(true)?;
                let semicolon = self.match_token(&TokenKind::Semicolon);
                let span = expr.span();
                let inner = ExprStmt { expr, semicolon, span };
                proof {
                    lemma_expr_stmt_view(inner);
                }
                let node = Statement::Expr(inner);
                proof {
                    lemma_statement_view(node);
                }
                Ok(node)
            },
        }
    }

    /// Parses a `let` statement.
    fn parse_let_statement(&mut self) -> (result: Result<LetStmt, ParseError>)
        requires
            old(self).wf(),
        ensures
            final(self).advances(
                *old(self),
                match result {
                    Ok(node) => Ok(node@),
                    Err(error) => Err(error@),
                },
                let_statement(old(self).tokens(), old(self).position(), old(self).depth()),
            ),
        decreases remaining(old(self).tokens(), old(self).position()), 1int,
    {
        proof {
            lemma_let_statement(self.tokens(), self.position(), self.depth());
        }
        let start = self.current_span();
        self.consume(TokenKind::Let, "Expected 'let'")?;
        let mutable = self.match_token(&TokenKind::Mut);
        let pattern = self.parse_pattern()?;
        let ghost p2 = self.position();
        let ty = if self.match_token(&TokenKind::Colon) {
            Some(self.parse_type()?)
        } else {
            None
        };
        let ghost part_ty = optional(
            check(self.tokens(), p2, TokenKindView::Colon),
            1,
            type_(self.tokens(), p2 + 1),
        );
        assert(self.position() == p2 + part_ty.used);
        assert(part_ty.result == Ok::<Option<TypeView>, ParseErrorView>(
            match ty {
                Some(v) => Some(v@),
                None => None,
            },
        ));
        let ghost p3 = self.position();
        let init = if self.match_token(&TokenKind::Assign) {
            Some(self.parse_expression_in(true)?)
        } else {
            None
        };
        let ghost part_init = optional(
            check(self.tokens(), p3, TokenKindView::Assign),
            1,
            expression(self.tokens(), p3 + 1, self.depth(), true),
        );
        assert(self.position() == p3 + part_init.used);
        assert(part_init.result == Ok::<Option<ExprView>, ParseErrorView>(
            match init {
                Some(v) => Some(v@),
                None => None,
            },
        ));
        self.consume(TokenKind::Semicolon, "Expected ';' after let statement")?;
        let span = start.merge(&self.previous_span());
        let node = LetStmt { pattern, ty, init, mutable, span };
        proof {
            lemma_let_stmt_view(node);
        }
        Ok(node)
    }

    /// Parses a `return` statement.
    fn parse_return_statement(&mut self) -> (result: Result<ReturnStmt, ParseError>)
        requires
            old(self).wf(),
        ensures
            final(self).advances(
                *old(self),
                match result {
                    Ok(node) => Ok(node@),
                    Err(error) => Err(error@),
                },
                return_statement(old(self).tokens(), old(self).position(), old(self).depth()),
            ),
        decreases remaining(old(self).tokens(), old(self).position()), 1int,
    {
        proof {
            lemma_return_statement(self.tokens(), self.position(), self.depth());
        }
        let start = self.current_span();
        self.consume(TokenKind::Return, "Expected 'return'")?;
        let expr = if self.check(&TokenKind::Semicolon) {
            None
        } else {
            Some(self.parse_expression_in(true)?)
        };
        self.consume(TokenKind::Semicolon, "Expected ';' after return statement")?;
        let span = start.merge(&self.previous_span());
        let node = ReturnStmt { expr, span };
        proof {
            lemma_return_stmt_view(node);
        }
        Ok(node)
    }

    /// Parses an `if` statement.
    fn parse_if_statement(&mut self) -> (result: Result<IfStmt, ParseError>)
        requires
            old(self).wf(),
        ensures
            final(self).advances(
                *old(self),
                match result {
                    Ok(node) => Ok(node@),
                    Err(error) => Err(error@),
                },
                if_statement(old(self).tokens(), old(self).position(), old(self).depth()),
            ),
        decreases remaining(old(self).tokens(), old(self).position()), 1int,
    {
        proof {
            lemma_if_statement(self.tokens(), self.position(), self.depth());
        }
        let start = self.current_span();
        self.consume(TokenKind::If, "Expected 'if'")?;
        let cond = self.parse_expression_in(false)?;
        let then_block = self.parse_block()?;
        let else_block = if self.match_token(&TokenKind::Else) {
            if self.check(&TokenKind::If) {
                let nested = self.parse_if_statement()?;
                let mut inner: Vec<Statement> = Vec::new();
                proof {
                    lemma_statement_view(Statement::If(nested));
                    lemma_statements_view_empty();
                    assert(inner@ =~= Seq::<Statement>::empty());
                    lemma_statements_view_push(inner@, Statement::If(nested));
                    assert(Seq::<StatementView>::empty().push(Statement::If(nested)@)
                        =~= seq![Statement::If(nested)@]);
                }
                inner.push(Statement::If(nested));
                let other = Block { statements: inner, span: self.previous_span() };
                proof {
                    lemma_block_view(other);
                }
                Some(other)
            } else {
                Some(self.parse_block()?)
            }
        } else {
            None
        };
        let span = start.merge(&self.previous_span());
        let node = IfStmt { cond, then_block, else_block, span };
        proof {
            lemma_if_stmt_view(node);
        }
        Ok(node)
    }

    /// Parses a `while` statement.
    fn parse_while_statement(&mut self) -> (result: Result<WhileStmt, ParseError>)
        requires
            old(self).wf(),
        ensures
            final(self).advances(
                *old(self),
                match result {
                    Ok(node) => Ok(node@),
                    Err(error) => Err(error@),
                },
                while_statement(old(self).tokens(), old(self).position(), old(self).depth()),
            ),
        decreases remaining(old(self).tokens(), old(self).position()), 1int,
    {
        proof {
            lemma_while_statement(self.tokens(), self.position(), self.depth());
        }
        let start = self.current_span();
        self.consume(TokenKind::While, "Expected 'while'")?;
        let cond = self.parse_expression_in(false)?;
        let body = self.parse_loop_body()?;
        let span = start.merge(&self.previous_span());
        let node = WhileStmt { cond, body, span };
        proof {
            lemma_while_stmt_view(node);
        }
        Ok(node)
    }

    /// Parses a `for` statement.
    fn parse_for_statement(&mut self) -> (result: Result<ForStmt, ParseError>)
        requires
            old(self).wf(),
        ensures
            final(self).advances(
                *old(self),
                match result {
                    Ok(node) => Ok(node@),
                    Err(error) => Err(error@),
                },
                for_statement(old(self).tokens(), old(self).position(), old(self).depth()),
            ),
        decreases remaining(old(self).tokens(), old(self).position()), 1int,
    {
        proof {
            lemma_for_statement(self.tokens(), self.position(), self.depth());
        }
        let start = self.current_span();
        self.consume(TokenKind::For, "Expected 'for'")?;
        let pattern = self.parse_pattern()?;
        self.consume(TokenKind::In, "Expected 'in' after for loop variable")?;
        let iterable = self.parse_expression_in(false)?;
        let body = self.parse_loop_body()?;
        let span = start.merge(&self.previous_span());
        let node = ForStmt { pattern, iterable, body, span };
        proof {
            lemma_for_stmt_view(node);
        }
        Ok(node)
    }

    /// Parses a `match` statement.
    fn parse_match_statement(&mut self) -> (result: Result<MatchStmt, ParseError>)
        requires
            old(self).wf(),
        ensures
            final(self).advances(
                *old(self),
                match result {
                    Ok(node) => Ok(node@),
                    Err(error) => Err(error@),
                },
                match_statement(old(self).tokens(), old(self).position(), old(self).depth()),
            ),
        decreases remaining(old(self).tokens(), old(self).position()), 1int,
    {
        proof {
            lemma_match_statement(self.tokens(), self.position(), self.depth());
        }
        let start = self.current_span();
        self.consume(TokenKind::Match, "Expected 'match'")?;
        let expr = self.parse_expression_in(false)?;
        self.consume(TokenKind::LeftBrace, "Expected '{' after match expression")?;
        let arms = self.parse_match_arms(true)?;
        self.consume(TokenKind::RightBrace, "Expected '}' after match arms")?;
        let span = start.merge(&self.previous_span());
        let node = MatchStmt { expr, arms, span };
        proof {
            lemma_match_stmt_view(node);
        }
        Ok(node)
    }

    /// Parses a `break` statement.
    fn parse_break_statement(&mut self) -> (result: Result<BreakStmt, ParseError>)
        requires
            old(self).wf(),
        ensures
            final(self).advances(
                *old(self),
                match result {
                    Ok(node) => Ok(node@),
                    Err(error) => Err(error@),
                },
                break_statement(old(self).tokens(), old(self).position(), old(self).depth()),
            ),
        decreases remaining(old(self).tokens(), old(self).position()), 1int,
    {
        proof {
            lemma_break_statement(self.tokens(), self.position(), self.depth());
        }
        let start = self.current_span();
        self.consume(TokenKind::Break, "Expected 'break'")?;
        if self.loop_depth == 0 {
            return Err(
                ParseError::new(String::from_str("break statement outside of loop"), start).with_help(
                    String::from_str("break can only be used inside while or for loops"),
                ),
            );
        }
        let label = self.parse_label();
        let ghost p1 = self.position();
        assert(p1 == after_label(self.tokens(), old(self).position() + 1));
        assert(label_at(self.tokens(), old(self).position() + 1) == match label {
            Some(name) => Some(name@),
            None => None,
        });
        let expr = if !self.check(&TokenKind::Semicolon) {
            Some(self.parse_expression_in(true)?)
        } else {
            None
        };
        let ghost part_expr = optional(
            !check(self.tokens(), p1, TokenKindView::Semicolon),
            0,
            expression(self.tokens(), p1, self.depth(), true),
        );
        assert(self.position() == p1 + part_expr.used);
        assert(part_expr.result == Ok::<Option<ExprView>, ParseErrorView>(
            match expr {
                Some(v) => Some(v@),
                None => None,
            },
        ));
        self.consume(TokenKind::Semicolon, "Expected ';' after break statement")?;
        let span = start.merge(&self.previous_span());
        let node = BreakStmt { label, expr, span };
        proof {
            lemma_break_stmt_view(node);
        }
        Ok(node)
    }

    /// Parses a `continue` statement.
    fn parse_continue_statement(&mut self) -> (result: Result<ContinueStmt, ParseError>)
        requires
            old(self).wf(),
        ensures
            final(self).advances(
                *old(self),
                match result {
                    Ok(node) => Ok(node@),
                    Err(error) => Err(error@),
                },
                continue_statement(old(self).tokens(), old(self).position(), old(self).depth()),
            ),
    {
        let start = self.current_span();
        self.consume(TokenKind::Continue, "Expected 'continue'")?;
        if self.loop_depth == 0 {
            return Err(
                ParseError::new(String::from_str("continue statement outside of loop"), start).with_help(
                    String::from_str("continue can only be used inside while or for loops"),
                ),
            );
        }
        let label = self.parse_label();
        self.consume(TokenKind::Semicolon, "Expected ';' after continue statement")?;
        let span = start.merge(&self.previous_span());
        Ok(ContinueStmt { label, span })
    }

}

} // verus!
