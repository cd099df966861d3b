//! Parsing expressions.

use vstd::prelude::*;
use vstd::string::StringExecFns;
use crate::ast::{BinOp, Block, Expr, Literal, MatchArm, Parameter, Type, UnOp};
use crate::ast::abstraction::{
    exprs_view, lemma_block_view, lemma_expr_view, lemma_exprs_view_empty, lemma_exprs_view_push,
    lemma_match_arm_view, lemma_match_arms_view_empty, lemma_match_arms_view_push,
    lemma_named_exprs_view_empty, lemma_named_exprs_view_push, lemma_type_view, match_arms_view,
    named_exprs_view,
};
use crate::ast::duplicate::clone_expr;
use crate::ast::model::{
    lemma_views_empty, lemma_views_push, views, BlockView, ExprView, MatchArmView, ParameterView,
    TypeView,
};
use crate::grammar::{
    after, at_end, check, kind_at, optional, remaining, unexpected_in_expression, ParseErrorView,
};
use crate::grammar::expressions::{
    arguments, arm_body, array_elements, array_literal, assignment, binary, binary_rest,
    break_expression, cast, closure, closure_from_paren, closure_parameter, closure_parameters,
    closure_tail, continue_expression, expression, field_values, after_label, for_expression,
    if_expression, label_at, match_arm, match_arms, match_expression, operand, operator, parameter,
    parameters, parenthesized, postfix, postfix_rest, primary, range, return_expression,
    struct_literal, unary, while_expression, ADDITIVE, LOGICAL_OR,
};
use crate::grammar::statements::block;
use crate::grammar::types::type_;
use crate::grammar::unfold::{
    lemma_arguments, lemma_arm_body, lemma_array_elements, lemma_array_literal, lemma_assignment,
    lemma_binary, lemma_binary_rest, lemma_break_expression, lemma_cast, lemma_closure,
    lemma_closure_from_paren, lemma_closure_parameters, lemma_closure_tail,
    lemma_continue_expression, lemma_expression, lemma_field_values, lemma_for_expression,
    lemma_if_expression, lemma_match_arm, lemma_match_arms, lemma_match_expression, lemma_operand,
    lemma_parameters, lemma_parenthesized, lemma_postfix, lemma_postfix_rest, lemma_primary,
    lemma_range, lemma_return_expression, lemma_struct_literal, lemma_unary, lemma_while_expression,
};
use crate::parser::{ParseError, Parser};
use crate::span::Span;
use crate::token::TokenKind;
use crate::token::TokenKindView;

verus! {

impl Parser {

    /// Parses an expression.
    pub fn parse_expression(&mut self) -> (result: Result<Expr, ParseError>)
        requires
            old(self).wf(),
        ensures
            final(self).advances(
                *old(self),
                match result {
                    Ok(node) => Ok(node@),
                    Err(error) => Err(error@),
                },
                expression(old(self).tokens(), old(self).position(), old(self).depth(), true),
            ),
        decreases remaining(old(self).tokens(), old(self).position()), 52int,
    {
        proof {
            lemma_expression(self.tokens(), self.position(), self.depth(), true);
        }
        self.parse_expression_in(true)
    }

    /// Parses an expression; `structs` says whether a name followed by `{`
    /// begins a struct literal.
    pub(crate) fn parse_expression_in(
        &mut self,
        structs: bool,
    ) -> (result: Result<Expr, ParseError>)
        requires
            old(self).wf(),
        ensures
            final(self).advances(
                *old(self),
                match result {
                    Ok(node) => Ok(node@),
                    Err(error) => Err(error@),
                },
                expression(old(self).tokens(), old(self).position(), old(self).depth(), structs),
            ),
        decreases remaining(old(self).tokens(), old(self).position()), 51int,
    {
        proof {
            lemma_expression(self.tokens(), self.position(), self.depth(), structs);
        }
        self.parse_assignment(structs)
    }

    /// Parses an assignment, or an expression of the `||` tier.
    fn parse_assignment(&mut self, structs: bool) -> (result: Result<Expr, ParseError>)
        requires
            old(self).wf(),
        ensures
            final(self).advances(
                *old(self),
                match result {
                    Ok(node) => Ok(node@),
                    Err(error) => Err(error@),
                },
                assignment(old(self).tokens(), old(self).position(), old(self).depth(), structs),
            ),
        decreases remaining(old(self).tokens(), old(self).position()), 50int,
    {
        proof {
            lemma_assignment(self.tokens(), self.position(), self.depth(), structs);
        }
        let target = self.parse_binary(LOGICAL_OR, structs)?;
        if self.match_token(&TokenKind::Assign) {
            let value = self.parse_assignment(structs)?;
            let span = target.span().merge(&self.previous_span());
            let node = Expr::Assign(Box::new(target), Box::new(value), span);
            proof {
                lemma_expr_view(node);
            }
            return Ok(node);
        }
        let op = match self.peek() {
            TokenKind::PlusAssign => Some(BinOp::Add),
            TokenKind::MinusAssign => Some(BinOp::Sub),
            TokenKind::StarAssign => Some(BinOp::Mul),
            TokenKind::SlashAssign => Some(BinOp::Div),
            _ => None,
        };
        match op {
            Some(op) => {
                self.advance();
                let value = self.parse_assignment(structs)?;
                let span = target.span().merge(&self.previous_span());
                let node = Expr::CompoundAssign(op, Box::new(target), Box::new(value), span);
                proof {
                    lemma_expr_view(node);
                }
                Ok(node)
            },
            None => Ok(target),
        }
    }

    /// Parses an expression of the tier `tier` of binary operators.
    pub(crate) fn parse_binary(
        &mut self,
        tier: u8,
        structs: bool,
    ) -> (result: Result<Expr, ParseError>)
        requires
            old(self).wf(),
        ensures
            final(self).advances(
                *old(self),
                match result {
                    Ok(node) => Ok(node@),
                    Err(error) => Err(error@),
                },
                binary(
                    old(self).tokens(),
                    old(self).position(),
                    old(self).depth(),
                    structs,
                    tier as nat,
                ),
            ),
        decreases remaining(old(self).tokens(), old(self).position()), 4 * tier + 12,
    {
        proof {
            lemma_binary(self.tokens(), self.position(), self.depth(), structs, tier as nat);
        }
        let ghost start = self.position();
        let ghost depth = self.depth();
        let first = self.parse_operand(tier, structs)?;
        let mut left = first;
        loop
            invariant_except_break
                binary(old(self).tokens(), start, depth, structs, tier as nat) == after(
                    (self.position() - start) as nat,
                    binary_rest(self.tokens(), self.position(), depth, structs, tier as nat, left@),
                ),
            invariant
                self.moved(*old(self), (self.position() - start) as nat),
                start == old(self).position(),
                depth == old(self).depth(),
                self.position() > start,
                remaining(self.tokens(), self.position()) < remaining(
                    old(self).tokens(),
                    old(self).position(),
                ),
            ensures
                binary(old(self).tokens(), start, depth, structs, tier as nat).result == Ok::<
                    ExprView,
                    ParseErrorView,
                >(left@),
                binary(old(self).tokens(), start, depth, structs, tier as nat).used
                    == self.position() - start,
            decreases remaining(self.tokens(), self.position()),
        {
            proof {
                lemma_binary_rest(
                    self.tokens(),
                    self.position(),
                    depth,
                    structs,
                    tier as nat,
                    left@,
                );
            }
            let op = match self.match_binary_op(tier) {
                Some(op) => op,
                None => {
                    break;
                },
            };
            let right = self.parse_operand(tier, structs)?;
            let span = left.span().merge(&right.span());
            left = Expr::Binary(op, Box::new(left), Box::new(right), span);
            proof {
                lemma_expr_view(left);
            }
        }
        Ok(left)
    }

    /// Moves past the token at the position if it is an operator of `tier`,
    /// and yields the operator.
    fn match_binary_op(&mut self, tier: u8) -> (op: Option<BinOp>)
        requires
            old(self).wf(),
        ensures
            op == (if at_end(old(self).tokens(), old(self).position()) {
                None
            } else {
                operator(tier as nat, kind_at(old(self).tokens(), old(self).position()))
            }),
            final(self).moved(
                *old(self),
                if op is Some {
                    1nat
                } else {
                    0nat
                },
            ),
    {
        let op = match self.peek() {
            TokenKind::Star => if tier == 0 { Some(BinOp::Mul) } else { None },
            TokenKind::Slash => if tier == 0 { Some(BinOp::Div) } else { None },
            TokenKind::Percent => if tier == 0 { Some(BinOp::Mod) } else { None },
            TokenKind::Plus => if tier == 1 { Some(BinOp::Add) } else { None },
            TokenKind::Minus => if tier == 1 { Some(BinOp::Sub) } else { None },
            TokenKind::LeftShift => if tier == 2 { Some(BinOp::LeftShift) } else { None },
            TokenKind::RightShift => if tier == 2 { Some(BinOp::RightShift) } else { None },
            TokenKind::Less => if tier == 3 { Some(BinOp::Less) } else { None },
            TokenKind::Greater => if tier == 3 { Some(BinOp::Greater) } else { None },
            TokenKind::LessEqual => if tier == 3 { Some(BinOp::LessEqual) } else { None },
            TokenKind::GreaterEqual => if tier == 3 { Some(BinOp::GreaterEqual) } else { None },
            TokenKind::Equal => if tier == 4 { Some(BinOp::Equal) } else { None },
            TokenKind::NotEqual => if tier == 4 { Some(BinOp::NotEqual) } else { None },
            TokenKind::BitwiseAnd => if tier == 5 { Some(BinOp::BitwiseAnd) } else { None },
            TokenKind::BitwiseXor => if tier == 6 { Some(BinOp::BitwiseXor) } else { None },
            TokenKind::BitwiseOr => if tier == 7 { Some(BinOp::BitwiseOr) } else { None },
            TokenKind::LogicalAnd => if tier == 8 { Some(BinOp::LogicalAnd) } else { None },
            TokenKind::LogicalOr => if tier == 9 { Some(BinOp::LogicalOr) } else { None },
            _ => None,
        };
        if op.is_some() {
            self.advance();
        }
        op
    }

    /// Parses an operand of the tier `tier`.
    fn parse_operand(&mut self, tier: u8, structs: bool) -> (result: Result<Expr, ParseError>)
        requires
            old(self).wf(),
        ensures
            final(self).advances(
                *old(self),
                match result {
                    Ok(node) => Ok(node@),
                    Err(error) => Err(error@),
                },
                operand(
                    old(self).tokens(),
                    old(self).position(),
                    old(self).depth(),
                    structs,
                    tier as nat,
                ),
            ),
        decreases remaining(old(self).tokens(), old(self).position()), 4 * tier + 10,
    {
        proof {
            lemma_operand(self.tokens(), self.position(), self.depth(), structs, tier as nat);
        }
        if tier == 0 {
            self.parse_cast(structs)
        } else if tier == 2 {
            self.parse_range(structs)
        } else {
            self.parse_binary(tier - 1, structs)
        }
    }


    /// Parses an additive expression or a range.
    fn parse_range(&mut self, structs: bool) -> (result: Result<Expr, ParseError>)
        requires
            old(self).wf(),
        ensures
            final(self).advances(
                *old(self),
                match result {
                    Ok(node) => Ok(node@),
                    Err(error) => Err(error@),
                },
                range(old(self).tokens(), old(self).position(), old(self).depth(), structs),
            ),
        decreases remaining(old(self).tokens(), old(self).position()), 17int,
    {
        proof {
            lemma_range(self.tokens(), self.position(), self.depth(), structs);
        }
        let from = self.parse_binary(ADDITIVE, structs)?;
        let inclusive = if self.match_token(&TokenKind::DotDotEqual) {
            true
        } else if self.match_token(&TokenKind::DotDot) {
            self.match_token(&TokenKind::Assign)
        } else {
            return Ok(from);
        };
        let to = self.parse_binary(ADDITIVE, structs)?;
        let span = from.span().merge(&to.span());
        let node = Expr::Range(Box::new(from), Box::new(to), inclusive, span);
        proof {
            lemma_expr_view(node);
        }
        Ok(node)
    }

    /// Parses a unary expression or a cast.
    fn parse_cast(&mut self, structs: bool) -> (result: Result<Expr, ParseError>)
        requires
            old(self).wf(),
        ensures
            final(self).advances(
                *old(self),
                match result {
                    Ok(node) => Ok(node@),
                    Err(error) => Err(error@),
                },
                cast(old(self).tokens(), old(self).position(), old(self).depth(), structs),
            ),
        decreases remaining(old(self).tokens(), old(self).position()), 7int,
    {
        proof {
            lemma_cast(self.tokens(), self.position(), self.depth(), structs);
        }
        let value = self.parse_unary(structs)?;
        if self.match_token(&TokenKind::As) {
            let target = self.parse_type()?;
            let span = value.span().merge(&self.previous_span());
            let node = Expr::Cast(Box::new(value), target, span);
            proof {
                lemma_expr_view(node);
            }
            Ok(node)
        } else {
            Ok(value)
        }
    }

    /// Parses a postfix expression with the prefix operators before it.
    fn parse_unary(&mut self, structs: bool) -> (result: Result<Expr, ParseError>)
        requires
            old(self).wf(),
        ensures
            final(self).advances(
                *old(self),
                match result {
                    Ok(node) => Ok(node@),
                    Err(error) => Err(error@),
                },
                unary(old(self).tokens(), old(self).position(), old(self).depth(), structs),
            ),
        decreases remaining(old(self).tokens(), old(self).position()), 6int,
    {
        proof {
            lemma_unary(self.tokens(), self.position(), self.depth(), structs);
        }
        let start = self.current_span();
        if self.match_token(&TokenKind::BitwiseAnd) {
            let op = if self.match_token(&TokenKind::Mut) {
                UnOp::RefMut
            } else {
                UnOp::Ref
            };
            let inner = self.parse_unary(structs)?;
            let span = start.merge(&self.previous_span());
            let node = Expr::Unary(op, Box::new(inner), span);
            proof {
                lemma_expr_view(node);
            }
            return Ok(node);
        }
        let op = match self.peek() {
            TokenKind::Minus => Some(UnOp::Neg),
            TokenKind::LogicalNot => Some(UnOp::LogicalNot),
            TokenKind::BitwiseNot => Some(UnOp::BitwiseNot),
            TokenKind::Star => Some(UnOp::Deref),
            _ => None,
        };
        match op {
            Some(op) => {
                self.advance();
                let inner = self.parse_unary(structs)?;
                let span = start.merge(&self.previous_span());
                let node = Expr::Unary(op, Box::new(inner), span);
                proof {
                    lemma_expr_view(node);
                }
                Ok(node)
            },
            None => self.parse_postfix(structs),
        }
    }

    /// Parses a primary expression with the calls and accesses after it.
    fn parse_postfix(&mut self, structs: bool) -> (result: Result<Expr, ParseError>)
        requires
            old(self).wf(),
        ensures
            final(self).advances(
                *old(self),
                match result {
                    Ok(node) => Ok(node@),
                    Err(error) => Err(error@),
                },
                postfix(old(self).tokens(), old(self).position(), old(self).depth(), structs),
            ),
        decreases remaining(old(self).tokens(), old(self).position()), 5int,
    {
        proof {
            lemma_postfix(self.tokens(), self.position(), self.depth(), structs);
        }
        let ghost start = self.position();
        let ghost depth = self.depth();
        let base = self.parse_primary(structs)?;
        let mut expr = base;
        loop
            invariant_except_break
                postfix(old(self).tokens(), start, depth, structs) == after(
                    (self.position() - start) as nat,
                    postfix_rest(self.tokens(), self.position(), depth, expr@),
                ),
            invariant
                self.moved(*old(self), (self.position() - start) as nat),
                start == old(self).position(),
                depth == old(self).depth(),
                self.position() > start,
                remaining(self.tokens(), self.position()) < remaining(
                    old(self).tokens(),
                    old(self).position(),
                ),
            ensures
                postfix(old(self).tokens(), start, depth, structs).result == Ok::<
                    ExprView,
                    ParseErrorView,
                >(expr@),
                postfix(old(self).tokens(), start, depth, structs).used == self.position() - start,
            decreases remaining(self.tokens(), self.position()),
        {
            proof {
                lemma_postfix_rest(self.tokens(), self.position(), depth, expr@);
            }
            if self.match_token(&TokenKind::LeftParen) {
                let none: Vec<Expr> = Vec::new();
                proof {
                    lemma_exprs_view_empty();
                    assert(none@ =~= Seq::<Expr>::empty());
                }
                let args = self.parse_arguments(none)?;
                self.consume(TokenKind::RightParen, "Expected ')' after arguments")?;
                let span = expr.span().merge(&self.previous_span());
                expr = Expr::Call(Box::new(expr), args, span);
                proof {
                    lemma_expr_view(expr);
                }
            } else if self.match_token(&TokenKind::Dot) {
                let name = match self.peek() {
                    TokenKind::Ident(name) => name.clone(),
                    _ => {
                        return Err(self.plain_error("Expected identifier after '.'"));
                    },
                };
                self.advance();
                if self.match_token(&TokenKind::LeftParen) {
                    let none: Vec<Expr> = Vec::new();
                    proof {
                        lemma_exprs_view_empty();
                        assert(none@ =~= Seq::<Expr>::empty());
                    }
                    let args = self.parse_arguments(none)?;
                    self.consume(TokenKind::RightParen, "Expected ')' after method arguments")?;
                    let span = expr.span().merge(&self.previous_span());
                    expr = Expr::MethodCall(Box::new(expr), name, args, span);
                    proof {
                        lemma_expr_view(expr);
                    }
                } else {
                    let span = expr.span().merge(&self.previous_span());
                    expr = Expr::FieldAccess(Box::new(expr), name, span);
                    proof {
                        lemma_expr_view(expr);
                    }
                }
            } else if self.match_token(&TokenKind::LeftBracket) {
                let index = self.parse_expression_in(true)?;
                self.consume(TokenKind::RightBracket, "Expected ']' after index")?;
                let span = expr.span().merge(&self.previous_span());
                expr = Expr::IndexAccess(Box::new(expr), Box::new(index), span);
                proof {
                    lemma_expr_view(expr);
                }
            } else {
                break;
            }
        }
        Ok(expr)
    }


    /// Parses expressions separated by commas, up to a `)`, after those in
    /// `initial`.
    fn parse_arguments(&mut self, initial: Vec<Expr>) -> (result: Result<Vec<Expr>, ParseError>)
        requires
            old(self).wf(),
        ensures
            final(self).yields(
                *old(self),
                match result {
                    Ok(items) => Ok(exprs_view(items@)),
                    Err(error) => Err(error@),
                },
                arguments(
                    old(self).tokens(),
                    old(self).position(),
                    old(self).depth(),
                    exprs_view(initial@),
                ),
            ),
        decreases remaining(old(self).tokens(), old(self).position()), 53int,
    {
        proof {
            lemma_arguments(self.tokens(), self.position(), self.depth(), exprs_view(initial@));
        }
        let ghost start = self.position();
        let ghost before = exprs_view(initial@);
        let ghost whole = arguments(self.tokens(), start, self.depth(), before);
        let mut found = initial;
        loop
            invariant_except_break
                whole == after(
                    (self.position() - start) as nat,
                    arguments(self.tokens(), self.position(), self.depth(), exprs_view(found@)),
                ),
            invariant
                whole == arguments(
                    old(self).tokens(),
                    old(self).position(),
                    old(self).depth(),
                    before,
                ),
                before == exprs_view(initial@),
                self.moved(*old(self), (self.position() - start) as nat),
                start == old(self).position(),
                remaining(self.tokens(), self.position()) <= remaining(
                    old(self).tokens(),
                    old(self).position(),
                ),
            ensures
                whole.result == Ok::<Seq<ExprView>, ParseErrorView>(exprs_view(found@)),
                whole.used == self.position() - start,
            decreases remaining(self.tokens(), self.position()),
        {
            proof {
                lemma_arguments(self.tokens(), self.position(), self.depth(), exprs_view(found@));
            }
            if self.check(&TokenKind::RightParen) || self.is_at_end() {
                break;
            }
            let item = self.parse_expression_in(true)?;
            proof {
                lemma_exprs_view_push(found@, item);
            }
            found.push(item);
            if !self.match_token(&TokenKind::Comma) {
                break;
            }
        }
        Ok(found)
    }


    /// Parses a primary expression.
    fn parse_primary(&mut self, structs: bool) -> (result: Result<Expr, ParseError>)
        requires
            old(self).wf(),
        ensures
            final(self).advances(
                *old(self),
                match result {
                    Ok(node) => Ok(node@),
                    Err(error) => Err(error@),
                },
                primary(old(self).tokens(), old(self).position(), old(self).depth(), structs),
            ),
        decreases remaining(old(self).tokens(), old(self).position()), 3int,
    {
        proof {
            lemma_primary(self.tokens(), self.position(), self.depth(), structs);
        }
        let start = self.current_span();
        match self.peek() {
            TokenKind::IntLiteral(n) => {
                let n = *n as i64;
                self.advance();
                let node = Expr::Literal(Literal::Int(n), start);
                proof {
                    lemma_expr_view(node);
                }
                Ok(node)
            },
            TokenKind::BoolLiteral(b) => {
                let b = *b;
                self.advance();
                let node = Expr::Literal(Literal::Bool(b), start);
                proof {
                    lemma_expr_view(node);
                }
                Ok(node)
            },
            TokenKind::CharLiteral(c) => {
                let c = *c;
                self.advance();
                let node = Expr::Literal(Literal::Char(c), start);
                proof {
                    lemma_expr_view(node);
                }
                Ok(node)
            },
            TokenKind::StringLiteral(s) => {
                let s = s.clone();
                self.advance();
                let node = Expr::Literal(Literal::String(s), start);
                proof {
                    lemma_expr_view(node);
                }
                Ok(node)
            },
            TokenKind::Ident(name) => {
                if structs && self.next_is_left_brace() {
                    self.parse_struct_literal()
                } else {
                    let name = name.clone();
                    self.advance();
                    let node = Expr::Ident(name, start);
                    proof {
                        lemma_expr_view(node);
                    }
                    Ok(node)
                }
            },
            TokenKind::LeftParen => self.parse_parenthesized(structs),
            TokenKind::LeftBracket => self.parse_array_literal(),
            TokenKind::LeftBrace => {
                let block = self.parse_block()?;
                let span = block.span;
                proof {
                    lemma_block_view(block);
                }
                let node = Expr::Block(block, span);
                proof {
                    lemma_expr_view(node);
                }
                Ok(node)
            },
            TokenKind::If => self.parse_if_expression(),
            TokenKind::While => self.parse_while_expression(),
            TokenKind::For => self.parse_for_expression(),
            TokenKind::Match => self.parse_match_expression(),
            TokenKind::Break => self.parse_break_expression(structs),
            TokenKind::Continue => self.parse_continue_expression(),
            TokenKind::Return => self.parse_return_expression(structs),
            TokenKind::BitwiseOr => self.parse_closure(structs),
            TokenKind::LogicalOr => {
                self.advance();
                let params: Vec<Parameter> = Vec::new();
                proof {
                    lemma_views_empty::<Parameter>();
                    assert(params@ =~= Seq::<Parameter>::empty());
                }
                self.parse_closure_tail(structs, start, params)
            },
            _ => Err(self.unexpected_in_expression()),
        }
    }

    /// Whether the token after the one at the position is a `{`.
    fn next_is_left_brace(&self) -> (is: bool)
        requires
            self.wf(),
        ensures
            is == check(self.tokens(), self.position() + 1, TokenKindView::LeftBrace),
    {
        match self.peek_ahead(1) {
            Some(kind) => matches!(kind, TokenKind::LeftBrace),
            None => false,
        }
    }

    /// The error for the token at the position, with which no expression
    /// begins.
    fn unexpected_in_expression(&self) -> (error: ParseError)
        requires
            self.wf(),
        ensures
            error@ == unexpected_in_expression(self.tokens(), self.position()),
    {
        proof {
            reveal(unexpected_in_expression);
        }
        let mut text = String::from_str("Unexpected token in expression: ");
        text.append(self.peek().debug_text().as_str());
        ParseError::new(text, self.current_span())
    }


    /// Parses a struct literal, at its name.
    fn parse_struct_literal(&mut self) -> (result: Result<Expr, ParseError>)
        requires
            old(self).wf(),
        ensures
            final(self).advances(
                *old(self),
                match result {
                    Ok(node) => Ok(node@),
                    Err(error) => Err(error@),
                },
                struct_literal(old(self).tokens(), old(self).position(), old(self).depth()),
            ),
        decreases remaining(old(self).tokens(), old(self).position()), 1int,
    {
        proof {
            lemma_struct_literal(self.tokens(), self.position(), self.depth());
        }
        let start = self.current_span();
        let name = self.expect_ident("Expected struct name")?;
        self.consume(TokenKind::LeftBrace, "Expected '{'")?;
        let fields = self.parse_field_values()?;
        self.consume(TokenKind::RightBrace, "Expected '}' after struct fields")?;
        let span = start.merge(&self.previous_span());
        let node = Expr::StructLit(name, fields, span);
        proof {
            lemma_expr_view(node);
        }
        Ok(node)
    }

    /// Parses the fields of a struct literal, up to its `}`.
    fn parse_field_values(&mut self) -> (result: Result<Vec<(String, Expr)>, ParseError>)
        requires
            old(self).wf(),
        ensures
            final(self).yields(
                *old(self),
                match result {
                    Ok(items) => Ok(named_exprs_view(items@)),
                    Err(error) => Err(error@),
                },
                field_values(
                    old(self).tokens(),
                    old(self).position(),
                    old(self).depth(),
                    Seq::empty(),
                ),
            ),
        decreases remaining(old(self).tokens(), old(self).position()), 53int,
    {
        proof {
            lemma_field_values(self.tokens(), self.position(), self.depth(), Seq::empty());
        }
        let ghost start = self.position();
        let ghost whole = field_values(self.tokens(), start, self.depth(), Seq::empty());
        let mut found: Vec<(String, Expr)> = Vec::new();
        proof {
            lemma_named_exprs_view_empty();
            assert(found@ =~= Seq::<(String, Expr)>::empty());
        }
        loop
            invariant_except_break
                whole == after(
                    (self.position() - start) as nat,
                    field_values(
                        self.tokens(),
                        self.position(),
                        self.depth(),
                        named_exprs_view(found@),
                    ),
                ),
            invariant
                whole == field_values(
                    old(self).tokens(),
                    old(self).position(),
                    old(self).depth(),
                    Seq::empty(),
                ),
                self.moved(*old(self), (self.position() - start) as nat),
                start == old(self).position(),
                remaining(self.tokens(), self.position()) <= remaining(
                    old(self).tokens(),
                    old(self).position(),
                ),
            ensures
                whole.result == Ok::<Seq<(Seq<char>, ExprView)>, ParseErrorView>(named_exprs_view(found@)),
                whole.used == self.position() - start,
            decreases remaining(self.tokens(), self.position()),
        {
            proof {
                lemma_field_values(
                    self.tokens(),
                    self.position(),
                    self.depth(),
                    named_exprs_view(found@),
                );
            }
            if self.check(&TokenKind::RightBrace) || self.is_at_end() {
                break;
            }
            let at = self.current_span();
            let name = self.expect_ident("Expected field name")?;
            let value = if self.match_token(&TokenKind::Colon) {
                self.parse_expression_in(true)?
            } else {
                Expr::Ident(name.clone(), at)
            };
            proof {
                lemma_expr_view(value);
                lemma_named_exprs_view_push(found@, (name, value));
            }
            found.push((name, value));
            if !self.match_token(&TokenKind::Comma) {
                break;
            }
        }
        Ok(found)
    }

    /// Parses what a `(` begins: the empty tuple, a closure, a tuple or a
    /// parenthesized expression.
    fn parse_parenthesized(&mut self, structs: bool) -> (result: Result<Expr, ParseError>)
        requires
            old(self).wf(),
        ensures
            final(self).advances(
                *old(self),
                match result {
                    Ok(node) => Ok(node@),
                    Err(error) => Err(error@),
                },
                parenthesized(old(self).tokens(), old(self).position(), old(self).depth(), structs),
            ),
        decreases remaining(old(self).tokens(), old(self).position()), 1int,
    {
        proof {
            lemma_parenthesized(self.tokens(), self.position(), self.depth(), structs);
        }
        let start = self.current_span();
        self.consume(TokenKind::LeftParen, "Expected '('")?;
        if self.match_token(&TokenKind::RightParen) {
            let span = start.merge(&self.previous_span());
            let members: Vec<Expr> = Vec::new();
            proof {
                lemma_exprs_view_empty();
                assert(members@ =~= Seq::<Expr>::empty());
            }
            let node = Expr::TupleLit(members, span);
            proof {
                lemma_expr_view(node);
            }
            return Ok(node);
        }
        if self.check(&TokenKind::BitwiseOr) || self.at_typed_name() {
            return self.parse_closure_from_paren(structs, start);
        }
        let first = self.parse_expression_in(true)?;
        if self.match_token(&TokenKind::Comma) {
            let mut members: Vec<Expr> = Vec::new();
            proof {
                lemma_exprs_view_empty();
                assert(members@ =~= Seq::<Expr>::empty());
                lemma_exprs_view_push(members@, first);
                assert(Seq::<ExprView>::empty().push(first@) =~= seq![first@]);
            }
            members.push(first);
            let all = self.parse_arguments(members)?;
            self.consume(TokenKind::RightParen, "Expected ')' after tuple")?;
            let span = start.merge(&self.previous_span());
            let node = Expr::TupleLit(all, span);
            proof {
                lemma_expr_view(node);
            }
            Ok(node)
        } else {
            self.consume(TokenKind::RightParen, "Expected ')' after expression")?;
            Ok(first)
        }
    }

    /// Whether a name stands at the position and a `:` after it.
    fn at_typed_name(&self) -> (is: bool)
        requires
            self.wf(),
        ensures
            is == (kind_at(self.tokens(), self.position()) is Ident && kind_at(
                self.tokens(),
                self.position() + 1,
            ) is Colon),
    {
        if matches!(self.peek(), TokenKind::Ident(_)) {
            match self.peek_ahead(1) {
                Some(kind) => matches!(kind, TokenKind::Colon),
                None => false,
            }
        } else {
            false
        }
    }


    /// Parses an array literal, at its `[`.
    fn parse_array_literal(&mut self) -> (result: Result<Expr, ParseError>)
        requires
            old(self).wf(),
        ensures
            final(self).advances(
                *old(self),
                match result {
                    Ok(node) => Ok(node@),
                    Err(error) => Err(error@),
                },
                array_literal(old(self).tokens(), old(self).position(), old(self).depth()),
            ),
        decreases remaining(old(self).tokens(), old(self).position()), 1int,
    {
        proof {
            lemma_array_literal(self.tokens(), self.position(), self.depth());
        }
        let start = self.current_span();
        self.consume(TokenKind::LeftBracket, "Expected '['")?;
        let elements = self.parse_array_elements()?;
        self.consume(TokenKind::RightBracket, "Expected ']' after array elements")?;
        let span = start.merge(&self.previous_span());
        let node = Expr::ArrayLit(elements, span);
        proof {
            lemma_expr_view(node);
        }
        Ok(node)
    }

    /// Parses the elements of an array literal, up to its `]`.
    fn parse_array_elements(&mut self) -> (result: Result<Vec<Expr>, ParseError>)
        requires
            old(self).wf(),
        ensures
            final(self).yields(
                *old(self),
                match result {
                    Ok(items) => Ok(exprs_view(items@)),
                    Err(error) => Err(error@),
                },
                array_elements(
                    old(self).tokens(),
                    old(self).position(),
                    old(self).depth(),
                    Seq::empty(),
                ),
            ),
        decreases remaining(old(self).tokens(), old(self).position()), 53int,
    {
        proof {
            lemma_array_elements(self.tokens(), self.position(), self.depth(), Seq::empty());
        }
        let ghost start = self.position();
        let ghost whole = array_elements(self.tokens(), start, self.depth(), Seq::empty());
        let mut found: Vec<Expr> = Vec::new();
        proof {
            lemma_exprs_view_empty();
            assert(found@ =~= Seq::<Expr>::empty());
        }
        loop
            invariant_except_break
                whole == after(
                    (self.position() - start) as nat,
                    array_elements(
                        self.tokens(),
                        self.position(),
                        self.depth(),
                        exprs_view(found@),
                    ),
                ),
            invariant
                whole == array_elements(
                    old(self).tokens(),
                    old(self).position(),
                    old(self).depth(),
                    Seq::empty(),
                ),
                self.moved(*old(self), (self.position() - start) as nat),
                start == old(self).position(),
                remaining(self.tokens(), self.position()) <= remaining(
                    old(self).tokens(),
                    old(self).position(),
                ),
            ensures
                whole.result == Ok::<Seq<ExprView>, ParseErrorView>(exprs_view(found@)),
                whole.used == self.position() - start,
            decreases remaining(self.tokens(), self.position()),
        {
            proof {
                lemma_array_elements(
                    self.tokens(),
                    self.position(),
                    self.depth(),
                    exprs_view(found@),
                );
            }
            if self.check(&TokenKind::RightBracket) || self.is_at_end() {
                break;
            }
            let ghost at = self.position();
            let ghost before = exprs_view(found@);
            let item = self.parse_expression_in(true)?;
            proof {
                lemma_exprs_view_push(found@, item);
            }
            found.push(item);
            let ghost old_found = found@;
            if self.match_token(&TokenKind::Semicolon) {
                let count: Option<usize> = match self.peek() {
                    TokenKind::IntLiteral(n) => if *n >= 0 {
                        Some(*n as usize)
                    } else {
                        None
                    },
                    _ => None,
                };
                match count {
                    Some(count) => {
                        self.advance();
                        found = repeated(&found[0], count);
                        proof {
                            assert(exprs_view(old_found)[0] == old_found[0]@) by {
                                reveal_with_fuel(exprs_view, 1);
                            }
                            assert(exprs_view(found@) =~= array_elements(
                                self.tokens(),
                                at,
                                self.depth(),
                                before,
                            ).result->Ok_0);
                        }
                        break;
                    },
                    None => {
                        return Err(
                            self.plain_error("Expected integer after ';' in array literal"),
                        );
                    },
                }
            }
            if !self.match_token(&TokenKind::Comma) {
                break;
            }
        }
        Ok(found)
    }

    /// Parses an `if` expression, at its `if`.
    fn parse_if_expression(&mut self) -> (result: Result<Expr, ParseError>)
        requires
            old(self).wf(),
        ensures
            final(self).advances(
                *old(self),
                match result {
                    Ok(node) => Ok(node@),
                    Err(error) => Err(error@),
                },
                if_expression(old(self).tokens(), old(self).position(), old(self).depth()),
            ),
        decreases remaining(old(self).tokens(), old(self).position()), 1int,
    {
        proof {
            lemma_if_expression(self.tokens(), self.position(), self.depth());
        }
        let start = self.current_span();
        self.consume(TokenKind::If, "Expected 'if'")?;
        let cond = self.parse_expression_in(false)?;
        let then = self.parse_block()?;
        let ghost p2 = self.position();
        let other = if self.match_token(&TokenKind::Else) {
            Some(self.parse_block()?)
        } else {
            None
        };
        let ghost part_other = optional(
            check(self.tokens(), p2, TokenKindView::Else),
            1,
            block(self.tokens(), p2 + 1, self.depth()),
        );
        assert(self.position() == p2 + part_other.used);
        assert(part_other.result == Ok::<Option<BlockView>, ParseErrorView>(
            match other {
                Some(v) => Some(v@),
                None => None,
            },
        ));
        let span = start.merge(&self.previous_span());
        let node = Expr::If(Box::new(cond), then, other, span);
        proof {
            lemma_expr_view(node);
        }
        Ok(node)
    }

    /// Parses a `while` expression, at its `while`.
    fn parse_while_expression(&mut self) -> (result: Result<Expr, ParseError>)
        requires
            old(self).wf(),
        ensures
            final(self).advances(
                *old(self),
                match result {
                    Ok(node) => Ok(node@),
                    Err(error) => Err(error@),
                },
                while_expression(old(self).tokens(), old(self).position(), old(self).depth()),
            ),
        decreases remaining(old(self).tokens(), old(self).position()), 1int,
    {
        proof {
            lemma_while_expression(self.tokens(), self.position(), self.depth());
        }
        let start = self.current_span();
        self.consume(TokenKind::While, "Expected 'while'")?;
        let cond = self.parse_expression_in(false)?;
        let body = self.parse_loop_body()?;
        let span = start.merge(&self.previous_span());
        let node = Expr::While(Box::new(cond), body, span);
        proof {
            lemma_expr_view(node);
        }
        Ok(node)
    }

    /// Parses a `for` expression, at its `for`.
    fn parse_for_expression(&mut self) -> (result: Result<Expr, ParseError>)
        requires
            old(self).wf(),
        ensures
            final(self).advances(
                *old(self),
                match result {
                    Ok(node) => Ok(node@),
                    Err(error) => Err(error@),
                },
                for_expression(old(self).tokens(), old(self).position(), old(self).depth()),
            ),
        decreases remaining(old(self).tokens(), old(self).position()), 1int,
    {
        proof {
            lemma_for_expression(self.tokens(), self.position(), self.depth());
        }
        let start = self.current_span();
        self.consume(TokenKind::For, "Expected 'for'")?;
        let binding = self.parse_pattern()?;
        self.consume(TokenKind::In, "Expected 'in' in for loop")?;
        let iterable = self.parse_expression_in(false)?;
        let body = self.parse_loop_body()?;
        let span = start.merge(&self.previous_span());
        let node = Expr::For(binding, Box::new(iterable), body, span);
        proof {
            lemma_expr_view(node);
        }
        Ok(node)
    }

    /// Parses a `match` expression, at its `match`.
    fn parse_match_expression(&mut self) -> (result: Result<Expr, ParseError>)
        requires
            old(self).wf(),
        ensures
            final(self).advances(
                *old(self),
                match result {
                    Ok(node) => Ok(node@),
                    Err(error) => Err(error@),
                },
                match_expression(old(self).tokens(), old(self).position(), old(self).depth()),
            ),
        decreases remaining(old(self).tokens(), old(self).position()), 1int,
    {
        proof {
            lemma_match_expression(self.tokens(), self.position(), self.depth());
        }
        let start = self.current_span();
        self.consume(TokenKind::Match, "Expected 'match'")?;
        let scrutinee = self.parse_expression_in(false)?;
        self.consume(TokenKind::LeftBrace, "Expected '{' after match expression")?;
        let arms = self.parse_match_arms(false)?;
        self.consume(TokenKind::RightBrace, "Expected '}' after match arms")?;
        let span = start.merge(&self.previous_span());
        let node = Expr::Match(Box::new(scrutinee), arms, span);
        proof {
            lemma_expr_view(node);
        }
        Ok(node)
    }

    /// Parses the body of a match arm.
    pub(crate) fn parse_arm_body(
        &mut self,
        in_statement: bool,
    ) -> (result: Result<Expr, ParseError>)
        requires
            old(self).wf(),
        ensures
            final(self).advances(
                *old(self),
                match result {
                    Ok(node) => Ok(node@),
                    Err(error) => Err(error@),
                },
                arm_body(old(self).tokens(), old(self).position(), old(self).depth(), in_statement),
            ),
        decreases remaining(old(self).tokens(), old(self).position()), 52int,
    {
        proof {
            lemma_arm_body(self.tokens(), self.position(), self.depth(), in_statement);
        }
        if in_statement && self.check(&TokenKind::LeftBrace) {
            let block = self.parse_block()?;
            let span = block.span;
            proof {
                lemma_block_view(block);
            }
            let node = Expr::Block(block, span);
            proof {
                lemma_expr_view(node);
            }
            Ok(node)
        } else {
            self.parse_expression_in(true)
        }
    }

    /// Parses one arm of a `match`.
    pub(crate) fn parse_match_arm(
        &mut self,
        in_statement: bool,
    ) -> (result: Result<MatchArm, ParseError>)
        requires
            old(self).wf(),
        ensures
            final(self).advances(
                *old(self),
                match result {
                    Ok(node) => Ok(node@),
                    Err(error) => Err(error@),
                },
                match_arm(
                    old(self).tokens(),
                    old(self).position(),
                    old(self).depth(),
                    in_statement,
                ),
            ),
        decreases remaining(old(self).tokens(), old(self).position()), 53int,
    {
        proof {
            lemma_match_arm(self.tokens(), self.position(), self.depth(), in_statement);
        }
        let start = self.current_span();
        let pattern = self.parse_pattern()?;
        let ghost p1 = self.position();
        let guard = if self.match_token(&TokenKind::If) {
            Some(self.parse_expression_in(true)?)
        } else {
            None
        };
        let ghost part_guard = optional(
            check(self.tokens(), p1, TokenKindView::If),
            1,
            expression(self.tokens(), p1 + 1, self.depth(), true),
        );
        assert(self.position() == p1 + part_guard.used);
        assert(part_guard.result == Ok::<Option<ExprView>, ParseErrorView>(
            match guard {
                Some(v) => Some(v@),
                None => None,
            },
        ));
        if in_statement {
            self.consume(TokenKind::FatArrow, "Expected '=>' after match pattern")?;
        } else {
            self.consume(TokenKind::FatArrow, "Expected '=>' in match arm")?;
        }
        let body = self.parse_arm_body(in_statement)?;
        let span = start.merge(&self.previous_span());
        let node = MatchArm { pattern, guard, body, span };
        proof {
            lemma_match_arm_view(node);
        }
        Ok(node)
    }

    /// Parses the arms of a `match`, up to its `}`.
    pub(crate) fn parse_match_arms(
        &mut self,
        in_statement: bool,
    ) -> (result: Result<Vec<MatchArm>, ParseError>)
        requires
            old(self).wf(),
        ensures
            final(self).yields(
                *old(self),
                match result {
                    Ok(items) => Ok(match_arms_view(items@)),
                    Err(error) => Err(error@),
                },
                match_arms(
                    old(self).tokens(),
                    old(self).position(),
                    old(self).depth(),
                    in_statement,
                    Seq::empty(),
                ),
            ),
        decreases remaining(old(self).tokens(), old(self).position()), 54int,
    {
        proof {
            lemma_match_arms(
                self.tokens(),
                self.position(),
                self.depth(),
                in_statement,
                Seq::empty(),
            );
        }
        let ghost start = self.position();
        let ghost whole = match_arms(
            self.tokens(),
            start,
            self.depth(),
            in_statement,
            Seq::empty(),
        );
        let mut found: Vec<MatchArm> = Vec::new();
        proof {
            lemma_match_arms_view_empty();
            assert(found@ =~= Seq::<MatchArm>::empty());
        }
        loop
            invariant_except_break
                whole == after(
                    (self.position() - start) as nat,
                    match_arms(
                        self.tokens(),
                        self.position(),
                        self.depth(),
                        in_statement,
                        match_arms_view(found@),
                    ),
                ),
            invariant
                whole == match_arms(
                    old(self).tokens(),
                    old(self).position(),
                    old(self).depth(),
                    in_statement,
                    Seq::empty(),
                ),
                self.moved(*old(self), (self.position() - start) as nat),
                start == old(self).position(),
                remaining(self.tokens(), self.position()) <= remaining(
                    old(self).tokens(),
                    old(self).position(),
                ),
            ensures
                whole.result == Ok::<Seq<MatchArmView>, ParseErrorView>(match_arms_view(found@)),
                whole.used == self.position() - start,
            decreases remaining(self.tokens(), self.position()),
        {
            proof {
                lemma_match_arms(
                    self.tokens(),
                    self.position(),
                    self.depth(),
                    in_statement,
                    match_arms_view(found@),
                );
            }
            if self.check(&TokenKind::RightBrace) || self.is_at_end() {
                break;
            }
            let arm = self.parse_match_arm(in_statement)?;
            proof {
                lemma_match_arms_view_push(found@, arm);
            }
            found.push(arm);
            if !self.match_token(&TokenKind::Comma) {
                break;
            }
        }
        Ok(found)
    }

    /// Moves past the label that may stand at the position, and yields it.
    pub(crate) fn parse_label(&mut self) -> (label: Option<String>)
        requires
            old(self).wf(),
        ensures
            final(self).moved(
                *old(self),
                if label is Some {
                    1nat
                } else {
                    0nat
                },
            ),
            match label {
                Some(name) => label_at(old(self).tokens(), old(self).position()) == Some(name@),
                None => label_at(old(self).tokens(), old(self).position()) is None,
            },
    {
        let label = match self.peek() {
            TokenKind::Ident(name) => Some(name.clone()),
            _ => None,
        };
        if label.is_some() {
            self.advance();
        }
        label
    }


    /// Parses a `break` expression, at its `break`.
    fn parse_break_expression(&mut self, structs: bool) -> (result: Result<Expr, ParseError>)
        requires
            old(self).wf(),
        ensures
            final(self).advances(
                *old(self),
                match result {
                    Ok(node) => Ok(node@),
                    Err(error) => Err(error@),
                },
                break_expression(
                    old(self).tokens(),
                    old(self).position(),
                    old(self).depth(),
                    structs,
                ),
            ),
        decreases remaining(old(self).tokens(), old(self).position()), 1int,
    {
        proof {
            lemma_break_expression(self.tokens(), self.position(), self.depth(), structs);
        }
        let start = self.current_span();
        self.consume(TokenKind::Break, "Expected 'break'")?;
        if self.loop_depth == 0 {
            return Err(ParseError::new(String::from_str("break outside of loop"), start));
        }
        let label = self.parse_label();
        let ghost p1 = self.position();
        assert(p1 == after_label(self.tokens(), old(self).position() + 1));
        assert(label_at(self.tokens(), old(self).position() + 1) == match label {
            Some(name) => Some(name@),
            None => None,
        });
        let value = if !self.check(&TokenKind::Semicolon) && !self.check(&TokenKind::RightBrace)
            && !self.check(&TokenKind::Comma) {
            Some(self.parse_expression_in(structs)?)
        } else {
            None
        };
        let ghost part_value = optional(
            !check(self.tokens(), p1, TokenKindView::Semicolon)
                && !check(self.tokens(), p1, TokenKindView::RightBrace)
                && !check(self.tokens(), p1, TokenKindView::Comma),
            0,
            expression(self.tokens(), p1, self.depth(), structs),
        );
        assert(self.position() == p1 + part_value.used);
        assert(part_value.result == Ok::<Option<ExprView>, ParseErrorView>(
            match value {
                Some(v) => Some(v@),
                None => None,
            },
        ));
        let span = start.merge(&self.previous_span());
        let boxed = match value {
            Some(v) => Some(Box::new(v)),
            None => None,
        };
        let node = Expr::Break(label, boxed, span);
        proof {
            lemma_expr_view(node);
        }
        Ok(node)
    }

    /// Parses a `continue` expression, at its `continue`.
    fn parse_continue_expression(&mut self) -> (result: Result<Expr, ParseError>)
        requires
            old(self).wf(),
        ensures
            final(self).advances(
                *old(self),
                match result {
                    Ok(node) => Ok(node@),
                    Err(error) => Err(error@),
                },
                continue_expression(old(self).tokens(), old(self).position(), old(self).depth()),
            ),
        decreases remaining(old(self).tokens(), old(self).position()), 1int,
    {
        proof {
            lemma_continue_expression(self.tokens(), self.position(), self.depth());
        }
        let start = self.current_span();
        self.consume(TokenKind::Continue, "Expected 'continue'")?;
        if self.loop_depth == 0 {
            return Err(ParseError::new(String::from_str("continue outside of loop"), start));
        }
        let label = self.parse_label();
        let span = start.merge(&self.previous_span());
        let node = Expr::Continue(label, span);
        proof {
            lemma_expr_view(node);
        }
        Ok(node)
    }

    /// Parses a `return` expression, at its `return`.
    fn parse_return_expression(&mut self, structs: bool) -> (result: Result<Expr, ParseError>)
        requires
            old(self).wf(),
        ensures
            final(self).advances(
                *old(self),
                match result {
                    Ok(node) => Ok(node@),
                    Err(error) => Err(error@),
                },
                return_expression(
                    old(self).tokens(),
                    old(self).position(),
                    old(self).depth(),
                    structs,
                ),
            ),
        decreases remaining(old(self).tokens(), old(self).position()), 1int,
    {
        proof {
            lemma_return_expression(self.tokens(), self.position(), self.depth(), structs);
        }
        let start = self.current_span();
        self.consume(TokenKind::Return, "Expected 'return'")?;
        let ghost p1 = self.position();
        let value = if !self.check(&TokenKind::Semicolon) && !self.check(&TokenKind::RightBrace) {
            Some(self.parse_expression_in(structs)?)
        } else {
            None
        };
        let ghost part_value = optional(
            !check(self.tokens(), p1, TokenKindView::Semicolon)
                && !check(self.tokens(), p1, TokenKindView::RightBrace),
            0,
            expression(self.tokens(), p1, self.depth(), structs),
        );
        assert(self.position() == p1 + part_value.used);
        assert(part_value.result == Ok::<Option<ExprView>, ParseErrorView>(
            match value {
                Some(v) => Some(v@),
                None => None,
            },
        ));
        let span = start.merge(&self.previous_span());
        let boxed = match value {
            Some(v) => Some(Box::new(v)),
            None => None,
        };
        let node = Expr::Return(boxed, span);
        proof {
            lemma_expr_view(node);
        }
        Ok(node)
    }

    /// Parses a parameter `pattern: Type`.
    pub(crate) fn parse_parameter(&mut self) -> (result: Result<Parameter, ParseError>)
        requires
            old(self).wf(),
        ensures
            final(self).advances(
                *old(self),
                match result {
                    Ok(node) => Ok(node@),
                    Err(error) => Err(error@),
                },
                parameter(old(self).tokens(), old(self).position()),
            ),
    {
        let start = self.current_span();
        let pattern = self.parse_pattern()?;
        self.consume(TokenKind::Colon, "Expected ':' after parameter pattern")?;
        let ty = self.parse_type()?;
        let span = start.merge(&self.previous_span());
        Ok(Parameter { pattern, ty, span })
    }

    /// Parses a parameter of a closure written between bars.
    fn parse_closure_parameter(&mut self) -> (result: Result<Parameter, ParseError>)
        requires
            old(self).wf(),
        ensures
            final(self).advances(
                *old(self),
                match result {
                    Ok(node) => Ok(node@),
                    Err(error) => Err(error@),
                },
                closure_parameter(old(self).tokens(), old(self).position()),
            ),
    {
        let start = self.current_span();
        let pattern = self.parse_single_pattern()?;
        let ty = if self.match_token(&TokenKind::Colon) {
            self.parse_type()?
        } else {
            proof {
                lemma_type_view(Type::Infer);
            }
            Type::Infer
        };
        let span = start.merge(&self.previous_span());
        Ok(Parameter { pattern, ty, span })
    }


    /// Parses parameters separated by commas, up to a `)`.
    pub(crate) fn parse_parameters(&mut self) -> (result: Result<Vec<Parameter>, ParseError>)
        requires
            old(self).wf(),
        ensures
            final(self).yields(
                *old(self),
                match result {
                    Ok(items) => Ok(views(items@)),
                    Err(error) => Err(error@),
                },
                parameters(old(self).tokens(), old(self).position(), Seq::empty()),
            ),
    {
        proof {
            lemma_parameters(self.tokens(), self.position(), Seq::empty());
        }
        let ghost start = self.position();
        let ghost whole = parameters(self.tokens(), start, Seq::empty());
        let mut found: Vec<Parameter> = Vec::new();
        proof {
            lemma_views_empty::<Parameter>();
            assert(found@ =~= Seq::<Parameter>::empty());
        }
        loop
            invariant_except_break
                whole == after(
                    (self.position() - start) as nat,
                    parameters(self.tokens(), self.position(), views(found@)),
                ),
            invariant
                whole == parameters(old(self).tokens(), old(self).position(), Seq::empty()),
                self.moved(*old(self), (self.position() - start) as nat),
                start == old(self).position(),
                remaining(self.tokens(), self.position()) <= remaining(
                    old(self).tokens(),
                    old(self).position(),
                ),
            ensures
                whole.result == Ok::<Seq<ParameterView>, ParseErrorView>(views(found@)),
                whole.used == self.position() - start,
            decreases remaining(self.tokens(), self.position()),
        {
            proof {
                lemma_parameters(self.tokens(), self.position(), views(found@));
            }
            if self.check(&TokenKind::RightParen) || self.is_at_end() {
                break;
            }
            let item = self.parse_parameter()?;
            proof {
                lemma_views_push(found@, item);
            }
            found.push(item);
            if !self.match_token(&TokenKind::Comma) {
                break;
            }
        }
        Ok(found)
    }

    /// Parses closure parameters separated by commas, up to a `|`.
    fn parse_closure_parameters(&mut self) -> (result: Result<Vec<Parameter>, ParseError>)
        requires
            old(self).wf(),
        ensures
            final(self).yields(
                *old(self),
                match result {
                    Ok(items) => Ok(views(items@)),
                    Err(error) => Err(error@),
                },
                closure_parameters(old(self).tokens(), old(self).position(), Seq::empty()),
            ),
    {
        proof {
            lemma_closure_parameters(self.tokens(), self.position(), Seq::empty());
        }
        let ghost start = self.position();
        let ghost whole = closure_parameters(self.tokens(), start, Seq::empty());
        let mut found: Vec<Parameter> = Vec::new();
        proof {
            lemma_views_empty::<Parameter>();
            assert(found@ =~= Seq::<Parameter>::empty());
        }
        loop
            invariant_except_break
                whole == after(
                    (self.position() - start) as nat,
                    closure_parameters(self.tokens(), self.position(), views(found@)),
                ),
            invariant
                whole == closure_parameters(old(self).tokens(), old(self).position(), Seq::empty()),
                self.moved(*old(self), (self.position() - start) as nat),
                start == old(self).position(),
                remaining(self.tokens(), self.position()) <= remaining(
                    old(self).tokens(),
                    old(self).position(),
                ),
            ensures
                whole.result == Ok::<Seq<ParameterView>, ParseErrorView>(views(found@)),
                whole.used == self.position() - start,
            decreases remaining(self.tokens(), self.position()),
        {
            proof {
                lemma_closure_parameters(self.tokens(), self.position(), views(found@));
            }
            if self.check(&TokenKind::BitwiseOr) || self.is_at_end() {
                break;
            }
            let item = self.parse_closure_parameter()?;
            proof {
                lemma_views_push(found@, item);
            }
            found.push(item);
            if !self.match_token(&TokenKind::Comma) {
                break;
            }
        }
        Ok(found)
    }

    /// Parses a closure, at its first `|`.
    fn parse_closure(&mut self, structs: bool) -> (result: Result<Expr, ParseError>)
        requires
            old(self).wf(),
        ensures
            final(self).advances(
                *old(self),
                match result {
                    Ok(node) => Ok(node@),
                    Err(error) => Err(error@),
                },
                closure(old(self).tokens(), old(self).position(), old(self).depth(), structs),
            ),
        decreases remaining(old(self).tokens(), old(self).position()), 1int,
    {
        proof {
            lemma_closure(self.tokens(), self.position(), self.depth(), structs);
        }
        let start = self.current_span();
        self.consume(TokenKind::BitwiseOr, "Expected '|' to start closure")?;
        let params = self.parse_closure_parameters()?;
        self.consume(TokenKind::BitwiseOr, "Expected '|' after closure parameters")?;
        self.parse_closure_tail(structs, start, params)
    }

    /// Parses a closure written with parentheses, after its `(`; `start` is the
    /// span of the `(`.
    fn parse_closure_from_paren(
        &mut self,
        structs: bool,
        start: Span,
    ) -> (result: Result<Expr, ParseError>)
        requires
            old(self).wf(),
        ensures
            final(self).yields(
                *old(self),
                match result {
                    Ok(node) => Ok(node@),
                    Err(error) => Err(error@),
                },
                closure_from_paren(
                    old(self).tokens(),
                    old(self).position(),
                    old(self).depth(),
                    structs,
                    start,
                ),
            ),
        decreases remaining(old(self).tokens(), old(self).position()), 1int,
    {
        proof {
            lemma_closure_from_paren(self.tokens(), self.position(), self.depth(), structs, start);
        }
        let params = self.parse_parameters()?;
        self.consume(TokenKind::RightParen, "Expected ')' after closure parameters")?;
        self.parse_closure_tail(structs, start, params)
    }

    /// Parses what follows the parameters of a closure; `start` is the span of
    /// the token that opened it.
    fn parse_closure_tail(
        &mut self,
        structs: bool,
        start: Span,
        params: Vec<Parameter>,
    ) -> (result: Result<Expr, ParseError>)
        requires
            old(self).wf(),
        ensures
            final(self).advances(
                *old(self),
                match result {
                    Ok(node) => Ok(node@),
                    Err(error) => Err(error@),
                },
                closure_tail(
                    old(self).tokens(),
                    old(self).position(),
                    old(self).depth(),
                    structs,
                    start,
                    views(params@),
                ),
            ),
        decreases remaining(old(self).tokens(), old(self).position()), 52int,
    {
        proof {
            lemma_closure_tail(
                self.tokens(),
                self.position(),
                self.depth(),
                structs,
                start,
                views(params@),
            );
        }
        let ghost p0 = self.position();
        let ret = if self.match_token(&TokenKind::Arrow) {
            Some(self.parse_type()?)
        } else {
            None
        };
        let ghost part_ret = optional(
            check(self.tokens(), p0, TokenKindView::Arrow),
            1,
            type_(self.tokens(), p0 + 1),
        );
        assert(self.position() == p0 + part_ret.used);
        assert(part_ret.result == Ok::<Option<TypeView>, ParseErrorView>(
            match ret {
                Some(v) => Some(v@),
                None => None,
            },
        ));
        let body = self.parse_expression_in(structs)?;
        let span = start.merge(&self.previous_span());
        let node = Expr::Closure(params, ret, Box::new(body), span);
        proof {
            lemma_expr_view(node);
        }
        Ok(node)
    }

}

/// `count` copies of `value`.
fn repeated(value: &Expr, count: usize) -> (copies: Vec<Expr>)
    ensures
        exprs_view(copies@) == Seq::new(count as nat, |i: int| value@),
{
    let mut copies: Vec<Expr> = Vec::new();
    let mut i: usize = 0;
    proof {
        lemma_exprs_view_empty();
        assert(copies@ =~= Seq::<Expr>::empty());
        assert(Seq::<ExprView>::empty() =~= Seq::new(0nat, |k: int| value@));
    }
    while i < count
        invariant
            i <= count,
            exprs_view(copies@) == Seq::new(i as nat, |k: int| value@),
        decreases count - i,
    {
        let copy = clone_expr(value);
        proof {
            lemma_exprs_view_push(copies@, copy);
            assert(Seq::new(i as nat, |k: int| value@).push(value@) =~= Seq::new(
                (i + 1) as nat,
                |k: int| value@,
            ));
        }
        copies.push(copy);
        i += 1;
    }
    copies
}

} // verus!
