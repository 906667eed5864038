//! The expression rules of the parser.
use vstd::prelude::*;
use crate::lexer::{Token, TokenView};
use crate::parser::ast::{Expr, ExprView, Ident, Infix, Literal, Precedence, Prefix, exprs_view};
use crate::parser::grammar::{
    clean,
    block_rule, call_rule, current, expr_rule, grouped_rule, head_rule, if_rule, infix_rule,
    is_infix_operator, list_rule, list_tail, operators_rule, prefix_rule, remaining, upcoming,
};
use crate::parser::{Parser, expr_of, exprs_of, ident_of, push_expr};

verus! {

impl Parser {
    /// Whether the token under the cursor is an identifier.
    pub(super) fn current_is_ident(&self) -> (is: bool)
        requires
            self.wf(),
        ensures
            is == (current(self.tokens(), self.cursor()) is Ident),
    {
        proof {
            self.lemma_cursor();
        }
        matches!(self.current_token, Token::Ident(_))
    }

    /// Whether the token after the cursor is an identifier.
    pub(super) fn next_is_ident(&self) -> (is: bool)
        requires
            self.wf(),
        ensures
            is == (upcoming(self.tokens(), self.cursor()) is Ident),
    {
        proof {
            self.lemma_cursor();
        }
        matches!(self.next_token, Token::Ident(_))
    }

    /// A copy of the token under the cursor.
    pub(super) fn current_token_copy(&self) -> (token: Token)
        requires
            self.wf(),
        ensures
            token@ == current(self.tokens(), self.cursor()),
    {
        proof {
            self.lemma_cursor();
        }
        self.current_token.clone()
    }

    #[verifier::loop_isolation(false)]
    pub(super) fn parse_expr(&mut self, precedence: Precedence) -> (r: Option<Expr>)
        requires
            old(self).wf(),
            !old(self).refused(),
        ensures
            final(self).follows(
                *old(self),
                expr_rule(old(self).tokens(), old(self).cursor(), precedence),
            ),
            clean(expr_rule(old(self).tokens(), old(self).cursor(), precedence)),
            expr_of(r) == expr_rule(old(self).tokens(), old(self).cursor(), precedence).value,
        decreases remaining(old(self).tokens(), old(self).cursor()), 8nat, 0nat,
    {
        proof {
            reveal(expr_rule);
            reveal(head_rule);
            reveal(operators_rule);
            reveal(prefix_rule);
            reveal(grouped_rule);
            reveal(if_rule);
            reveal(call_rule);
            reveal(infix_rule);
        }
        let ghost ts = self.tokens();
        let ghost pos = self.cursor();
        let token = self.current_token_copy();
        let head = match token {
            Token::Ident(_) => self.parse_ident_expr(),
            Token::Int(_) => self.parse_int_expr(),
            Token::True | Token::False => self.parse_bool_expr(),
            Token::Minus | Token::Plus | Token::Bang => self.parse_prefix_expr(),
            Token::LParen => self.parse_grouped_expr(),
            Token::If => self.parse_if_expr(),
            _ => {
                self.refuse();
                None
            },
        };
        let mut left = match head {
            Some(expr) => expr,
            None => return None,
        };
        let ghost mut used: nat = head_rule(ts, pos).used;
        loop
            invariant
                self.wf(),
                !self.refused(),
                self.tokens() == ts,
                self.cursor() == pos + used,
                operators_rule(ts, pos, used, left@, precedence) == expr_rule(ts, pos, precedence),
            decreases remaining(self.tokens(), self.cursor()),
        {
            if self.next_token_is(&Token::Semicolon) || precedence.rank()
                >= self.next_token_precedence().rank() {
                return Some(left);
            }
            let is_call = self.next_token_is(&Token::LParen);
            self.bump();
            let ghost operand = left@;
            let step = if is_call {
                self.parse_call_expr(left)
            } else {
                self.parse_infix_expr(left)
            };
            proof {
                used = used + 1 + if is_call {
                    call_rule(ts, pos + used + 1, operand).used
                } else {
                    infix_rule(ts, pos + used + 1, operand).used
                };
            }
            left = match step {
                Some(expr) => expr,
                None => return None,
            };
        }
    }

    /// The identifier under the cursor, if there is one.
    pub(super) fn parse_ident(&self) -> (r: Option<Ident>)
        requires
            self.wf(),
        ensures
            ident_of(r) == match current(self.tokens(), self.cursor()) {
                TokenView::Ident(name) => Some(name),
                _ => None,
            },
    {
        proof {
            self.lemma_cursor();
        }
        match &self.current_token {
            Token::Ident(ident) => Some(Ident(ident.clone())),
            _ => None,
        }
    }

    fn parse_ident_expr(&self) -> (r: Option<Expr>)
        requires
            self.wf(),
        ensures
            expr_of(r) == match current(self.tokens(), self.cursor()) {
                TokenView::Ident(name) => Some(ExprView::Ident(name)),
                _ => None,
            },
    {
        match self.parse_ident() {
            Some(ident) => Some(Expr::Ident(ident)),
            None => None,
        }
    }

    fn parse_int_expr(&self) -> (r: Option<Expr>)
        requires
            self.wf(),
        ensures
            expr_of(r) == match current(self.tokens(), self.cursor()) {
                TokenView::Int(value) => Some(ExprView::Literal(Literal::Int(value))),
                _ => None,
            },
    {
        proof {
            self.lemma_cursor();
        }
        match &self.current_token {
            Token::Int(number) => Some(Expr::Literal(Literal::Int(*number))),
            _ => None,
        }
    }

    fn parse_bool_expr(&self) -> (r: Option<Expr>)
        requires
            self.wf(),
        ensures
            expr_of(r) == match current(self.tokens(), self.cursor()) {
                TokenView::True => Some(ExprView::Literal(Literal::Bool(true))),
                TokenView::False => Some(ExprView::Literal(Literal::Bool(false))),
                _ => None,
            },
    {
        proof {
            self.lemma_cursor();
        }
        match &self.current_token {
            Token::True => Some(Expr::Literal(Literal::Bool(true))),
            Token::False => Some(Expr::Literal(Literal::Bool(false))),
            _ => None,
        }
    }

    #[verifier::loop_isolation(false)]
    fn parse_expr_list(&mut self, end: Token) -> (r: Option<Vec<Expr>>)
        requires
            old(self).wf(),
            !old(self).refused(),
            old(self).cursor() < old(self).tokens().len(),
        ensures
            final(self).follows(*old(self), list_rule(old(self).tokens(), old(self).cursor(), end@)),
            clean(list_rule(old(self).tokens(), old(self).cursor(), end@)),
            exprs_of(r) == list_rule(old(self).tokens(), old(self).cursor(), end@).value,
        decreases remaining(old(self).tokens(), old(self).cursor()), 4nat, 0nat,
    {
        proof {
            reveal(list_rule);
            reveal(list_tail);
            reveal(expr_rule);
            reveal(head_rule);
        }
        let ghost ts = self.tokens();
        let ghost pos = self.cursor();
        let mut list: Vec<Expr> = Vec::new();
        proof {
            assert(exprs_view(&list) =~= Seq::empty());
        }
        if self.next_token_is(&end) {
            self.bump();
            return Some(list);
        }
        self.bump();
        match self.parse_expr(Precedence::Lowest) {
            Some(expr) => push_expr(&mut list, expr),
            None => return None,
        }
        let ghost mut used: nat = 1 + expr_rule(ts, pos + 1, Precedence::Lowest).used;
        proof {
            assert(exprs_view(&list) =~= seq![
                expr_rule(ts, pos + 1, Precedence::Lowest).value.unwrap(),
            ]);
        }
        while self.next_token_is(&Token::Comma)
            invariant
                self.wf(),
                !self.refused(),
                self.tokens() == ts,
                self.cursor() == pos + used,
                list_tail(ts, pos, used, exprs_view(&list), end@) == list_rule(ts, pos, end@),
            decreases remaining(self.tokens(), self.cursor()),
        {
            self.bump();
            self.bump();
            match self.parse_expr(Precedence::Lowest) {
                Some(expr) => push_expr(&mut list, expr),
                None => return None,
            }
            proof {
                used = used + 2 + expr_rule(ts, pos + used + 2, Precedence::Lowest).used;
            }
        }
        if !self.expect_next_token(end) {
            return None;
        }
        Some(list)
    }

    fn parse_prefix_expr(&mut self) -> (r: Option<Expr>)
        requires
            old(self).wf(),
            !old(self).refused(),
        ensures
            final(self).follows(*old(self), prefix_rule(old(self).tokens(), old(self).cursor())),
            clean(prefix_rule(old(self).tokens(), old(self).cursor())),
            expr_of(r) == prefix_rule(old(self).tokens(), old(self).cursor()).value,
        decreases remaining(old(self).tokens(), old(self).cursor()), 6nat, 0nat,
    {
        proof {
            reveal(prefix_rule);
            reveal(expr_rule);
        }
        let prefix = match self.current_token_copy() {
            Token::Bang => Prefix::Not,
            Token::Minus => Prefix::Minus,
            Token::Plus => Prefix::Plus,
            _ => return None,
        };
        self.bump();
        match self.parse_expr(Precedence::Prefix) {
            Some(expr) => Some(Expr::Prefix(prefix, Box::new(expr))),
            None => None,
        }
    }

    fn parse_infix_expr(&mut self, left: Expr) -> (r: Option<Expr>)
        requires
            old(self).wf(),
            !old(self).refused(),
            is_infix_operator(current(old(self).tokens(), old(self).cursor())),
        ensures
            final(self).follows(
                *old(self),
                infix_rule(old(self).tokens(), old(self).cursor(), left@),
            ),
            clean(infix_rule(old(self).tokens(), old(self).cursor(), left@)),
            expr_of(r) == infix_rule(old(self).tokens(), old(self).cursor(), left@).value,
        decreases remaining(old(self).tokens(), old(self).cursor()), 5nat, 0nat,
    {
        proof {
            reveal(infix_rule);
            reveal(expr_rule);
        }
        let infix = match self.current_token_copy() {
            Token::Plus => Infix::Plus,
            Token::Minus => Infix::Minus,
            Token::Equal => Infix::Equal,
            _ => Infix::NotEqual,
        };
        let precedence = self.current_token_precedence();
        self.bump();
        match self.parse_expr(precedence) {
            Some(right) => Some(Expr::Infix(infix, Box::new(left), Box::new(right))),
            None => None,
        }
    }

    fn parse_grouped_expr(&mut self) -> (r: Option<Expr>)
        requires
            old(self).wf(),
            !old(self).refused(),
            current(old(self).tokens(), old(self).cursor()) == TokenView::LParen,
        ensures
            final(self).follows(*old(self), grouped_rule(old(self).tokens(), old(self).cursor())),
            clean(grouped_rule(old(self).tokens(), old(self).cursor())),
            expr_of(r) == grouped_rule(old(self).tokens(), old(self).cursor()).value,
        decreases remaining(old(self).tokens(), old(self).cursor()), 6nat, 0nat,
    {
        proof {
            reveal(grouped_rule);
            reveal(expr_rule);
        }
        self.bump();
        let expr = self.parse_expr(Precedence::Lowest);
        if self.has_failed() {
            return None;
        }
        if !self.expect_next_token(Token::RParen) {
            None
        } else {
            expr
        }
    }

    fn parse_if_expr(&mut self) -> (r: Option<Expr>)
        requires
            old(self).wf(),
            !old(self).refused(),
        ensures
            final(self).follows(*old(self), if_rule(old(self).tokens(), old(self).cursor())),
            clean(if_rule(old(self).tokens(), old(self).cursor())),
            expr_of(r) == if_rule(old(self).tokens(), old(self).cursor()).value,
        decreases remaining(old(self).tokens(), old(self).cursor()), 6nat, 0nat,
    {
        proof {
            reveal(if_rule);
            reveal(expr_rule);
            reveal(block_rule);
        }
        if !self.expect_next_token(Token::LParen) {
            return None;
        }
        self.bump();
        let cond = match self.parse_expr(Precedence::Lowest) {
            Some(expr) => expr,
            None => return None,
        };
        if !self.expect_next_token(Token::RParen) || !self.expect_next_token(Token::LBrace) {
            return None;
        }
        let consequence = self.parse_block_stmt();
        if self.has_failed() {
            return None;
        }
        let mut alternative = None;
        if self.next_token_is(&Token::Else) {
            self.bump();
            if !self.expect_next_token(Token::LBrace) {
                return None;
            }
            let block = self.parse_block_stmt();
            if self.has_failed() {
                return None;
            }
            alternative = Some(block);
        }
        Some(Expr::If { cond: Box::new(cond), consequence, alternative })
    }

    fn parse_call_expr(&mut self, func: Expr) -> (r: Option<Expr>)
        requires
            old(self).wf(),
            !old(self).refused(),
            old(self).cursor() < old(self).tokens().len(),
        ensures
            final(self).follows(*old(self), call_rule(old(self).tokens(), old(self).cursor(), func@)),
            clean(call_rule(old(self).tokens(), old(self).cursor(), func@)),
            expr_of(r) == call_rule(old(self).tokens(), old(self).cursor(), func@).value,
        decreases remaining(old(self).tokens(), old(self).cursor()), 5nat, 0nat,
    {
        proof {
            reveal(call_rule);
            reveal(list_rule);
        }
        let args = match self.parse_expr_list(Token::RParen) {
            Some(args) => args,
            None => return None,
        };
        Some(Expr::Call { func: Box::new(func), args })
    }
}

} // verus!
