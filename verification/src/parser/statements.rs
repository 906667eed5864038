//! The statement rules of the parser.
use vstd::prelude::*;
use crate::lexer::{Token, TokenView};
use crate::parser::ast::{Ident, LLVMExpressionType, Precedence, Stmt, idents_view};
use crate::parser::grammar::{
    clean,
    assign_rule, block_rule, current, declared_type, dis_func_rule, expr_rule, expr_stmt_rule,
    func_rule, head_rule, let_rule,
    params_rule, params_tail, remaining, return_rule, stmt_rule, type_rule, upcoming,
};
use crate::parser::{Parser, params_of, push_ident, stmt_of};

verus! {

impl Parser {
    /// Reads one statement, the cursor on its first token.
    pub(super) fn parse_stmt(&mut self) -> (r: Option<Stmt>)
        requires
            old(self).wf(),
            !old(self).refused(),
        ensures
            final(self).follows(*old(self), stmt_rule(old(self).tokens(), old(self).cursor())),
            clean(stmt_rule(old(self).tokens(), old(self).cursor())),
            stmt_of(r) == stmt_rule(old(self).tokens(), old(self).cursor()).value,
        decreases remaining(old(self).tokens(), old(self).cursor()), 10nat, 0nat,
    {
        proof {
            reveal(stmt_rule);
            reveal(let_rule);
            reveal(return_rule);
            reveal(assign_rule);
            reveal(expr_stmt_rule);
            reveal(dis_func_rule);
            reveal(func_rule);
        }
        proof {
            self.lemma_cursor();
        }
        if self.current_token_is(Token::Let) {
            self.parse_let_stmt()
        } else if self.current_token_is(Token::Return) {
            self.parse_return_stmt()
        } else if self.current_is_ident() {
            self.parse_ident_stmt()
        } else if self.current_token_is(Token::Dis) {
            self.parse_dis_func_expr()
        } else if self.current_token_is(Token::Func) {
            self.parse_func_expr()
        } else {
            self.parse_expr_stmt()
        }
    }

    fn parse_ident_stmt(&mut self) -> (r: Option<Stmt>)
        requires
            old(self).wf(),
            !old(self).refused(),
        ensures
            final(self).follows(
                *old(self),
                if upcoming(old(self).tokens(), old(self).cursor()) == TokenView::Assign {
                    assign_rule(old(self).tokens(), old(self).cursor())
                } else {
                    expr_stmt_rule(old(self).tokens(), old(self).cursor())
                },
            ),
            clean(if upcoming(old(self).tokens(), old(self).cursor()) == TokenView::Assign { assign_rule(old(self).tokens(), old(self).cursor()) } else { expr_stmt_rule(old(self).tokens(), old(self).cursor()) }),
            stmt_of(r) == if upcoming(old(self).tokens(), old(self).cursor()) == TokenView::Assign {
                assign_rule(old(self).tokens(), old(self).cursor())
            } else {
                expr_stmt_rule(old(self).tokens(), old(self).cursor())
            }.value,
        decreases remaining(old(self).tokens(), old(self).cursor()), 9nat, 1nat,
    {
        if self.next_token_is(&Token::Assign) {
            return self.parse_assign_stmt();
        }
        return self.parse_expr_stmt();
    }

    fn parse_assign_stmt(&mut self) -> (r: Option<Stmt>)
        requires
            old(self).wf(),
            !old(self).refused(),
        ensures
            final(self).follows(*old(self), assign_rule(old(self).tokens(), old(self).cursor())),
            clean(assign_rule(old(self).tokens(), old(self).cursor())),
            stmt_of(r) == assign_rule(old(self).tokens(), old(self).cursor()).value,
        decreases remaining(old(self).tokens(), old(self).cursor()), 9nat, 0nat,
    {
        proof {
            reveal(assign_rule);
            reveal(expr_rule);
        }
        let name = match self.parse_ident() {
            Some(name) => name,
            None => return None,
        };
        if !self.expect_next_token(Token::Assign) {
            return None;
        }
        self.bump();
        let expr = match self.parse_expr(Precedence::Lowest) {
            Some(expr) => expr,
            None => return None,
        };
        if self.next_token_is(&Token::Semicolon) {
            self.bump();
        }
        Some(Stmt::Assignment(name, expr))
    }

    fn parse_let_stmt(&mut self) -> (r: Option<Stmt>)
        requires
            old(self).wf(),
            !old(self).refused(),
        ensures
            final(self).follows(*old(self), let_rule(old(self).tokens(), old(self).cursor())),
            clean(let_rule(old(self).tokens(), old(self).cursor())),
            stmt_of(r) == let_rule(old(self).tokens(), old(self).cursor()).value,
        decreases remaining(old(self).tokens(), old(self).cursor()), 9nat, 0nat,
    {
        proof {
            reveal(let_rule);
            reveal(expr_rule);
        }
        if self.next_is_ident() {
            self.bump();
        } else {
            return None;
        }
        let name = match self.parse_ident() {
            Some(name) => name,
            None => return None,
        };
        let value_type = match self.parse_type() {
            Some(ty) => ty,
            None => return None,
        };
        if !self.expect_next_token(Token::Assign) {
            return None;
        }
        self.bump();
        let expr = match self.parse_expr(Precedence::Lowest) {
            Some(expr) => expr,
            None => return None,
        };
        if self.next_token_is(&Token::Semicolon) {
            self.bump();
        }
        Some(Stmt::Let(name, expr, value_type))
    }

    fn parse_return_stmt(&mut self) -> (r: Option<Stmt>)
        requires
            old(self).wf(),
            !old(self).refused(),
        ensures
            final(self).follows(*old(self), return_rule(old(self).tokens(), old(self).cursor())),
            clean(return_rule(old(self).tokens(), old(self).cursor())),
            stmt_of(r) == return_rule(old(self).tokens(), old(self).cursor()).value,
        decreases remaining(old(self).tokens(), old(self).cursor()), 9nat, 0nat,
    {
        proof {
            reveal(return_rule);
            reveal(expr_rule);
            reveal(head_rule);
        }
        self.bump();
        let expr = match self.parse_expr(Precedence::Lowest) {
            Some(expr) => expr,
            None => return None,
        };
        if self.next_token_is(&Token::Semicolon) {
            self.bump();
        }
        Some(Stmt::Return(expr))
    }

    fn parse_expr_stmt(&mut self) -> (r: Option<Stmt>)
        requires
            old(self).wf(),
            !old(self).refused(),
        ensures
            final(self).follows(*old(self), expr_stmt_rule(old(self).tokens(), old(self).cursor())),
            clean(expr_stmt_rule(old(self).tokens(), old(self).cursor())),
            stmt_of(r) == expr_stmt_rule(old(self).tokens(), old(self).cursor()).value,
        decreases remaining(old(self).tokens(), old(self).cursor()), 9nat, 0nat,
    {
        proof {
            reveal(expr_stmt_rule);
            reveal(expr_rule);
        }
        match self.parse_expr(Precedence::Lowest) {
            Some(expr) => {
                if self.next_token_is(&Token::Semicolon) {
                    self.bump();
                }
                Some(Stmt::Expr(expr))
            },
            None => None,
        }
    }

    fn parse_dis_func_expr(&mut self) -> (r: Option<Stmt>)
        requires
            old(self).wf(),
            !old(self).refused(),
        ensures
            final(self).follows(*old(self), dis_func_rule(old(self).tokens(), old(self).cursor())),
            clean(dis_func_rule(old(self).tokens(), old(self).cursor())),
            stmt_of(r) == dis_func_rule(old(self).tokens(), old(self).cursor()).value,
        decreases remaining(old(self).tokens(), old(self).cursor()), 9nat, 1nat,
    {
        proof {
            reveal(dis_func_rule);
            reveal(func_rule);
        }
        if !self.expect_next_token(Token::Func) {
            return None;
        }
        self.parse_function(true)
    }

    /// The type that a token declares.
    pub fn convert_token_to_expression_type(&mut self, token: Token) -> (ty: LLVMExpressionType)
        ensures
            *final(self) == *old(self),
            ty == declared_type(token@),
    {
        match token {
            Token::BoolType => LLVMExpressionType::Boolean,
            Token::IntType => LLVMExpressionType::Integer,
            _ => LLVMExpressionType::Null,
        }
    }

    fn parse_func_expr(&mut self) -> (r: Option<Stmt>)
        requires
            old(self).wf(),
            !old(self).refused(),
        ensures
            final(self).follows(*old(self), func_rule(old(self).tokens(), old(self).cursor(), false)),
            clean(func_rule(old(self).tokens(), old(self).cursor(), false)),
            stmt_of(r) == func_rule(old(self).tokens(), old(self).cursor(), false).value,
        decreases remaining(old(self).tokens(), old(self).cursor()), 9nat, 1nat,
    {
        self.parse_function(false)
    }

    /// A function declaration, the cursor on `func`.
    fn parse_function(&mut self, distributed: bool) -> (r: Option<Stmt>)
        requires
            old(self).wf(),
            !old(self).refused(),
        ensures
            final(self).follows(
                *old(self),
                func_rule(old(self).tokens(), old(self).cursor(), distributed),
            ),
            clean(func_rule(old(self).tokens(), old(self).cursor(), distributed)),
            stmt_of(r) == func_rule(old(self).tokens(), old(self).cursor(), distributed).value,
        decreases remaining(old(self).tokens(), old(self).cursor()), 9nat, 0nat,
    {
        proof {
            reveal(func_rule);
            reveal(block_rule);
        }
        if self.next_is_ident() {
            self.bump();
        } else {
            return None;
        }
        let name = match self.parse_ident() {
            Some(name) => name,
            None => return None,
        };
        if !self.expect_next_token(Token::LParen) {
            return None;
        }
        let (params, param_types) = match self.parse_func_params() {
            Some((params, param_types)) => (params, param_types),
            None => return None,
        };
        let return_type = match self.parse_type() {
            Some(ty) => ty,
            None => return None,
        };
        if !self.expect_next_token(Token::LBrace) {
            return None;
        }
        let body = self.parse_block_stmt();
        if self.has_failed() {
            return None;
        }
        Some(
            Stmt::Func {
                name: name.0,
                distributed: distributed,
                params: params,
                param_types: param_types,
                return_type: return_type,
                body: body,
            },
        )
    }

    /// Reads `: type`, the cursor on the token before the colon. The cursor
    /// ends on the type's token.
    pub fn parse_type(&mut self) -> (r: Option<LLVMExpressionType>)
        requires
            old(self).wf(),
            !old(self).refused(),
        ensures
            final(self).follows(*old(self), type_rule(old(self).tokens(), old(self).cursor())),
            clean(type_rule(old(self).tokens(), old(self).cursor())),
            r == type_rule(old(self).tokens(), old(self).cursor()).value,
    {
        if !self.expect_next_token(Token::Colon) {
            return None;
        }
        self.bump();
        let token = self.current_token_copy();
        Some(self.convert_token_to_expression_type(token))
    }

    #[verifier::loop_isolation(false)]
    fn parse_func_params(&mut self) -> (r: Option<(Vec<Ident>, Vec<LLVMExpressionType>)>)
        requires
            old(self).wf(),
            !old(self).refused(),
        ensures
            final(self).follows(*old(self), params_rule(old(self).tokens(), old(self).cursor())),
            clean(params_rule(old(self).tokens(), old(self).cursor())),
            params_of(r) == params_rule(old(self).tokens(), old(self).cursor()).value,
    {
        proof {
            reveal(params_rule);
            reveal(params_tail);
        }
        let ghost ts = self.tokens();
        let ghost pos = self.cursor();
        let mut params: Vec<Ident> = Vec::new();
        let mut param_types: Vec<LLVMExpressionType> = Vec::new();
        proof {
            assert(idents_view(&params) =~= Seq::empty());
        }
        if self.next_token_is(&Token::RParen) {
            self.bump();
            return Some((params, param_types));
        }
        self.bump();
        match self.parse_ident() {
            Some(ident) => {
                push_ident(&mut params, ident);
                match self.parse_type() {
                    Some(ty) => param_types.push(ty),
                    None => return None,
                }
            },
            None => return None,
        };
        let ghost mut used: nat = 3;
        proof {
            assert(idents_view(&params) =~= seq![current(ts, pos + 1)->Ident_0]);
            assert(param_types@ =~= seq![type_rule(ts, pos + 1).value.unwrap()]);
        }
        while self.next_token_is(&Token::Comma)
            invariant
                self.wf(),
                !self.refused(),
                self.tokens() == ts,
                self.cursor() == pos + used,
                params_tail(ts, pos, used, idents_view(&params), param_types@) == params_rule(
                    ts,
                    pos,
                ),
            decreases remaining(self.tokens(), self.cursor()),
        {
            self.bump();
            self.bump();
            match self.parse_ident() {
                Some(ident) => {
                    push_ident(&mut params, ident);
                    match self.parse_type() {
                        Some(ty) => param_types.push(ty),
                        None => return None,
                    }
                },
                None => return None,
            }
            proof {
                used = used + 4;
            }
        }
        if !self.expect_next_token(Token::RParen) {
            return None;
        }
        Some((params, param_types))
    }
}

} // verus!
