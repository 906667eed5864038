pub mod ast;
pub mod grammar;
pub mod expressions;
pub mod statements;

use vstd::prelude::*;
use crate::lexer::{Lexer, Token, TokenView, same_token, scan, tokens_from, lemma_scan_advances};
use crate::parser::ast::{
    BlockStmt, Expr, Ident, LLVMExpressionType, Precedence, Program, Stmt, ExprView, StmtView,
    clone_stmt, exprs_view, idents_view, program_view,
};
use crate::parser::grammar::{
    Parsed, block_items, block_rule, current, distributed_only, precedence_of, program_items,
    program_rule, remaining, stmt_rule, upcoming,
};

verus! {

/// Reads statements from the tokens of a lexer, with one token of lookahead.
pub struct Parser {
    lexer: Lexer,
    current_token: Token,
    next_token: Token,
    failed: bool,
    all: Ghost<Seq<TokenView>>,
    pos: Ghost<nat>,
}

/// The mathematical value of an optional expression.
pub open spec fn expr_of(r: Option<Expr>) -> Option<ExprView> {
    match r {
        Some(e) => Some(e@),
        None => None,
    }
}

/// The mathematical value of an optional statement.
pub open spec fn stmt_of(r: Option<Stmt>) -> Option<StmtView> {
    match r {
        Some(s) => Some(s@),
        None => None,
    }
}

/// The mathematical value of an optional expression list.
pub open spec fn exprs_of(r: Option<Vec<Expr>>) -> Option<Seq<ExprView>> {
    match r {
        Some(list) => Some(exprs_view(&list)),
        None => None,
    }
}

/// The name of an optional identifier.
pub open spec fn ident_of(r: Option<Ident>) -> Option<Seq<char>> {
    match r {
        Some(id) => Some(id@),
        None => None,
    }
}

/// The mathematical value of an optional parameter list.
pub open spec fn params_of(r: Option<(Vec<Ident>, Vec<LLVMExpressionType>)>) -> Option<
    (Seq<Seq<char>>, Seq<LLVMExpressionType>),
> {
    match r {
        Some((names, types)) => Some((idents_view(&names), types@)),
        None => None,
    }
}

fn push_stmt(items: &mut Vec<Stmt>, stmt: Stmt)
    ensures
        program_view(final(items)) == program_view(old(items)).push(stmt@),
{
    items.push(stmt);
    assert(program_view(items) =~= program_view(old(items)).push(stmt@));
}

fn push_expr(items: &mut Vec<Expr>, expr: Expr)
    ensures
        exprs_view(final(items)) == exprs_view(old(items)).push(expr@),
{
    items.push(expr);
    assert(exprs_view(items) =~= exprs_view(old(items)).push(expr@));
}

fn push_ident(items: &mut Vec<Ident>, id: Ident)
    ensures
        idents_view(final(items)) == idents_view(old(items)).push(id@),
{
    items.push(id);
    assert(idents_view(items) =~= idents_view(old(items)).push(id@));
}

impl Parser {
    /// The tokens that lie under and behind the cursor, as the lexer holds
    /// them at the moment.
    closed spec fn lookahead(&self) -> Seq<TokenView> {
        if self.current_token@ == TokenView::Eof {
            Seq::empty()
        } else if self.next_token@ == TokenView::Eof {
            seq![self.current_token@]
        } else {
            seq![self.current_token@, self.next_token@] + self.lexer.pending()
        }
    }

    /// The parser's invariant: the cursor and the lexer agree with the
    /// token sequence, and once a token is `Eof`, all later ones are.
    #[verifier::opaque]
    pub closed spec fn wf(&self) -> bool {
        &&& self.lexer.wf()
        &&& (self.current_token@ == TokenView::Eof ==> self.next_token@ == TokenView::Eof)
        &&& (self.next_token@ == TokenView::Eof ==> scan(
            self.lexer.source(),
            self.lexer.offset(),
        ).0 == TokenView::Eof)
        &&& (forall|i: int| 0 <= i < self.all@.len() ==> self.all@[i] != TokenView::Eof)
        &&& self.lookahead() =~= if self.pos@ >= self.all@.len() {
            Seq::empty()
        } else {
            self.all@.skip(self.pos@ as int)
        }
    }

    /// All tokens of the text that the parser was made for, without the
    /// final `Eof`.
    pub closed spec fn tokens(&self) -> Seq<TokenView> {
        self.all@
    }

    /// The position of the token under the cursor.
    pub closed spec fn cursor(&self) -> nat {
        self.pos@
    }

    /// Whether the parser has met a token that the grammar does not allow.
    pub closed spec fn refused(&self) -> bool {
        self.failed
    }

    /// That the parser stands where the rule `out` leaves it when started
    /// from `before`.
    pub open spec fn follows<T>(&self, before: Parser, out: Parsed<T>) -> bool {
        &&& self.wf()
        &&& self.tokens() == before.tokens()
        &&& self.cursor() == before.cursor() + out.used
        &&& self.refused() == out.failed
    }

    proof fn lemma_cursor(&self)
        requires
            self.wf(),
        ensures
            current(self.tokens(), self.cursor()) == self.current_token@,
            upcoming(self.tokens(), self.cursor()) == self.next_token@,
    {
        reveal(Parser::wf);
        let rest = self.lookahead();
        let all = self.all@;
        let pos = self.pos@;
        if self.current_token@ != TokenView::Eof {
            assert(rest[0] == self.current_token@);
            assert(pos < all.len());
            assert(rest == all.skip(pos as int));
            assert(all.skip(pos as int)[0] == all[pos as int]);
            if self.next_token@ != TokenView::Eof {
                assert(rest[1] == self.next_token@);
                assert(rest.len() >= 2);
                assert(all.skip(pos as int)[1] == all[pos as int + 1]);
            } else {
                assert(rest.len() == 1);
                assert(all.len() == pos + 1);
            }
        } else {
            assert(rest.len() == 0);
        }
    }

    /// A parser at the first token of what `lexer` has still to read.
    pub fn new(lexer: Lexer) -> (parser: Self)
        requires
            lexer.wf(),
        ensures
            parser.wf(),
            parser.tokens() == lexer.pending(),
            parser.cursor() == 0,
            !parser.refused(),
    {
        let ghost bytes = lexer.source();
        let ghost start = lexer.offset();
        let mut parser = Parser {
            lexer,
            current_token: Token::Eof,
            next_token: Token::Eof,
            failed: false,
            all: Ghost(tokens_from(bytes, start)),
            pos: Ghost(0),
        };
        proof {
            lexer.lemma_offset_in_source();
            lemma_scan_advances(bytes, start);
            lemma_scan_advances(bytes, scan(bytes, start).1);
            lemma_scan_advances(bytes, scan(bytes, scan(bytes, start).1).1);
            lemma_scan_advances(bytes, bytes.len() as int);
            lemma_tokens_hold_no_eof(bytes, start);
        }
        parser.current_token = parser.lexer.next_token();
        parser.next_token = parser.lexer.next_token();
        proof {
            reveal(Parser::wf);
            let (first, p1) = scan(bytes, start);
            let (second, p2) = scan(bytes, p1);
            if first != TokenView::Eof {
                assert(tokens_from(bytes, start) == seq![first] + tokens_from(bytes, p1));
                if second != TokenView::Eof {
                    assert(tokens_from(bytes, p1) == seq![second] + tokens_from(bytes, p2));
                }
            }
            assert(parser.lookahead() =~= lexer.pending());
        }
        parser
    }

    /// Whether the grammar has refused the text. The result of a parse is
    /// then what had been read up to that token.
    pub fn has_failed(&self) -> (failed: bool)
        ensures
            failed == self.refused(),
    {
        self.failed
    }

    fn refuse(&mut self)
        requires
            old(self).wf(),
        ensures
            final(self).wf(),
            final(self).tokens() == old(self).tokens(),
            final(self).cursor() == old(self).cursor(),
            final(self).refused(),
    {
        proof {
            reveal(Parser::wf);
        }
        self.failed = true;
    }

    fn token_to_precedence(tok: &Token) -> (p: Precedence)
        ensures
            p == precedence_of(tok@),
    {
        match tok {
            Token::Equal | Token::NotEqual => Precedence::Equals,
            Token::Plus | Token::Minus => Precedence::Sum,
            Token::LParen => Precedence::Call,
            _ => Precedence::Lowest,
        }
    }

    /// Moves the cursor to the next token.
    fn bump(&mut self)
        requires
            old(self).wf(),
        ensures
            final(self).wf(),
            final(self).tokens() == old(self).tokens(),
            final(self).cursor() == old(self).cursor() + 1,
            final(self).refused() == old(self).refused(),
    {
        let ghost bytes = self.lexer.source();
        let ghost at = self.lexer.offset();
        proof {
            reveal(Parser::wf);
            self.lexer.lemma_offset_in_source();
            lemma_scan_advances(bytes, at);
            lemma_scan_advances(bytes, scan(bytes, at).1);
            lemma_scan_advances(bytes, bytes.len() as int);
        }
        self.current_token = self.next_token.clone();
        self.next_token = self.lexer.next_token();
        self.pos = Ghost(self.pos@ + 1);
        proof {
            let before = old(self).lookahead();
            assert(self.lookahead() =~= if before.len() > 0 {
                before.skip(1)
            } else {
                before
            });
        }
    }

    fn current_token_is(&self, tok: Token) -> (is: bool)
        requires
            self.wf(),
        ensures
            is == (current(self.tokens(), self.cursor()) == tok@),
    {
        proof {
            self.lemma_cursor();
        }
        same_token(&self.current_token, &tok)
    }

    fn next_token_is(&self, tok: &Token) -> (is: bool)
        requires
            self.wf(),
        ensures
            is == (upcoming(self.tokens(), self.cursor()) == tok@),
    {
        proof {
            self.lemma_cursor();
        }
        same_token(&self.next_token, tok)
    }

    /// Moves to the next token if it is `tok`; refuses the text if not.
    fn expect_next_token(&mut self, tok: Token) -> (met: bool)
        requires
            old(self).wf(),
            !old(self).refused(),
        ensures
            final(self).wf(),
            final(self).tokens() == old(self).tokens(),
            met == (upcoming(old(self).tokens(), old(self).cursor()) == tok@),
            met ==> final(self).cursor() == old(self).cursor() + 1 && !final(self).refused(),
            !met ==> final(self).cursor() == old(self).cursor() && final(self).refused(),
    {
        if self.next_token_is(&tok) {
            self.bump();
            return true;
        } else {
            self.refuse();
            return false;
        }
    }

    fn current_token_precedence(&self) -> (p: Precedence)
        requires
            self.wf(),
        ensures
            p == precedence_of(current(self.tokens(), self.cursor())),
    {
        proof {
            self.lemma_cursor();
        }
        Self::token_to_precedence(&self.current_token)
    }

    fn next_token_precedence(&self) -> (p: Precedence)
        requires
            self.wf(),
        ensures
            p == precedence_of(upcoming(self.tokens(), self.cursor())),
    {
        proof {
            self.lemma_cursor();
        }
        Self::token_to_precedence(&self.next_token)
    }

    /// Reads a whole text. The first list holds every statement, the second
    /// the functions of the first that are declared distributable.
    #[verifier::loop_isolation(false)]
    pub fn parse(&mut self) -> (programs: Vec<Program>)
        requires
            old(self).wf(),
            !old(self).refused(),
        ensures
            final(self).follows(*old(self), program_rule(old(self).tokens(), old(self).cursor())),
            programs.len() == 2,
            Some(program_view(&programs[0])) == program_rule(
                old(self).tokens(),
                old(self).cursor(),
            ).value,
            program_view(&programs[1]) == program_view(&programs[0]).filter(distributed_only()),
    {
        proof {
            reveal(program_items);
        }
        let ghost ts = self.tokens();
        let ghost pos = self.cursor();
        let ghost mut used: nat = 0;
        let mut program: Program = Vec::new();
        let mut program2: Program = Vec::new();
        proof {
            reveal(Seq::filter);
            assert(program_view(&program) =~= Seq::empty());
            assert(program_view(&program2) =~= Seq::empty());
        }
        while !self.current_token_is(Token::Eof)
            invariant
                self.wf(),
                !self.refused(),
                self.tokens() == ts,
                self.cursor() == pos + used,
                program_items(ts, pos, used, program_view(&program)) == program_rule(ts, pos),
                program_view(&program2) == program_view(&program).filter(distributed_only()),
            decreases remaining(self.tokens(), self.cursor()),
        {
            let ghost before = program_view(&program);
            let parsed = self.parse_stmt();
            if self.has_failed() {
                return vec![program, program2];
            }
            match parsed {
                Some(stmt) => {
                    let distributed = match &stmt {
                        Stmt::Func { distributed, .. } => *distributed,
                        _ => false,
                    };
                    proof {
                        assert(before.push(stmt@).drop_last() =~= before);
                    }
                    if distributed {
                        push_stmt(&mut program, clone_stmt(&stmt));
                        push_stmt(&mut program2, stmt);
                    } else {
                        push_stmt(&mut program, stmt);
                    }
                },
                None => {},
            }
            proof {
                used = used + stmt_rule(ts, pos + used).used + 1;
            }
            self.bump();
        }
        return vec![program, program2];
    }

    /// Reads the statements of a block, the cursor on its `{`. The cursor
    /// ends on the `}`.
    #[verifier::loop_isolation(false)]
    pub fn parse_block_stmt(&mut self) -> (block: BlockStmt)
        requires
            old(self).wf(),
            !old(self).refused(),
        ensures
            final(self).follows(*old(self), block_rule(old(self).tokens(), old(self).cursor())),
            Some(program_view(&block)) == block_rule(old(self).tokens(), old(self).cursor()).value,
        decreases remaining(old(self).tokens(), old(self).cursor()), 5nat, 0nat,
    {
        proof {
            reveal(block_rule);
            reveal(block_items);
            reveal(stmt_rule);
        }
        let ghost ts = self.tokens();
        let ghost pos = self.cursor();
        let ghost mut used: nat = 1;
        self.bump();
        let mut block: Vec<Stmt> = Vec::new();
        proof {
            assert(program_view(&block) =~= Seq::empty());
        }
        while !self.current_token_is(Token::RBrace) && !self.current_token_is(Token::Eof)
            invariant
                self.wf(),
                !self.refused(),
                used >= 1,
                self.tokens() == ts,
                self.cursor() == pos + used,
                ts == old(self).tokens(),
                pos == old(self).cursor(),
                pos < ts.len() ==> block_items(ts, pos, used, program_view(&block)) == block_rule(
                    ts,
                    pos,
                ),
                pos >= ts.len() ==> used == 1 && program_view(&block) == Seq::<StmtView>::empty(),
            decreases remaining(self.tokens(), self.cursor()),
        {
            let parsed = self.parse_stmt();
            if self.has_failed() {
                return block;
            }
            match parsed {
                Some(stmt) => push_stmt(&mut block, stmt),
                None => {},
            }
            proof {
                used = used + stmt_rule(ts, pos + used).used + 1;
            }
            self.bump();
        }
        block
    }
}

proof fn lemma_tokens_hold_no_eof(bytes: Seq<u8>, pos: int)
    requires
        0 <= pos <= bytes.len(),
    ensures
        forall|i: int|
            0 <= i < tokens_from(bytes, pos).len() ==> tokens_from(bytes, pos)[i] != TokenView::Eof,
    decreases bytes.len() - pos,
{
    let (token, next) = scan(bytes, pos);
    lemma_scan_advances(bytes, pos);
    if token == TokenView::Eof || next <= pos || next > bytes.len() {
    } else {
        lemma_tokens_hold_no_eof(bytes, next);
    }
}

} // verus!
