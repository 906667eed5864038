//! The grammar of the source language, as functions from a token sequence
//! and a cursor position to a tree, the number of tokens taken, and
//! whether the text was refused.
use vstd::prelude::*;
use crate::lexer::TokenView;
use crate::parser::ast::{ExprView, StmtView, LLVMExpressionType, Literal, Prefix, Infix, Precedence};

verus! {

/// What one grammar rule made of the tokens from the cursor on.
pub ghost struct Parsed<T> {
    /// The tree, when the rule produced one.
    pub value: Option<T>,
    /// How many tokens the rule has moved the cursor forward.
    pub used: nat,
    /// Whether the rule met a token that the grammar does not allow there.
    pub failed: bool,
}

/// The token at position `pos`; `Eof` past the last token.
pub open spec fn current(ts: Seq<TokenView>, pos: nat) -> TokenView {
    if pos < ts.len() {
        ts[pos as int]
    } else {
        TokenView::Eof
    }
}

/// The token after the one at position `pos`.
pub open spec fn upcoming(ts: Seq<TokenView>, pos: nat) -> TokenView {
    current(ts, pos + 1)
}

/// How many tokens lie at or after position `pos`.
pub open spec fn remaining(ts: Seq<TokenView>, pos: nat) -> nat {
    if pos < ts.len() {
        (ts.len() - pos) as nat
    } else {
        0
    }
}

/// The result of a rule that has refused the text after `used` tokens.
pub open spec fn refused<T>(used: nat) -> Parsed<T> {
    Parsed { value: None, used, failed: true }
}

/// The result of a rule that has found no tree, without refusing the text.
pub open spec fn nothing<T>(used: nat) -> Parsed<T> {
    Parsed { value: None, used, failed: false }
}

/// The result of a rule that has found `value`.
pub open spec fn found<T>(value: T, used: nat) -> Parsed<T> {
    Parsed { value: Some(value), used, failed: false }
}

/// A result without a tree, which keeps the failure of the rule it came from.
pub open spec fn stopped<T, U>(inner: Parsed<U>, used: nat) -> Parsed<T> {
    Parsed { value: None, used, failed: inner.failed }
}

/// That a refused rule yields no tree.
pub open spec fn clean<T>(out: Parsed<T>) -> bool {
    out.failed ==> out.value is None
}

/// How tightly the operator that a token spells binds.
pub open spec fn precedence_of(token: TokenView) -> Precedence {
    match token {
        TokenView::Equal | TokenView::NotEqual => Precedence::Equals,
        TokenView::Plus | TokenView::Minus => Precedence::Sum,
        TokenView::LParen => Precedence::Call,
        _ => Precedence::Lowest,
    }
}

/// The declared type that a token spells.
pub open spec fn declared_type(token: TokenView) -> LLVMExpressionType {
    match token {
        TokenView::BoolType => LLVMExpressionType::Boolean,
        TokenView::IntType => LLVMExpressionType::Integer,
        _ => LLVMExpressionType::Null,
    }
}

/// Whether a token spells an infix operator.
pub open spec fn is_infix_operator(token: TokenView) -> bool {
    token == TokenView::Plus || token == TokenView::Minus || token == TokenView::Equal || token
        == TokenView::NotEqual
}

/// The infix operator that a token spells.
pub open spec fn infix_of(token: TokenView) -> Infix {
    match token {
        TokenView::Plus => Infix::Plus,
        TokenView::Minus => Infix::Minus,
        TokenView::Equal => Infix::Equal,
        _ => Infix::NotEqual,
    }
}

/// 1 when a semicolon follows position `pos`, else 0: a statement takes the
/// semicolon that ends it, if there is one.
pub open spec fn semicolon(ts: Seq<TokenView>, pos: nat) -> nat {
    if upcoming(ts, pos) == TokenView::Semicolon {
        1
    } else {
        0
    }
}

/// `: type`, read from the token before the colon. The cursor ends on the
/// type's token.
pub open spec fn type_rule(ts: Seq<TokenView>, pos: nat) -> Parsed<LLVMExpressionType> {
    if upcoming(ts, pos) == TokenView::Colon {
        found(declared_type(current(ts, pos + 2)), 2)
    } else {
        refused(0)
    }
}

/// The rest of a parameter list, the cursor `used` tokens behind `pos` on
/// the type of the parameter before: `, name: type` as often as a comma
/// follows, then `)`.
#[verifier::opaque]
pub open spec fn params_tail(
    ts: Seq<TokenView>,
    pos: nat,
    used: nat,
    names: Seq<Seq<char>>,
    types: Seq<LLVMExpressionType>,
) -> Parsed<(Seq<Seq<char>>, Seq<LLVMExpressionType>)>
    decreases remaining(ts, pos + used),
{
    let at = pos + used;
    if upcoming(ts, at) == TokenView::Comma {
        match current(ts, at + 2) {
            TokenView::Ident(name) => {
                let ty = type_rule(ts, at + 2);
                if ty.failed {
                    refused(used + 2)
                } else {
                    params_tail(ts, pos, used + 4, names.push(name), types.push(ty.value.unwrap()))
                }
            },
            _ => nothing(used + 2),
        }
    } else if upcoming(ts, at) == TokenView::RParen {
        found((names, types), used + 1)
    } else {
        refused(used)
    }
}

/// A parameter list, the cursor on its `(`. The cursor ends on the `)`.
#[verifier::opaque]
pub open spec fn params_rule(ts: Seq<TokenView>, pos: nat) -> Parsed<
    (Seq<Seq<char>>, Seq<LLVMExpressionType>),
> {
    if upcoming(ts, pos) == TokenView::RParen {
        found((Seq::empty(), Seq::empty()), 1)
    } else {
        match current(ts, pos + 1) {
            TokenView::Ident(name) => {
                let ty = type_rule(ts, pos + 1);
                if ty.failed {
                    refused(1)
                } else {
                    params_tail(ts, pos, 3, seq![name], seq![ty.value.unwrap()])
                }
            },
            _ => nothing(1),
        }
    }
}

/// An expression, the cursor on its first token. Operators that bind no
/// tighter than `min` are left for the caller. The cursor ends on the
/// expression's last token.
#[verifier::opaque]
pub open spec fn expr_rule(ts: Seq<TokenView>, pos: nat, min: Precedence) -> Parsed<ExprView>
    decreases remaining(ts, pos), 8nat,
{
    let head = head_rule(ts, pos);
    if head.value is None {
        head
    } else {
        operators_rule(ts, pos, head.used, head.value.unwrap(), min)
    }
}

/// The part of an expression before any infix operator or call.
#[verifier::opaque]
pub open spec fn head_rule(ts: Seq<TokenView>, pos: nat) -> Parsed<ExprView>
    decreases remaining(ts, pos), 7nat,
{
    match current(ts, pos) {
        TokenView::Ident(name) => found(ExprView::Ident(name), 0),
        TokenView::Int(value) => found(ExprView::Literal(Literal::Int(value)), 0),
        TokenView::True => found(ExprView::Literal(Literal::Bool(true)), 0),
        TokenView::False => found(ExprView::Literal(Literal::Bool(false)), 0),
        TokenView::Minus | TokenView::Plus | TokenView::Bang => prefix_rule(ts, pos),
        TokenView::LParen => grouped_rule(ts, pos),
        TokenView::If => if_rule(ts, pos),
        _ => refused(0),
    }
}

/// The infix operators and calls that follow `left`, as long as they bind
/// tighter than `min`; the cursor is `used` tokens behind `pos`.
#[verifier::opaque]
pub open spec fn operators_rule(
    ts: Seq<TokenView>,
    pos: nat,
    used: nat,
    left: ExprView,
    min: Precedence,
) -> Parsed<ExprView>
    decreases remaining(ts, pos + used), 6nat,
{
    let at = pos + used;
    let next = upcoming(ts, at);
    if next != TokenView::Semicolon && min.level() < precedence_of(next).level() {
        let step = if next == TokenView::LParen {
            call_rule(ts, at + 1, left)
        } else {
            infix_rule(ts, at + 1, left)
        };
        if step.value is None {
            stopped(step, used + 1 + step.used)
        } else {
            operators_rule(ts, pos, used + 1 + step.used, step.value.unwrap(), min)
        }
    } else {
        found(left, used)
    }
}

/// `left op right`, the cursor on the operator.
#[verifier::opaque]
pub open spec fn infix_rule(ts: Seq<TokenView>, pos: nat, left: ExprView) -> Parsed<ExprView>
    decreases remaining(ts, pos), 5nat,
{
    if pos >= ts.len() {
        nothing(0)
    } else {
        let right = expr_rule(ts, pos + 1, precedence_of(current(ts, pos)));
        if right.value is None {
            stopped(right, 1 + right.used)
        } else {
            found(
                ExprView::Infix(
                    infix_of(current(ts, pos)),
                    Box::new(left),
                    Box::new(right.value.unwrap()),
                ),
                1 + right.used,
            )
        }
    }
}

/// `func(args)`, the cursor on the `(`. The cursor ends on the `)`.
#[verifier::opaque]
pub open spec fn call_rule(ts: Seq<TokenView>, pos: nat, func: ExprView) -> Parsed<ExprView>
    decreases remaining(ts, pos), 5nat,
{
    let args = list_rule(ts, pos, TokenView::RParen);
    if args.value is None {
        stopped(args, args.used)
    } else {
        found(ExprView::Call { func: Box::new(func), args: args.value.unwrap() }, args.used)
    }
}

/// Expressions with commas between them up to the token `end`, the cursor
/// on the token before the first.
#[verifier::opaque]
pub open spec fn list_rule(ts: Seq<TokenView>, pos: nat, end: TokenView) -> Parsed<Seq<ExprView>>
    decreases remaining(ts, pos), 4nat,
{
    if upcoming(ts, pos) == end {
        found(Seq::empty(), 1)
    } else if pos >= ts.len() {
        refused(1)
    } else {
        let first = expr_rule(ts, pos + 1, Precedence::Lowest);
        if first.value is None {
            stopped(first, 1 + first.used)
        } else {
            list_tail(ts, pos, 1 + first.used, seq![first.value.unwrap()], end)
        }
    }
}

/// The rest of an expression list, the cursor `used` tokens behind `pos`
/// on the last token of the expression before.
#[verifier::opaque]
pub open spec fn list_tail(
    ts: Seq<TokenView>,
    pos: nat,
    used: nat,
    items: Seq<ExprView>,
    end: TokenView,
) -> Parsed<Seq<ExprView>>
    decreases remaining(ts, pos + used), 3nat,
{
    let at = pos + used;
    if upcoming(ts, at) == TokenView::Comma {
        let item = expr_rule(ts, at + 2, Precedence::Lowest);
        if item.value is None {
            stopped(item, used + 2 + item.used)
        } else {
            list_tail(ts, pos, used + 2 + item.used, items.push(item.value.unwrap()), end)
        }
    } else if upcoming(ts, at) == end {
        found(items, used + 1)
    } else {
        refused(used)
    }
}

/// An operator before its operand, the cursor on the operator.
#[verifier::opaque]
pub open spec fn prefix_rule(ts: Seq<TokenView>, pos: nat) -> Parsed<ExprView>
    decreases remaining(ts, pos), 6nat,
{
    let prefix = match current(ts, pos) {
        TokenView::Bang => Some(Prefix::Not),
        TokenView::Minus => Some(Prefix::Minus),
        TokenView::Plus => Some(Prefix::Plus),
        _ => None,
    };
    if prefix is None || pos >= ts.len() {
        nothing(0)
    } else {
        let operand = expr_rule(ts, pos + 1, Precedence::Prefix);
        if operand.value is None {
            stopped(operand, 1 + operand.used)
        } else {
            found(
                ExprView::Prefix(prefix.unwrap(), Box::new(operand.value.unwrap())),
                1 + operand.used,
            )
        }
    }
}

/// `( expression )`, the cursor on the `(`. The cursor ends on the `)`.
#[verifier::opaque]
pub open spec fn grouped_rule(ts: Seq<TokenView>, pos: nat) -> Parsed<ExprView>
    decreases remaining(ts, pos), 6nat,
{
    if pos >= ts.len() {
        refused(1)
    } else {
        let inner = expr_rule(ts, pos + 1, Precedence::Lowest);
        if inner.failed {
            refused(1 + inner.used)
        } else if upcoming(ts, pos + 1 + inner.used) != TokenView::RParen {
            refused(1 + inner.used)
        } else {
            Parsed { value: inner.value, used: 2 + inner.used, failed: false }
        }
    }
}

/// `if (cond) { .. }` with an optional `else { .. }`, the cursor on `if`.
/// The cursor ends on the last `}`.
#[verifier::opaque]
pub open spec fn if_rule(ts: Seq<TokenView>, pos: nat) -> Parsed<ExprView>
    decreases remaining(ts, pos), 6nat,
{
    if upcoming(ts, pos) != TokenView::LParen {
        refused(0)
    } else {
        let cond = expr_rule(ts, pos + 2, Precedence::Lowest);
        let at_cond = 2 + cond.used;
        if cond.value is None {
            stopped(cond, at_cond)
        } else if upcoming(ts, pos + at_cond) != TokenView::RParen {
            refused(at_cond)
        } else if upcoming(ts, pos + at_cond + 1) != TokenView::LBrace {
            refused(at_cond + 1)
        } else {
            let consequence = block_rule(ts, pos + at_cond + 2);
            let at_then = at_cond + 2 + consequence.used;
            if consequence.failed {
                refused(at_then)
            } else if upcoming(ts, pos + at_then) != TokenView::Else {
                found(
                    ExprView::If {
                        cond: Box::new(cond.value.unwrap()),
                        consequence: consequence.value.unwrap(),
                        alternative: None,
                    },
                    at_then,
                )
            } else if upcoming(ts, pos + at_then + 1) != TokenView::LBrace {
                refused(at_then + 1)
            } else {
                let alternative = block_rule(ts, pos + at_then + 2);
                let at_else = at_then + 2 + alternative.used;
                if alternative.failed {
                    refused(at_else)
                } else {
                    found(
                        ExprView::If {
                            cond: Box::new(cond.value.unwrap()),
                            consequence: consequence.value.unwrap(),
                            alternative: Some(alternative.value.unwrap()),
                        },
                        at_else,
                    )
                }
            }
        }
    }
}

/// The statements of a block, the cursor on its `{`. The cursor ends on the
/// `}`, or at the end of the input when the block is not closed. When a
/// statement is refused, the value holds the statements before it.
#[verifier::opaque]
pub open spec fn block_rule(ts: Seq<TokenView>, pos: nat) -> Parsed<Seq<StmtView>>
    decreases remaining(ts, pos), 5nat,
{
    if pos >= ts.len() {
        found(Seq::empty(), 1)
    } else {
        block_items(ts, pos, 1, Seq::empty())
    }
}

/// The statements of a block from `used` tokens behind `pos` on, `items`
/// already read.
#[verifier::opaque]
pub open spec fn block_items(
    ts: Seq<TokenView>,
    pos: nat,
    used: nat,
    items: Seq<StmtView>,
) -> Parsed<Seq<StmtView>>
    decreases remaining(ts, pos + used), 11nat,
{
    let at = pos + used;
    if current(ts, at) == TokenView::RBrace || current(ts, at) == TokenView::Eof {
        found(items, used)
    } else {
        let stmt = stmt_rule(ts, at);
        if stmt.failed {
            Parsed { value: Some(items), used: used + stmt.used, failed: true }
        } else {
            block_items(
                ts,
                pos,
                used + stmt.used + 1,
                match stmt.value {
                    Some(s) => items.push(s),
                    None => items,
                },
            )
        }
    }
}

/// One statement, the cursor on its first token. The cursor ends on the
/// statement's last token.
#[verifier::opaque]
pub open spec fn stmt_rule(ts: Seq<TokenView>, pos: nat) -> Parsed<StmtView>
    decreases remaining(ts, pos), 10nat,
{
    match current(ts, pos) {
        TokenView::Let => let_rule(ts, pos),
        TokenView::Return => return_rule(ts, pos),
        TokenView::Ident(_) => if upcoming(ts, pos) == TokenView::Assign {
            assign_rule(ts, pos)
        } else {
            expr_stmt_rule(ts, pos)
        },
        TokenView::Dis => dis_func_rule(ts, pos),
        TokenView::Func => func_rule(ts, pos, false),
        _ => expr_stmt_rule(ts, pos),
    }
}

/// `let name: type = expression;`
#[verifier::opaque]
pub open spec fn let_rule(ts: Seq<TokenView>, pos: nat) -> Parsed<StmtView>
    decreases remaining(ts, pos), 9nat,
{
    match upcoming(ts, pos) {
        TokenView::Ident(name) => {
            let ty = type_rule(ts, pos + 1);
            if ty.failed {
                refused(1)
            } else if upcoming(ts, pos + 3) != TokenView::Assign {
                refused(3)
            } else {
                let init = expr_rule(ts, pos + 5, Precedence::Lowest);
                if init.value is None {
                    stopped(init, 5 + init.used)
                } else {
                    let end = 5 + init.used;
                    found(
                        StmtView::Let(name, init.value.unwrap(), ty.value.unwrap()),
                        end + semicolon(ts, pos + end),
                    )
                }
            }
        },
        _ => nothing(0),
    }
}

/// `name = expression;`
#[verifier::opaque]
pub open spec fn assign_rule(ts: Seq<TokenView>, pos: nat) -> Parsed<StmtView>
    decreases remaining(ts, pos), 9nat,
{
    match current(ts, pos) {
        TokenView::Ident(name) => {
            if upcoming(ts, pos) != TokenView::Assign {
                refused(0)
            } else {
                let value = expr_rule(ts, pos + 2, Precedence::Lowest);
                if value.value is None {
                    stopped(value, 2 + value.used)
                } else {
                    let end = 2 + value.used;
                    found(
                        StmtView::Assignment(name, value.value.unwrap()),
                        end + semicolon(ts, pos + end),
                    )
                }
            }
        },
        _ => nothing(0),
    }
}

/// `return expression;`
#[verifier::opaque]
pub open spec fn return_rule(ts: Seq<TokenView>, pos: nat) -> Parsed<StmtView>
    decreases remaining(ts, pos), 9nat,
{
    if pos >= ts.len() {
        refused(1)
    } else {
        let value = expr_rule(ts, pos + 1, Precedence::Lowest);
        if value.value is None {
            stopped(value, 1 + value.used)
        } else {
            let end = 1 + value.used;
            found(StmtView::Return(value.value.unwrap()), end + semicolon(ts, pos + end))
        }
    }
}

/// `expression;`
#[verifier::opaque]
pub open spec fn expr_stmt_rule(ts: Seq<TokenView>, pos: nat) -> Parsed<StmtView>
    decreases remaining(ts, pos), 9nat,
{
    let value = expr_rule(ts, pos, Precedence::Lowest);
    if value.value is None {
        stopped(value, value.used)
    } else {
        found(StmtView::Expr(value.value.unwrap()), value.used + semicolon(ts, pos + value.used))
    }
}

/// `func name(params): type { .. }`, the cursor on `func`. The cursor ends
/// on the body's `}`.
#[verifier::opaque]
pub open spec fn func_rule(ts: Seq<TokenView>, pos: nat, distributed: bool) -> Parsed<StmtView>
    decreases remaining(ts, pos), 9nat,
{
    match upcoming(ts, pos) {
        TokenView::Ident(name) => {
            if upcoming(ts, pos + 1) != TokenView::LParen {
                refused(1)
            } else {
                let params = params_rule(ts, pos + 2);
                let at_params = 2 + params.used;
                if params.value is None {
                    stopped(params, at_params)
                } else {
                    let ty = type_rule(ts, pos + at_params);
                    if ty.failed {
                        refused(at_params)
                    } else if upcoming(ts, pos + at_params + 2) != TokenView::LBrace {
                        refused(at_params + 2)
                    } else {
                        let body = block_rule(ts, pos + at_params + 3);
                        let end = at_params + 3 + body.used;
                        if body.failed {
                            refused(end)
                        } else {
                            found(
                                StmtView::Func {
                                    name,
                                    distributed,
                                    params: params.value.unwrap().0,
                                    param_types: params.value.unwrap().1,
                                    return_type: ty.value.unwrap(),
                                    body: body.value.unwrap(),
                                },
                                end,
                            )
                        }
                    }
                }
            }
        },
        _ => nothing(0),
    }
}

/// `dis func name(params): type { .. }`, the cursor on `dis`.
#[verifier::opaque]
pub open spec fn dis_func_rule(ts: Seq<TokenView>, pos: nat) -> Parsed<StmtView>
    decreases remaining(ts, pos), 9nat,
{
    if upcoming(ts, pos) != TokenView::Func {
        refused(0)
    } else {
        let decl = func_rule(ts, pos + 1, true);
        Parsed { value: decl.value, used: 1 + decl.used, failed: decl.failed }
    }
}

/// The statements of a whole text from `used` tokens behind `pos` on,
/// `items` already read. When a statement is refused, the value holds the
/// statements before it.
#[verifier::opaque]
pub open spec fn program_items(
    ts: Seq<TokenView>,
    pos: nat,
    used: nat,
    items: Seq<StmtView>,
) -> Parsed<Seq<StmtView>>
    decreases remaining(ts, pos + used), 11nat,
{
    let at = pos + used;
    if current(ts, at) == TokenView::Eof {
        found(items, used)
    } else {
        let stmt = stmt_rule(ts, at);
        if stmt.failed {
            Parsed { value: Some(items), used: used + stmt.used, failed: true }
        } else {
            program_items(
                ts,
                pos,
                used + stmt.used + 1,
                match stmt.value {
                    Some(s) => items.push(s),
                    None => items,
                },
            )
        }
    }
}

/// Whether a statement declares a function with the distributable qualifier.
pub open spec fn is_distributed(stmt: StmtView) -> bool {
    match stmt {
        StmtView::Func { distributed, .. } => distributed,
        _ => false,
    }
}

/// The test that picks the distributable functions out of a statement list.
pub open spec fn distributed_only() -> spec_fn(StmtView) -> bool {
    |stmt: StmtView| is_distributed(stmt)
}

/// The statements of a whole text, read from position `pos`.
pub open spec fn program_rule(ts: Seq<TokenView>, pos: nat) -> Parsed<Seq<StmtView>> {
    program_items(ts, pos, 0, Seq::empty())
}

/// A statement stands in the list of the distributable functions exactly
/// when it stands in the list of all statements and is a function
/// declared distributable: such a function is in both lists, any other
/// statement in the first alone.
pub proof fn theorem_distributed_split(all: Seq<StmtView>, stmt: StmtView)
    ensures
        all.filter(distributed_only()).contains(stmt) <==> all.contains(stmt) && is_distributed(
            stmt,
        ),
    decreases all.len(),
{
    reveal(Seq::filter);
    let kept = all.filter(distributed_only());
    if all.len() > 0 {
        let front = all.drop_last();
        let last = all.last();
        let sub = front.filter(distributed_only());
        theorem_distributed_split(front, stmt);
        if kept.contains(stmt) {
            let i = choose|i: int| 0 <= i < kept.len() && kept[i] == stmt;
            if is_distributed(last) && i == kept.len() - 1 {
                assert(all[all.len() - 1] == stmt);
            } else {
                assert(sub[i] == stmt);
                let j = choose|j: int| 0 <= j < front.len() && front[j] == stmt;
                assert(all[j] == stmt);
            }
        }
        if all.contains(stmt) && is_distributed(stmt) {
            let j = choose|j: int| 0 <= j < all.len() && all[j] == stmt;
            if j == all.len() - 1 {
                assert(kept[kept.len() - 1] == stmt);
            } else {
                assert(front[j] == stmt);
                let i = choose|i: int| 0 <= i < sub.len() && sub[i] == stmt;
                assert(kept[i] == stmt);
            }
        }
    }
}

} // verus!
