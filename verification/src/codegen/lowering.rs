//! The lowering rules: what each kind of statement and expression adds to
//! the module under construction, as functions on mathematical values.
use vstd::prelude::*;
use crate::codegen::environment::{Bindings, built_ins, lookup};
use crate::codegen::object::{BuiltIn, ObjectView};
use crate::ir::arithmetic::binary;
use crate::ir::condition::{compare, truth};
use crate::ir::converter::{converted, object_type, rewrapped, wrapped};
use crate::ir::creator::{BinaryOp, BlockRef, CreatorView, IntPredicate, Terminator, Value};
use crate::ir::function::{call, first_named, with_new_function};
use crate::ir::llvm_type::{FunctionTypeView, LLVMType};
use crate::ir::operate::{alloca, load, store};
use crate::parser::ast::{ExprView, Infix, LLVMExpressionType, Literal, Prefix, StmtView};

verus! {

/// The mathematical value of an evaluator: the module under construction
/// with the cursor, and the functions that are being generated.
pub ghost struct EvalView {
    pub lc: CreatorView,
    pub stack: Seq<Value>,
    pub main_block: BlockRef,
}

impl EvalView {
    /// The same evaluator with another module and cursor.
    pub open spec fn with(self, lc: CreatorView) -> EvalView {
        EvalView { lc, ..self }
    }

    /// The evaluator's invariant: the cursor stands at a block of the
    /// function that is being generated.
    pub open spec fn wf(self) -> bool {
        &&& self.lc.positioned()
        &&& self.stack.len() > 0
        &&& self.stack.last() == Value::Function { index: self.lc.cursor.unwrap().function }
    }
}

/// The size of an expression: the number of its nodes.
pub open spec fn expr_size(e: ExprView) -> nat
    decreases e,
{
    match e {
        ExprView::Ident(_) => 1,
        ExprView::Literal(_) => 1,
        ExprView::Prefix(_, operand) => 1 + expr_size(*operand),
        ExprView::Infix(_, left, right) => 1 + expr_size(*left) + expr_size(*right),
        ExprView::If { cond, consequence, alternative } => 2 + expr_size(*cond) + program_size(
            consequence,
            0,
        ) + match alternative {
            Some(a) => program_size(a, 0),
            None => 0,
        },
        ExprView::Call { func, args } => 2 + expr_size(*func) + exprs_size(args, 0),
    }
}

/// The size of a statement: the number of its nodes.
pub open spec fn stmt_size(s: StmtView) -> nat
    decreases s,
{
    match s {
        StmtView::Let(_, e, _) => 1 + expr_size(e),
        StmtView::Assignment(_, e) => 1 + expr_size(e),
        StmtView::Func { body, .. } => 2 + program_size(body, 0),
        StmtView::Return(e) => 1 + expr_size(e),
        StmtView::Expr(e) => 1 + expr_size(e),
        StmtView::Blank => 1,
    }
}

/// The size of the statements of `p` from number `i` on.
pub open spec fn program_size(p: Seq<StmtView>, i: nat) -> nat
    decreases p, p.len() - i,
{
    if i >= p.len() {
        0
    } else {
        1 + stmt_size(p[i as int]) + program_size(p, i + 1)
    }
}

/// The size of the expressions of `p` from number `i` on.
pub open spec fn exprs_size(p: Seq<ExprView>, i: nat) -> nat
    decreases p, p.len() - i,
{
    if i >= p.len() {
        0
    } else {
        1 + expr_size(p[i as int]) + exprs_size(p, i + 1)
    }
}

/// The size of a conditional, given by its parts.
pub open spec fn branches_size(
    cond: ExprView,
    consequence: Seq<StmtView>,
    alternative: Option<Seq<StmtView>>,
) -> nat {
    1 + expr_size(cond) + program_size(consequence, 0) + match alternative {
        Some(a) => program_size(a, 0),
        None => 0,
    }
}

/// The constant that an integer literal denotes: its value in 32 bits.
pub open spec fn int_literal(value: i64) -> Value {
    Value::ConstInt {
        ty: LLVMType::Int32,
        bits: crate::ir::const_value::truncated(LLVMType::Int32, (value as u64) as int),
    }
}

/// What the object that a name is bound to yields when the name is read:
/// where the object holds the address of a cell, the cell is loaded and the
/// result holds the loaded value; any other object is the result as it is.
pub open spec fn read(st: EvalView, object: ObjectView, name: Seq<char>) -> (EvalView, ObjectView) {
    if object.scalar() && st.lc.module.type_of(object.handle()) == LLVMType::Pointer {
        let (lc, value) = load(st.lc, object_type(object), object.handle(), name);
        (st.with(lc), rewrapped(object, value))
    } else {
        (st, object)
    }
}

/// What a prefix operator makes of the value of its operand.
pub open spec fn prefix(st: EvalView, op: Prefix, operand: ObjectView) -> (EvalView, ObjectView) {
    match op {
        Prefix::Plus => if operand is Integer {
            (st, operand)
        } else {
            (st, ObjectView::Error("the operand of + is not an integer"@))
        },
        Prefix::Minus => if operand is Integer {
            let (lc, value) = binary(
                st.lc,
                BinaryOp::Sub,
                Value::ConstInt { ty: LLVMType::Int32, bits: 0 },
                operand.handle(),
                Seq::empty(),
            );
            (st.with(lc), ObjectView::Integer(value))
        } else {
            (st, ObjectView::Error("the operand of - is not an integer"@))
        },
        Prefix::Not => if operand is Boolean {
            let (lc, value) = compare(
                st.lc,
                IntPredicate::Eq,
                operand.handle(),
                truth(false),
                Seq::empty(),
            );
            (st.with(lc), ObjectView::Boolean(value))
        } else {
            (st, ObjectView::Error("the operand of ! is not a boolean"@))
        },
    }
}

/// What an infix operator makes of the values of its operands.
pub open spec fn infix(st: EvalView, op: Infix, left: ObjectView, right: ObjectView) -> (
    EvalView,
    ObjectView,
) {
    match op {
        Infix::Plus | Infix::Minus => if left is Integer && right is Integer {
            let (lc, value) = binary(
                st.lc,
                if op == Infix::Plus {
                    BinaryOp::Add
                } else {
                    BinaryOp::Sub
                },
                left.handle(),
                right.handle(),
                Seq::empty(),
            );
            (st.with(lc), ObjectView::Integer(value))
        } else {
            (st, ObjectView::Error("the operands are not integers"@))
        },
        Infix::Equal | Infix::NotEqual => if left.scalar() && left.same_kind(right) {
            let (lc, value) = compare(
                st.lc,
                if op == Infix::Equal {
                    IntPredicate::Eq
                } else {
                    IntPredicate::Ne
                },
                left.handle(),
                right.handle(),
                Seq::empty(),
            );
            (st.with(lc), ObjectView::Boolean(value))
        } else {
            (st, ObjectView::Error("the operands are not of one kind"@))
        },
    }
}

/// Whether an object can be called.
pub open spec fn callable(callee: ObjectView) -> bool {
    callee is Function || callee is BuiltIn
}

/// What a call of `callee` on the values `args` yields.
pub open spec fn invoke(st: EvalView, callee: ObjectView, args: Seq<Value>) -> (
    EvalView,
    ObjectView,
) {
    match callee {
        ObjectView::Function { llvm_value, return_type, param_types, .. } => {
            if args.len() != param_types.len() {
                (st, ObjectView::Error("wrong number of arguments"@))
            } else if !(llvm_value is Function) || llvm_value->Function_index
                >= st.lc.module.functions.len() {
                (st, ObjectView::Error("the function is not in the module"@))
            } else {
                let (lc, value) = call(
                    st.lc,
                    st.lc.module.functions[llvm_value->Function_index as int].ty,
                    llvm_value,
                    args,
                    Seq::empty(),
                );
                (st.with(lc), wrapped(return_type, value))
            }
        },
        ObjectView::BuiltIn(BuiltIn::Printf) => {
            let index = first_named(st.lc.module, "printf"@, 0);
            if index >= st.lc.module.functions.len() {
                (st, ObjectView::Error("printf is not in the module"@))
            } else {
                let (lc, value) = call(
                    st.lc,
                    st.lc.module.functions[index].ty,
                    Value::Function { index: index as usize },
                    args,
                    Seq::empty(),
                );
                (st.with(lc), ObjectView::Null)
            }
        },
        ObjectView::BuiltIn(BuiltIn::Length) => (
            st,
            ObjectView::Error("length takes a sequence"@),
        ),
        _ => (st, ObjectView::Error("not a function"@)),
    }
}

/// The state after the function that is being generated has got a cell for
/// each of its parameters from number `i` on, and the bindings of the
/// parameters' names to those cells. The third part is an error where a
/// parameter is declared neither `Integer` nor `Boolean`.
pub open spec fn bind_params(
    st: EvalView,
    params: Seq<Seq<char>>,
    param_types: Seq<LLVMExpressionType>,
    env: Bindings,
    i: nat,
) -> (EvalView, Bindings, Option<ObjectView>)
    decreases params.len() - i,
{
    if i >= params.len() {
        (st, env, None)
    } else if param_types[i as int] != LLVMExpressionType::Integer && param_types[i as int]
        != LLVMExpressionType::Boolean {
        (st, env, Some(ObjectView::Error("a parameter is neither an integer nor a boolean"@)))
    } else if st.lc.current_function().registers.len() >= usize::MAX || i >= usize::MAX {
        (st, env, Some(ObjectView::Error("the function has too many values"@)))
    } else {
        let (lc1, cell) = alloca(st.lc, converted(param_types[i as int]), params[i as int]);
        let lc2 = store(
            lc1,
            Value::Param { function: st.lc.cursor.unwrap().function, index: i as usize },
            cell,
        );
        bind_params(
            st.with(lc2),
            params,
            param_types,
            env.insert(params[i as int], wrapped(param_types[i as int], cell)),
            i + 1,
        )
    }
}

/// The type of a declared function.
pub open spec fn declared_function_type(
    param_types: Seq<LLVMExpressionType>,
    return_type: LLVMExpressionType,
) -> FunctionTypeView {
    FunctionTypeView {
        return_type: converted(return_type),
        param_types: Seq::new(param_types.len(), |i: int| converted(param_types[i])),
        var_arg: false,
    }
}

/// The terminator of a function body that ends without a `return`: zero of
/// the declared type, or nothing for a type without values.
pub open spec fn default_return(return_type: LLVMExpressionType) -> Terminator {
    match return_type {
        LLVMExpressionType::Integer => Terminator::Ret {
            value: Value::ConstInt { ty: LLVMType::Int32, bits: 0 },
        },
        LLVMExpressionType::Boolean => Terminator::Ret {
            value: Value::ConstInt { ty: LLVMType::Int1, bits: 0 },
        },
        _ => Terminator::RetVoid,
    }
}

/// What the evaluation of an expression adds to the module, and the object
/// that it yields.
#[verifier::opaque]
pub open spec fn lower_expression(st: EvalView, expr: ExprView, env: Bindings) -> (EvalView, ObjectView)
    decreases expr_size(expr), 0nat,
{
    match expr {
        ExprView::Literal(Literal::Int(value)) => (st, ObjectView::Integer(int_literal(value))),
        ExprView::Literal(Literal::Bool(value)) => (st, ObjectView::Boolean(truth(value))),
        ExprView::Ident(name) => read(st, lookup(env, name), name),
        ExprView::Prefix(op, operand) => {
            let (s1, value) = lower_expression(st, *operand, env);
            if value is Error {
                (s1, value)
            } else {
                prefix(s1, op, value)
            }
        },
        ExprView::Infix(op, left, right) => {
            let (s1, a) = lower_expression(st, *left, env);
            if a is Error {
                (s1, a)
            } else {
                let (s2, b) = lower_expression(s1, *right, env);
                if b is Error {
                    (s2, b)
                } else {
                    infix(s2, op, a, b)
                }
            }
        },
        ExprView::If { cond, consequence, alternative } => {
            let (s1, result) = lower_conditional(st, *cond, consequence, alternative, env);
            (
                s1,
                match result {
                    Some(object) => object,
                    None => ObjectView::Null,
                },
            )
        },
        ExprView::Call { func, args } => {
            let (s1, callee) = lower_expression(st, *func, env);
            if callee is Error {
                (s1, callee)
            } else if !callable(callee) {
                (s1, ObjectView::Error("not a function"@))
            } else {
                let (s2, values, error) = lower_arguments(s1, args, env, 0, Seq::empty());
                match error {
                    Some(e) => (s2, e),
                    None => invoke(s2, callee, values),
                }
            }
        },
    }
}

/// What the evaluation of the arguments of a call from number `i` on adds
/// to the module, and their values behind `values`. The third part is the
/// error that ended the evaluation, if one did.
#[verifier::opaque]
pub open spec fn lower_arguments(
    st: EvalView,
    args: Seq<ExprView>,
    env: Bindings,
    i: nat,
    values: Seq<Value>,
) -> (EvalView, Seq<Value>, Option<ObjectView>)
    decreases exprs_size(args, i), 1nat,
{
    if i >= args.len() {
        (st, values, None)
    } else {
        let (s1, value) = lower_expression(st, args[i as int], env);
        if value is Error {
            (s1, values, Some(value))
        } else if !value.scalar() {
            (s1, values, Some(ObjectView::Error("an argument is not a value"@)))
        } else {
            lower_arguments(s1, args, env, i + 1, values.push(value.handle()))
        }
    }
}

/// The handle of the first (0), second (1) or third (2) block that a
/// conditional adds to the function at the cursor of `s`.
pub open spec fn branch_block(s: CreatorView, which: nat) -> BlockRef {
    BlockRef {
        function: s.cursor.unwrap().function,
        index: (s.current_function().blocks.len() + which) as usize,
    }
}

/// The state after a conditional has added its three blocks to the
/// function at the cursor, ended the cursor's block by a conditional branch
/// on `condition` to the first two, and moved the cursor to the first.
pub open spec fn branched(s: CreatorView, condition: Value) -> CreatorView {
    let f = s.cursor.unwrap().function as int;
    s.append_block(f, Seq::empty()).append_block(f, Seq::empty()).append_block(
        f,
        Seq::empty(),
    ).terminate(
        Terminator::CondBr {
            condition,
            then_block: branch_block(s, 0).index,
            else_block: branch_block(s, 1).index,
        },
    ).moved_to(branch_block(s, 0))
}

/// What a conditional hands up, given what its consequence and its
/// alternative have yielded (`Null` for a branch that has not returned, and
/// for an alternative that is not there): the object that the consequence
/// has returned, else the one that the alternative has returned, else
/// nothing.
pub open spec fn propagated(consequence: ObjectView, alternative: ObjectView) -> Option<
    ObjectView,
> {
    if !(consequence is Null) {
        Some(consequence)
    } else if !(alternative is Null) {
        Some(alternative)
    } else {
        None
    }
}

/// What a conditional adds to the module: the condition, then three new
/// blocks of the function that is being generated ("then", "else" and
/// "merge", in this order), a conditional branch to the first two, the
/// consequence in "then", the alternative in "else", each followed by a
/// branch to "merge" unless it has returned, and the cursor at "merge".
///
/// The result is an error where the condition or a branch yields one.
/// Otherwise it is what the branches hand up: the object that the
/// consequence returns; where the consequence does not return, the object
/// that the alternative returns; nothing where neither returns.
#[verifier::opaque]
pub open spec fn lower_conditional(
    st: EvalView,
    cond: ExprView,
    consequence: Seq<StmtView>,
    alternative: Option<Seq<StmtView>>,
    env: Bindings,
) -> (EvalView, Option<ObjectView>)
    decreases branches_size(cond, consequence, alternative), 0nat,
{
    let (s1, test) = lower_expression(st, cond, env);
    if test is Error {
        (s1, Some(test))
    } else if !(test is Boolean) {
        (s1, Some(ObjectView::Error("the condition is not a boolean"@)))
    } else if s1.lc.current_function().blocks.len() + 3 > usize::MAX {
        (s1, Some(ObjectView::Error("the function has too many blocks"@)))
    } else {
        let lc2 = branched(s1.lc, test.handle());
        let else_block = branch_block(s1.lc, 1);
        let merge_block = branch_block(s1.lc, 2);
        let (s3, _, r1) = lower_program(s1.with(lc2), consequence, env, 0);
        if r1 is Error {
            (s3, Some(r1))
        } else {
            let lc4 = if r1 is Null {
                s3.lc.terminate(Terminator::Br { target: merge_block.index })
            } else {
                s3.lc
            }.moved_to(else_block);
            let (s5, r2) = match alternative {
                Some(statements) => {
                    let (s, _, r) = lower_program(s3.with(lc4), statements, env, 0);
                    (s, r)
                },
                None => (s3.with(lc4), ObjectView::Null),
            };
            if r2 is Error {
                (s5, Some(r2))
            } else {
                let lc6 = if r2 is Null {
                    s5.lc.terminate(Terminator::Br { target: merge_block.index })
                } else {
                    s5.lc
                }.moved_to(merge_block);
                (
                    s5.with(lc6),
                    propagated(r1, r2),
                )
            }
        }
    }
}

/// What the statements of `statements` from number `i` on add to the
/// module, the bindings after them, and what they yield: `Null` where they
/// all run to the end, the returned object where one returns (the cursor's
/// block is then ended by a return of its value), an error where one
/// yields an error.
#[verifier::opaque]
pub open spec fn lower_program(st: EvalView, statements: Seq<StmtView>, env: Bindings, i: nat) -> (
    EvalView,
    Bindings,
    ObjectView,
)
    decreases program_size(statements, i), 1nat,
{
    if i >= statements.len() {
        (st, env, ObjectView::Null)
    } else {
        let (s1, env1, result) = lower_statement(st, statements[i as int], env);
        match result {
            Some(object) => if object is Error {
                (s1, env1, object)
            } else {
                (
                    s1.with(s1.lc.terminate(Terminator::Ret { value: object.handle() })),
                    env1,
                    object,
                )
            },
            None => lower_program(s1, statements, env1, i + 1),
        }
    }
}

/// What a `let` adds to the module and to the bindings, given the object
/// that its initialiser has yielded: a scalar gets a cell of its own, and
/// the name is bound to the cell; an object without a handle is bound as
/// it is, unless the declared type asks for a scalar.
pub open spec fn bind(
    st: EvalView,
    name: Seq<char>,
    value: ObjectView,
    declared: LLVMExpressionType,
    env: Bindings,
) -> (EvalView, Bindings, Option<ObjectView>) {
    if value is Error {
        (st, env, Some(value))
    } else if (declared == LLVMExpressionType::Integer && !(value is Integer)) || (declared
        == LLVMExpressionType::Boolean && !(value is Boolean)) {
        (st, env, Some(ObjectView::Error("the value is not of the declared type"@)))
    } else if value.scalar() {
        if st.lc.current_function().registers.len() >= usize::MAX {
            (st, env, Some(ObjectView::Error("the function has too many values"@)))
        } else {
            let (lc1, cell) = alloca(st.lc, object_type(value), name);
            let lc2 = store(lc1, value.handle(), cell);
            (st.with(lc2), env.insert(name, rewrapped(value, cell)), None)
        }
    } else {
        (st, env.insert(name, value), None)
    }
}

/// Whether a name can be assigned to: it is bound to a scalar that holds
/// the address of a cell.
pub open spec fn assignable(st: EvalView, target: ObjectView) -> bool {
    target.scalar() && st.lc.module.type_of(target.handle()) == LLVMType::Pointer
}

/// What one statement adds to the module and to the bindings. The third
/// part is the object that a `return` hands up, or an error; nothing for a
/// statement after which the next one runs.
#[verifier::opaque]
pub open spec fn lower_statement(st: EvalView, stmt: StmtView, env: Bindings) -> (
    EvalView,
    Bindings,
    Option<ObjectView>,
)
    decreases stmt_size(stmt), 0nat,
{
    match stmt {
        StmtView::Let(name, init, declared) => {
            let (s1, value) = lower_expression(st, init, env);
            bind(s1, name, value, declared, env)
        },
        StmtView::Assignment(name, init) => {
            let target = lookup(env, name);
            if target is Error {
                (st, env, Some(target))
            } else if !assignable(st, target) {
                (st, env, Some(ObjectView::Error("the name is not bound to storage"@)))
            } else {
                let (s1, value) = lower_expression(st, init, env);
                if value is Error {
                    (s1, env, Some(value))
                } else if !value.same_kind(target) {
                    (s1, env, Some(ObjectView::Error("the value is not of the kind of the name"@)))
                } else {
                    (s1.with(store(s1.lc, value.handle(), target.handle())), env, None)
                }
            }
        },
        StmtView::Return(value) => {
            let (s1, object) = lower_expression(st, value, env);
            if object is Error || object.scalar() {
                (s1, env, Some(object))
            } else {
                (s1, env, Some(ObjectView::Error("the returned object is not a value"@)))
            }
        },
        StmtView::Expr(expr) => match expr {
            ExprView::If { cond, consequence, alternative } => {
                let (s1, result) = lower_conditional(st, *cond, consequence, alternative, env);
                (s1, env, result)
            },
            _ => {
                let (s1, object) = lower_expression(st, expr, env);
                (
                    s1,
                    env,
                    if object is Error {
                        Some(object)
                    } else {
                        None
                    },
                )
            },
        },
        StmtView::Func { name, params, param_types, return_type, body, .. } => {
            if params.len() != param_types.len() {
                (st, env, Some(ObjectView::Error("a parameter has no type"@)))
            } else if st.lc.module.functions.len() >= usize::MAX {
                (st, env, Some(ObjectView::Error("the module has too many functions"@)))
            } else {
                let f = Value::Function { index: st.lc.module.functions.len() as usize };
                let entered = EvalView {
                    lc: with_new_function(
                        st.lc,
                        declared_function_type(param_types, return_type),
                        name,
                    ),
                    stack: st.stack.push(f),
                    ..st
                };
                let (s2, inner, error) = bind_params(entered, params, param_types, built_ins(), 0);
                match error {
                    Some(e) => (s2, env, Some(e)),
                    None => {
                        let (s3, _, result) = lower_program(s2, body, inner, 0);
                        if result is Error {
                            (s3, env, Some(result))
                        } else {
                            let lc4 = if result is Null {
                                s3.lc.terminate(default_return(return_type))
                            } else {
                                s3.lc
                            };
                            (
                                EvalView {
                                    lc: CreatorView { cursor: st.lc.cursor, ..lc4 },
                                    stack: s3.stack.drop_last(),
                                    ..s3
                                },
                                env.insert(
                                    name,
                                    ObjectView::Function {
                                        name,
                                        llvm_value: f,
                                        return_type,
                                        param_types,
                                    },
                                ),
                                None,
                            )
                        }
                    },
                }
            }
        },
        StmtView::Blank => (st, env, None),
    }
}

/// The state in which a conditional lowers its consequence: the condition
/// is lowered, the three blocks are added, and the cursor stands at "then".
pub open spec fn at_consequence(st: EvalView, cond: ExprView, env: Bindings) -> EvalView {
    let (s1, test) = lower_expression(st, cond, env);
    s1.with(branched(s1.lc, test.handle()))
}

/// Whether a conditional gets as far as its branches: the condition
/// yields a boolean, and the function has room for three more blocks.
pub open spec fn branches(st: EvalView, cond: ExprView, env: Bindings) -> bool {
    let (s1, test) = lower_expression(st, cond, env);
    test is Boolean && s1.lc.current_function().blocks.len() + 3 <= usize::MAX
}

/// The state in which a conditional lowers its alternative: the
/// consequence is lowered and, unless it has returned, followed by a branch
/// to "merge", and the cursor stands at "else".
pub open spec fn at_alternative(
    st: EvalView,
    cond: ExprView,
    consequence: Seq<StmtView>,
    env: Bindings,
) -> EvalView {
    let s1 = lower_expression(st, cond, env).0;
    let (s3, _, r1) = lower_program(at_consequence(st, cond, env), consequence, env, 0);
    s3.with(
        if r1 is Null {
            s3.lc.terminate(Terminator::Br { target: branch_block(s1.lc, 2).index })
        } else {
            s3.lc
        }.moved_to(branch_block(s1.lc, 1)),
    )
}

/// Whether a statement binds `name`: it is a `let` of that name or the
/// declaration of a function of that name.
pub open spec fn binds(stmt: StmtView, name: Seq<char>) -> bool {
    match stmt {
        StmtView::Let(bound, _, _) => bound == name,
        StmtView::Func { name: bound, .. } => bound == name,
        _ => false,
    }
}

/// The state and the bindings in front of statement number `j`, when the
/// statements from number `i` on are lowered; `None` where a statement
/// before number `j` returns or yields an error.
pub open spec fn before_statement(
    st: EvalView,
    statements: Seq<StmtView>,
    env: Bindings,
    i: nat,
    j: nat,
) -> Option<(EvalView, Bindings)>
    decreases j - i,
{
    if i >= j {
        Some((st, env))
    } else if i >= statements.len() {
        None
    } else {
        let (s1, env1, result) = lower_statement(st, statements[i as int], env);
        if result is Some {
            None
        } else {
            before_statement(s1, statements, env1, i + 1, j)
        }
    }
}

/// What a whole program adds to the module: its statements, and a return
/// of zero where they run to the end.
pub open spec fn entry_program(st: EvalView, statements: Seq<StmtView>, env: Bindings) -> (
    EvalView,
    Bindings,
    ObjectView,
) {
    let (s1, env1, result) = lower_program(st, statements, env, 0);
    if result is Null {
        (
            s1.with(
                s1.lc.terminate(
                    Terminator::Ret { value: Value::ConstInt { ty: LLVMType::Int32, bits: 0 } },
                ),
            ),
            env1,
            result,
        )
    } else {
        (s1, env1, result)
    }
}

/// Each statement of a list is smaller than the list from any earlier
/// position on.
pub proof fn lemma_program_size(p: Seq<StmtView>, i: nat, j: nat)
    requires
        i <= j < p.len(),
    ensures
        stmt_size(p[j as int]) < program_size(p, i),
    decreases j - i,
{
    if i < j {
        lemma_program_size(p, i + 1, j);
    }
}

/// Each expression of a list is smaller than the list from any earlier
/// position on.
pub proof fn lemma_exprs_size(p: Seq<ExprView>, i: nat, j: nat)
    requires
        i <= j < p.len(),
    ensures
        expr_size(p[j as int]) < exprs_size(p, i),
    decreases j - i,
{
    if i < j {
        lemma_exprs_size(p, i + 1, j);
    }
}

} // verus!
