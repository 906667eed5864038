//! The lowering rules keep the module well formed: each rule generates code
//! at the cursor alone, and leaves every block that it adds finished.
use vstd::prelude::*;
use crate::codegen::environment::{Bindings, built_ins, lookup};
use crate::codegen::lowering::{
    EvalView, at_alternative, at_consequence, bind, bind_params, branches, branch_block,
    branches_size, callable, declared_function_type, default_return, entry_program, expr_size,
    exprs_size, infix, invoke, lower_arguments, lower_conditional, lower_expression, lower_program,
    lower_statement, prefix, program_size, read, stmt_size,
};
use crate::codegen::object::{BuiltIn, ObjectView};
use crate::codegen::shape::{
    advanced, complete, complete_but_cursor, finished, forked, lemma_advanced_self,
    lemma_advanced_trans, lemma_complete, lemma_extends_binary, lemma_extends_call,
    lemma_extends_cell, lemma_extends_compare, lemma_extends_load, lemma_extends_self,
    lemma_extends_store, lemma_extends_trans, lemma_finished_terminate, lemma_fork_join,
    lemma_fork_stage, lemma_fork_start, lemma_nested, ready,
};

use crate::ir::condition::truth;
use crate::ir::converter::{converted, object_type, wrapped};
use crate::ir::creator::{BinaryOp, IntPredicate, Terminator, Value};
use crate::ir::function::{call, first_named, with_new_function};
use crate::ir::llvm_type::LLVMType;
use crate::ir::operate::{alloca, store};
use crate::parser::ast::{ExprView, Infix, LLVMExpressionType, Literal, Prefix, StmtView};

verus! {

/// That a statement has handed up nothing, a value, or an error.
pub open spec fn handed_up(result: Option<ObjectView>) -> bool {
    match result {
        Some(object) => object.scalar() || object is Error,
        None => true,
    }
}

/// Whether a statement has yielded an error.
pub open spec fn failed(result: Option<ObjectView>) -> bool {
    result is Some && result.unwrap() is Error
}

/// Reading a name generates code at the cursor alone and keeps the kind of
/// the object.
pub proof fn lemma_read(st: EvalView, object: ObjectView, name: Seq<char>)
    requires
        ready(st),
    ensures
        advanced(st, read(st, object, name).0),
        read(st, object, name).1.same_kind(object),
{
    lemma_advanced_self(st);
    if object.scalar() && st.lc.module.type_of(object.handle()) == LLVMType::Pointer {
        lemma_extends_load(st.lc, object_type(object), object.handle(), name);
    }
}

/// A prefix operator generates code at the cursor alone.
pub proof fn lemma_prefix(st: EvalView, op: Prefix, operand: ObjectView)
    requires
        ready(st),
    ensures
        advanced(st, prefix(st, op, operand).0),
{
    lemma_advanced_self(st);
    lemma_extends_binary(
        st.lc,
        BinaryOp::Sub,
        Value::ConstInt { ty: LLVMType::Int32, bits: 0 },
        operand.handle(),
        Seq::empty(),
    );
    lemma_extends_compare(st.lc, IntPredicate::Eq, operand.handle(), truth(false), Seq::empty());
}

/// An infix operator generates code at the cursor alone.
pub proof fn lemma_infix(st: EvalView, op: Infix, left: ObjectView, right: ObjectView)
    requires
        ready(st),
    ensures
        advanced(st, infix(st, op, left, right).0),
{
    lemma_advanced_self(st);
    lemma_extends_binary(st.lc, BinaryOp::Add, left.handle(), right.handle(), Seq::empty());
    lemma_extends_binary(st.lc, BinaryOp::Sub, left.handle(), right.handle(), Seq::empty());
    lemma_extends_compare(st.lc, IntPredicate::Eq, left.handle(), right.handle(), Seq::empty());
    lemma_extends_compare(st.lc, IntPredicate::Ne, left.handle(), right.handle(), Seq::empty());
}

/// A call generates code at the cursor alone.
pub proof fn lemma_invoke(st: EvalView, callee: ObjectView, args: Seq<Value>)
    requires
        ready(st),
    ensures
        advanced(st, invoke(st, callee, args).0),
{
    lemma_advanced_self(st);
    match callee {
        ObjectView::Function { llvm_value, return_type, param_types, .. } => {
            if args.len() == param_types.len() && llvm_value is Function
                && llvm_value->Function_index < st.lc.module.functions.len() {
                lemma_extends_call(
                    st.lc,
                    st.lc.module.functions[llvm_value->Function_index as int].ty,
                    llvm_value,
                    args,
                    Seq::empty(),
                );
            }
        },
        ObjectView::BuiltIn(BuiltIn::Printf) => {
            let index = first_named(st.lc.module, "printf"@, 0);
            if index < st.lc.module.functions.len() {
                lemma_extends_call(
                    st.lc,
                    st.lc.module.functions[index].ty,
                    Value::Function { index: index as usize },
                    args,
                    Seq::empty(),
                );
            }
        },
        _ => {},
    }
}

/// A binding generates code at the cursor alone, and hands up nothing but
/// an error.
pub proof fn lemma_bind(
    st: EvalView,
    name: Seq<char>,
    value: ObjectView,
    declared: LLVMExpressionType,
    env: Bindings,
)
    requires
        ready(st),
    ensures
        bind(st, name, value, declared, env).2 is None ==> advanced(
            st,
            bind(st, name, value, declared, env).0,
        ),
        bind(st, name, value, declared, env).2 matches Some(e) ==> e is Error,
{
    lemma_advanced_self(st);
    if value.scalar() {
        lemma_extends_cell(st.lc, object_type(value), name, value.handle());
    }
}

/// The cells of the parameters are generated at the cursor alone.
pub proof fn lemma_bind_params(
    st: EvalView,
    params: Seq<Seq<char>>,
    param_types: Seq<LLVMExpressionType>,
    env: Bindings,
    i: nat,
)
    requires
        ready(st),
    ensures
        bind_params(st, params, param_types, env, i).2 is None ==> advanced(
            st,
            bind_params(st, params, param_types, env, i).0,
        ),
        bind_params(st, params, param_types, env, i).2 matches Some(e) ==> e is Error,
    decreases params.len() - i,
{
    lemma_advanced_self(st);
    if i < params.len() && (param_types[i as int] == LLVMExpressionType::Integer
        || param_types[i as int] == LLVMExpressionType::Boolean) && !(
    st.lc.current_function().registers.len() >= usize::MAX || i >= usize::MAX) {
        let ty = converted(param_types[i as int]);
        let (after, cell) = alloca(st.lc, ty, params[i as int]);
        let value = Value::Param { function: st.lc.cursor.unwrap().function, index: i as usize };
        lemma_extends_cell(st.lc, ty, params[i as int], value);
        let next = st.with(store(after, value, cell));
        let env1 = env.insert(params[i as int], wrapped(param_types[i as int], cell));
        lemma_bind_params(next, params, param_types, env1, i + 1);
        if bind_params(st, params, param_types, env, i).2 is None {
            lemma_advanced_trans(st, next, bind_params(next, params, param_types, env1, i + 1).0);
        }
    }
}

/// An expression that yields no error has generated its code at the
/// cursor alone, and the evaluator can go on.
pub proof fn lemma_expression(st: EvalView, expr: ExprView, env: Bindings)
    requires
        ready(st),
    ensures
        !(lower_expression(st, expr, env).1 is Error) ==> advanced(
            st,
            lower_expression(st, expr, env).0,
        ),
    decreases expr_size(expr), 0nat,
{
    reveal(lower_expression);
    reveal(lower_conditional);
    reveal(lower_arguments);
    lemma_advanced_self(st);
    match expr {
        ExprView::Literal(_) => {},
        ExprView::Ident(name) => {
            lemma_read(st, lookup(env, name), name);
        },
        ExprView::Prefix(op, operand) => {
            lemma_expression(st, *operand, env);
            let (s1, value) = lower_expression(st, *operand, env);
            if !(value is Error) {
                lemma_prefix(s1, op, value);
                lemma_advanced_trans(st, s1, prefix(s1, op, value).0);
            }
        },
        ExprView::Infix(op, left, right) => {
            lemma_expression(st, *left, env);
            let (s1, a) = lower_expression(st, *left, env);
            if !(a is Error) {
                lemma_expression(s1, *right, env);
                let (s2, b) = lower_expression(s1, *right, env);
                if !(b is Error) {
                    lemma_infix(s2, op, a, b);
                    lemma_advanced_trans(st, s1, s2);
                    lemma_advanced_trans(st, s2, infix(s2, op, a, b).0);
                }
            }
        },
        ExprView::If { cond, consequence, alternative } => {
            lemma_conditional(st, *cond, consequence, alternative, env);
        },
        ExprView::Call { func, args } => {
            lemma_expression(st, *func, env);
            let (s1, callee) = lower_expression(st, *func, env);
            if !(callee is Error) && callable(callee) {
                lemma_arguments(s1, args, env, 0, Seq::empty());
                let (s2, values, error) = lower_arguments(s1, args, env, 0, Seq::empty());
                if error is None {
                    lemma_invoke(s2, callee, values);
                    lemma_advanced_trans(st, s1, s2);
                    lemma_advanced_trans(st, s2, invoke(s2, callee, values).0);
                }
            }
        },
    }
}

/// Arguments that yield no error have generated their code at the cursor
/// alone.
pub proof fn lemma_arguments(
    st: EvalView,
    args: Seq<ExprView>,
    env: Bindings,
    i: nat,
    values: Seq<Value>,
)
    requires
        ready(st),
    ensures
        lower_arguments(st, args, env, i, values).2 is None ==> advanced(
            st,
            lower_arguments(st, args, env, i, values).0,
        ),
        lower_arguments(st, args, env, i, values).2 matches Some(e) ==> e is Error,
    decreases exprs_size(args, i), 1nat,
{
    reveal(lower_arguments);
    reveal(lower_expression);
    lemma_advanced_self(st);
    if i < args.len() {
        lemma_expression(st, args[i as int], env);
        let (s1, value) = lower_expression(st, args[i as int], env);
        if !(value is Error) && value.scalar() {
            lemma_arguments(s1, args, env, i + 1, values.push(value.handle()));
            if lower_arguments(st, args, env, i, values).2 is None {
                lemma_advanced_trans(
                    st,
                    s1,
                    lower_arguments(s1, args, env, i + 1, values.push(value.handle())).0,
                );
            }
        }
    }
}

/// Where a conditional gets as far as its branches, the evaluator is ready
/// to lower the consequence at "then".
pub proof fn lemma_consequence_ready(st: EvalView, cond: ExprView, env: Bindings)
    requires
        ready(st),
        branches(st, cond, env),
    ensures
        ready(at_consequence(st, cond, env)),
        forked(
            lower_expression(st, cond, env).0.lc,
            at_consequence(st, cond, env).lc,
            (lower_expression(st, cond, env).0.lc.current_function().blocks.len() + 1) as int,
        ),
        advanced(st, lower_expression(st, cond, env).0),
    decreases expr_size(cond), 1nat,
{
    lemma_expression(st, cond, env);
    let (s1, test) = lower_expression(st, cond, env);
    lemma_fork_start(s1.lc, test.handle());
}

/// Where the consequence of a conditional yields no error, the evaluator is
/// ready to lower the alternative at "else".
pub proof fn lemma_alternative_ready(
    st: EvalView,
    cond: ExprView,
    consequence: Seq<StmtView>,
    env: Bindings,
)
    requires
        ready(st),
        branches(st, cond, env),
        !(lower_program(at_consequence(st, cond, env), consequence, env, 0).2 is Error),
    ensures
        ready(at_alternative(st, cond, consequence, env)),
        forked(
            lower_expression(st, cond, env).0.lc,
            at_alternative(st, cond, consequence, env).lc,
            (lower_expression(st, cond, env).0.lc.current_function().blocks.len() + 2) as int,
        ),
    decreases branches_size(cond, consequence, None), 0nat,
{
    lemma_consequence_ready(st, cond, env);
    let s1 = lower_expression(st, cond, env).0;
    let n = s1.lc.current_function().blocks.len() as int;
    let s2 = at_consequence(st, cond, env);
    lemma_program(s2, consequence, env, 0);
    let s3 = lower_program(s2, consequence, env, 0).0;
    lemma_fork_stage(s1.lc, s2.lc, s3.lc, n + 1, branch_block(s1.lc, 2).index);
}

/// A conditional that yields no error has generated its code at the cursor
/// alone, has finished every block that it has added but the one at the
/// cursor, and hands up nothing or a value.
pub proof fn lemma_conditional(
    st: EvalView,
    cond: ExprView,
    consequence: Seq<StmtView>,
    alternative: Option<Seq<StmtView>>,
    env: Bindings,
)
    requires
        ready(st),
    ensures
        !failed(lower_conditional(st, cond, consequence, alternative, env).1) ==> advanced(
            st,
            lower_conditional(st, cond, consequence, alternative, env).0,
        ),
        handed_up(lower_conditional(st, cond, consequence, alternative, env).1),
    decreases branches_size(cond, consequence, alternative), 1nat,
{
    reveal(lower_conditional);
    reveal(lower_expression);
    reveal(lower_program);
    lemma_expression(st, cond, env);
    let s1 = lower_expression(st, cond, env).0;
    if branches(st, cond, env) {
        let n = s1.lc.current_function().blocks.len() as int;
        let s2 = at_consequence(st, cond, env);
        lemma_consequence_ready(st, cond, env);
        lemma_program(s2, consequence, env, 0);
        let r1 = lower_program(s2, consequence, env, 0).2;
        if !(r1 is Error) {
            lemma_alternative_ready(st, cond, consequence, env);
            let s4 = at_alternative(st, cond, consequence, env);
            lemma_extends_self(s4.lc);
            let (s5, r2) = match alternative {
                Some(statements) => {
                    let (s, _, r) = lower_program(s4, statements, env, 0);
                    (s, r)
                },
                None => (s4, ObjectView::Null),
            };
            match alternative {
                Some(statements) => {
                    lemma_program(s4, statements, env, 0);
                },
                None => {},
            }
            if !(r2 is Error) {
                lemma_fork_stage(s1.lc, s4.lc, s5.lc, n + 2, branch_block(s1.lc, 2).index);
                let s6 = lower_conditional(st, cond, consequence, alternative, env).0;
                lemma_fork_join(s1.lc, s6.lc);
                lemma_extends_trans(st.lc, s1.lc, s6.lc);
            }
        }
    }
}

/// A statement list that yields no error has generated its code at the
/// cursor alone; the cursor's block is finished exactly where a statement
/// has returned.
pub proof fn lemma_program(st: EvalView, statements: Seq<StmtView>, env: Bindings, i: nat)
    requires
        ready(st),
    ensures
        lower_program(st, statements, env, i).2 is Null ==> advanced(
            st,
            lower_program(st, statements, env, i).0,
        ),
        lower_program(st, statements, env, i).2.scalar() ==> finished(
            st,
            lower_program(st, statements, env, i).0,
        ),
        lower_program(st, statements, env, i).2 is Null || lower_program(
            st,
            statements,
            env,
            i,
        ).2.scalar() || lower_program(st, statements, env, i).2 is Error,
    decreases program_size(statements, i), 1nat,
{
    reveal(lower_program);
    reveal(lower_statement);
    lemma_advanced_self(st);
    if i < statements.len() {
        lemma_statement(st, statements[i as int], env);
        let (s1, env1, result) = lower_statement(st, statements[i as int], env);
        match result {
            Some(object) => {
                if !(object is Error) {
                    lemma_finished_terminate(
                        st,
                        s1,
                        Terminator::Ret { value: object.handle() },
                    );
                }
            },
            None => {
                lemma_program(s1, statements, env1, i + 1);
                let (s2, _, r) = lower_program(s1, statements, env1, i + 1);
                if r is Null {
                    lemma_advanced_trans(st, s1, s2);
                }
                if r.scalar() {
                    lemma_extends_trans(st.lc, s1.lc, s2.lc);
                }
            },
        }
    }
}

/// A statement that yields no error has generated its code at the cursor
/// alone, and hands up nothing or a value.
pub proof fn lemma_statement(st: EvalView, stmt: StmtView, env: Bindings)
    requires
        ready(st),
    ensures
        !failed(lower_statement(st, stmt, env).2) ==> advanced(
            st,
            lower_statement(st, stmt, env).0,
        ),
        handed_up(lower_statement(st, stmt, env).2),
    decreases stmt_size(stmt), 0nat,
{
    reveal(lower_statement);
    reveal(lower_expression);
    reveal(lower_conditional);
    reveal(lower_program);
    lemma_advanced_self(st);
    match stmt {
        StmtView::Let(name, init, declared) => {
            lemma_expression(st, init, env);
            let (s1, value) = lower_expression(st, init, env);
            if !(value is Error) {
                lemma_bind(s1, name, value, declared, env);
                if bind(s1, name, value, declared, env).2 is None {
                    lemma_advanced_trans(st, s1, bind(s1, name, value, declared, env).0);
                }
            }
        },
        StmtView::Assignment(name, init) => {
            let target = lookup(env, name);
            lemma_expression(st, init, env);
            let (s1, value) = lower_expression(st, init, env);
            if !(value is Error) {
                lemma_extends_store(s1.lc, value.handle(), target.handle());
                lemma_extends_trans(
                    st.lc,
                    s1.lc,
                    store(s1.lc, value.handle(), target.handle()),
                );
            }
        },
        StmtView::Return(value) => {
            lemma_expression(st, value, env);
        },
        StmtView::Expr(expr) => match expr {
            ExprView::If { cond, consequence, alternative } => {
                lemma_conditional(st, *cond, consequence, alternative, env);
            },
            _ => {
                lemma_expression(st, expr, env);
            },
        },
        StmtView::Func { name, params, param_types, return_type, body, .. } => {
            if params.len() == param_types.len() && !(st.lc.module.functions.len()
                >= usize::MAX) {
                let f = Value::Function { index: st.lc.module.functions.len() as usize };
                let entered = EvalView {
                    lc: with_new_function(
                        st.lc,
                        declared_function_type(param_types, return_type),
                        name,
                    ),
                    stack: st.stack.push(f),
                    ..st
                };
                lemma_bind_params(entered, params, param_types, built_ins(), 0);
                let (s2, inner, error) = bind_params(entered, params, param_types, built_ins(), 0);
                if error is None {
                    lemma_program(s2, body, inner, 0);
                    let (s3, _, result) = lower_program(s2, body, inner, 0);
                    if !(result is Error) {
                        lemma_extends_trans(entered.lc, s2.lc, s3.lc);
                        let lc4 = if result is Null {
                            s3.lc.terminate(default_return(return_type))
                        } else {
                            s3.lc
                        };
                        if result is Null {
                            lemma_finished_terminate(entered, s3, default_return(return_type));
                        }
                        lemma_nested(
                            st.lc,
                            declared_function_type(param_types, return_type),
                            name,
                            lc4,
                        );
                        assert(s3.stack.drop_last() =~= st.stack);
                    }
                }
            }
        },
        StmtView::Blank => {},
    }
}

/// A whole program that yields no error leaves the cursor's block finished;
/// where every other block was finished before, the module is complete.
pub proof fn lemma_entry_program(st: EvalView, statements: Seq<StmtView>, env: Bindings)
    requires
        ready(st),
    ensures
        !(entry_program(st, statements, env).2 is Error) ==> finished(
            st,
            entry_program(st, statements, env).0,
        ),
        !(entry_program(st, statements, env).2 is Error) && complete_but_cursor(st.lc)
            ==> complete(entry_program(st, statements, env).0.lc.module),
{
    lemma_program(st, statements, env, 0);
    let (s1, _, result) = lower_program(st, statements, env, 0);
    if result is Null {
        lemma_finished_terminate(
            st,
            s1,
            Terminator::Ret { value: Value::ConstInt { ty: LLVMType::Int32, bits: 0 } },
        );
    }
    if !(result is Error) && complete_but_cursor(st.lc) {
        lemma_complete(st.lc, entry_program(st, statements, env).0.lc);
    }
}

} // verus!
