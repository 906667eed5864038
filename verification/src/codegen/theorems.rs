//! What holds of every program that the evaluator lowers.
use vstd::prelude::*;
use crate::codegen::environment::{Bindings, lookup, not_found};
use crate::codegen::lowering::{
    EvalView, at_alternative, at_consequence, before_statement, binds, branch_block, branches,
    lower_conditional, lower_expression, lower_program, lower_statement, propagated, read,
};
use crate::codegen::object::ObjectView;
use crate::codegen::shape::{
    advanced, extends, lemma_extends_alloca, lemma_extends_store, lemma_fork_close,
    lemma_fork_extends, lemma_fork_next, lemma_fork_start, ready,
};
use crate::codegen::soundness::{failed, lemma_expression, lemma_program};
use crate::ir::condition::signed;
use crate::ir::const_value::truncated;
use crate::ir::creator::{BlockView, CreatorView, Instruction, Terminator, Value};
use crate::ir::llvm_type::LLVMType;
use crate::ir::machine::{Outcome, apply, operand, run, run_block};
use crate::ir::operate::{alloca, load, store};
use crate::parser::ast::{ExprView, LLVMExpressionType, Literal, StmtView};

verus! {

/// The bits of the 32-bit constant with the value `n`: `n` itself where it
/// is not negative, `n + 2^32` where it is.
pub open spec fn bits_of(n: i64) -> u64 {
    if n >= 0 {
        n as u64
    } else {
        (n + 0x1_0000_0000) as u64
    }
}

/// An integer literal that fits in 32 bits, read with or without a sign,
/// lowers to an `Integer` that holds the constant with the literal's
/// value, and adds nothing to the module. The value of the constant is the
/// literal's: as an unsigned number where the literal is not negative, as
/// a signed number where it is below 2^31.
pub proof fn theorem_integer_literal(st: EvalView, n: i64, env: Bindings)
    requires
        -0x8000_0000 <= n < 0x1_0000_0000,
    ensures
        lower_expression(st, ExprView::Literal(Literal::Int(n)), env) == (
            st,
            ObjectView::Integer(Value::ConstInt { ty: LLVMType::Int32, bits: bits_of(n) }),
        ),
        n >= 0 ==> truncated(LLVMType::Int32, bits_of(n) as int) == n,
        n < 0x8000_0000 ==> signed(LLVMType::Int32, truncated(LLVMType::Int32, bits_of(n) as int) as int)
            == n,
{
    reveal(lower_expression);
    if n < 0 {
        assert((n as u64) % 0x1_0000_0000u64 == (n + 0x1_0000_0000) as u64) by (bit_vector)
            requires
                -0x8000_0000 <= n < 0,
        ;
    }
}

/// The lookup of a name that is not bound yields an error whose message
/// starts with the name.
pub proof fn theorem_unbound_name(bindings: Bindings, name: Seq<char>)
    requires
        !bindings.contains_key(name),
    ensures
        lookup(bindings, name) == ObjectView::Error(not_found(name)),
        not_found(name).len() >= name.len(),
        not_found(name).subrange(0, name.len() as int) == name,
{
    assert(not_found(name).subrange(0, name.len() as int) =~= name);
}

/// A conditional leaves the bindings as they were: what a branch binds is
/// not bound behind the conditional.
pub proof fn theorem_branch_bindings_end(
    st: EvalView,
    cond: ExprView,
    consequence: Seq<StmtView>,
    alternative: Option<Seq<StmtView>>,
    env: Bindings,
)
    ensures
        lower_statement(
            st,
            StmtView::Expr(ExprView::If { cond: Box::new(cond), consequence, alternative }),
            env,
        ).1 == env,
{
    reveal(lower_statement);
    reveal(lower_conditional);
}

/// An assignment that yields no error writes the value of its expression
/// to the cell that the name is bound to, and binds nothing. Inside a
/// branch the name is bound as before the conditional, so the write goes
/// to the very cell that is read behind the conditional.
pub proof fn theorem_assignment_writes_binding(
    st: EvalView,
    name: Seq<char>,
    value: ExprView,
    env: Bindings,
)
    requires
        ready(st),
        lower_statement(st, StmtView::Assignment(name, value), env).2 is None,
    ensures
        env.contains_key(name),
        lower_statement(st, StmtView::Assignment(name, value), env).1 == env,
        lower_statement(st, StmtView::Assignment(name, value), env).0.lc.current_block().instructions
            == lower_expression(st, value, env).0.lc.current_block().instructions.push(
            Instruction::Store {
                value: lower_expression(st, value, env).1.handle(),
                target: env[name].handle(),
            },
        ),
{
    reveal(lower_statement);
    reveal(lower_expression);
    lemma_expression(st, value, env);
}

/// Statements that do not bind a name leave the name bound as it was,
/// and leave the evaluator ready for the next statement.
pub proof fn lemma_before_statement(
    st: EvalView,
    statements: Seq<StmtView>,
    env: Bindings,
    i: nat,
    j: nat,
    name: Seq<char>,
)
    requires
        ready(st),
        i <= j <= statements.len(),
        forall|k: int| i <= k < j ==> !binds(#[trigger] statements[k], name),
        before_statement(st, statements, env, i, j) is Some,
    ensures
        ready(before_statement(st, statements, env, i, j).unwrap().0),
        advanced(st, before_statement(st, statements, env, i, j).unwrap().0),
        lookup(before_statement(st, statements, env, i, j).unwrap().1, name) == lookup(env, name),
        before_statement(st, statements, env, i, j).unwrap().1.contains_key(name)
            == env.contains_key(name),
    decreases j - i,
{
    crate::codegen::shape::lemma_advanced_self(st);
    if i < j {
        reveal(lower_statement);
        reveal(lower_expression);
        reveal(lower_conditional);
        reveal(lower_program);
        crate::codegen::soundness::lemma_statement(st, statements[i as int], env);
        let (s1, env1, result) = lower_statement(st, statements[i as int], env);
        assert(!binds(statements[i as int], name));
        assert(lookup(env1, name) == lookup(env, name));
        assert(env1.contains_key(name) == env.contains_key(name));
        lemma_before_statement(s1, statements, env1, i + 1, j, name);
        crate::codegen::shape::lemma_advanced_trans(
            st,
            s1,
            before_statement(s1, statements, env1, i + 1, j).unwrap().0,
        );
    }
}

/// An assignment anywhere in a statement list, behind statements that do
/// not bind its name, writes to the cell that the name was bound to in
/// front of the list. For the consequence of a conditional, take the state
/// `at_consequence` and the bindings of the conditional; for the
/// alternative, the state `at_alternative`: the write in the branch goes
/// to the cell that the name has behind the conditional.
pub proof fn theorem_assignment_in_statements(
    st: EvalView,
    statements: Seq<StmtView>,
    env: Bindings,
    j: nat,
    name: Seq<char>,
    value: ExprView,
)
    requires
        ready(st),
        j < statements.len(),
        statements[j as int] == StmtView::Assignment(name, value),
        forall|k: int| 0 <= k < j ==> !binds(#[trigger] statements[k], name),
        before_statement(st, statements, env, 0, j) is Some,
        ({
            let (sj, envj) = before_statement(st, statements, env, 0, j).unwrap();
            lower_statement(sj, statements[j as int], envj).2 is None
        }),
    ensures
        ({
            let (sj, envj) = before_statement(st, statements, env, 0, j).unwrap();
            let (s, after, _) = lower_statement(sj, statements[j as int], envj);
            let (se, object) = lower_expression(sj, value, envj);
            &&& env.contains_key(name)
            &&& lookup(after, name) == env[name]
            &&& s.lc.cursor.unwrap().function == st.lc.cursor.unwrap().function
            &&& s.lc.current_block().instructions == se.lc.current_block().instructions.push(
                Instruction::Store { value: object.handle(), target: env[name].handle() },
            )
        }),
{
    lemma_before_statement(st, statements, env, 0, j, name);
    let (sj, envj) = before_statement(st, statements, env, 0, j).unwrap();
    theorem_assignment_writes_binding(sj, name, value, envj);
    reveal(lower_statement);
    reveal(lower_expression);
    lemma_expression(sj, value, envj);
    reveal(extends);
}

/// Code generated at the cursor leaves the other blocks of the cursor's
/// function as they were.
pub proof fn lemma_extends_keeps(a: CreatorView, b: CreatorView, j: int)
    requires
        extends(a, b),
        0 <= j < a.current_function().blocks.len(),
        j != a.cursor.unwrap().index,
    ensures
        b.module.functions[a.here()].blocks[j] == a.module.functions[a.here()].blocks[j],
        b.cursor.unwrap().index != j,
        b.cursor.unwrap().function == a.cursor.unwrap().function,
        a.current_function().blocks.len() <= b.module.functions[a.here()].blocks.len(),
{
    reveal(extends);
}

/// A conditional without an alternative yields an error only where its
/// condition or its consequence does (or where the function has no room
/// for its blocks). Otherwise it hands up what its consequence returns,
/// and nothing where the consequence does not return; its "else" block
/// holds no instruction and ends with a branch to "merge", and the cursor
/// stands at "merge".
pub proof fn theorem_missing_alternative(
    st: EvalView,
    cond: ExprView,
    consequence: Seq<StmtView>,
    env: Bindings,
)
    requires
        ready(st),
    ensures
        ({
            let (s, result) = lower_conditional(st, cond, consequence, None, env);
            let s1 = lower_expression(st, cond, env).0;
            let r1 = lower_program(at_consequence(st, cond, env), consequence, env, 0).2;
            let else_block = branch_block(s1.lc, 1);
            let merge_block = branch_block(s1.lc, 2);
            &&& failed(result) <==> !branches(st, cond, env) || r1 is Error
            &&& !failed(result) ==> {
                &&& result == propagated(r1, ObjectView::Null)
                &&& (r1 is Null ==> result is None)
                &&& advanced(st, s)
                &&& s.lc.cursor == Some(merge_block)
                &&& s.lc.module.block(else_block) == (BlockView {
                    name: Seq::empty(),
                    instructions: Seq::empty(),
                    terminator: Some(Terminator::Br { target: merge_block.index }),
                })
            }
        }),
{
    reveal(lower_conditional);
    reveal(lower_expression);
    reveal(lower_program);
    crate::codegen::soundness::lemma_conditional(st, cond, consequence, None, env);
    lemma_expression(st, cond, env);
    let (s1, test) = lower_expression(st, cond, env);
    if branches(st, cond, env) {
        let n = s1.lc.current_function().blocks.len() as int;
        let f = s1.lc.here();
        let s2 = at_consequence(st, cond, env);
        lemma_fork_start(s1.lc, test.handle());
        lemma_program(s2, consequence, env, 0);
        let (s3, _, r1) = lower_program(s2, consequence, env, 0);
        if !(r1 is Error) {
            assert(s2.lc.module.functions[f].blocks.len() == n + 3);
            assert(s2.lc.module.functions[f].blocks[n + 1] == (BlockView {
                name: Seq::empty(),
                instructions: Seq::empty(),
                terminator: None,
            }));
            lemma_extends_keeps(s2.lc, s3.lc, n + 1);
        }
    }
}

/// A conditional that yields no error has ended the block in which its
/// condition was lowered by a conditional branch on the condition's value
/// to "then" and "else", and has added nothing else to that block. When
/// the function runs and the value is not zero, the run goes on at the
/// first instruction of "then"; when it is zero, at the first instruction
/// of "else". The conditional hands up the object that the consequence
/// returns, whatever the alternative is; where the consequence does not
/// return, the object that the alternative returns; nothing where neither
/// returns.
pub proof fn theorem_condition_decides(
    st: EvalView,
    cond: ExprView,
    consequence: Seq<StmtView>,
    alternative: Option<Seq<StmtView>>,
    env: Bindings,
    params: Seq<u64>,
    registers: Seq<Option<u64>>,
    memory: Seq<Option<u64>>,
    fuel: nat,
)
    requires
        ready(st),
        !failed(lower_conditional(st, cond, consequence, alternative, env).1),
    ensures
        ({
            let (s, result) = lower_conditional(st, cond, consequence, alternative, env);
            let (s1, test) = lower_expression(st, cond, env);
            let at = s1.lc.cursor.unwrap();
            let then_block = branch_block(s1.lc, 0);
            let else_block = branch_block(s1.lc, 1);
            let m = s.lc.module;
            let f = at.function as int;
            let value = operand(f, registers, params, test.handle());
            &&& branches(st, cond, env)
            &&& m.has_block(at) && m.has_block(then_block) && m.has_block(else_block)
            &&& m.block(at) == (BlockView {
                terminator: Some(
                    Terminator::CondBr {
                        condition: test.handle(),
                        then_block: then_block.index,
                        else_block: else_block.index,
                    },
                ),
                ..s1.lc.current_block()
            })
            &&& value is Some && fuel > 0 ==> run_block(
                m,
                f,
                at.index as int,
                m.block(at).instructions.len() as int,
                params,
                registers,
                memory,
                fuel,
            ) == run_block(
                m,
                f,
                if value.unwrap() != 0 {
                    then_block.index as int
                } else {
                    else_block.index as int
                },
                0,
                params,
                registers,
                memory,
                (fuel - 1) as nat,
            )
            &&& ({
                let r1 = lower_program(at_consequence(st, cond, env), consequence, env, 0).2;
                let r2 = match alternative {
                    Some(statements) => lower_program(
                        at_alternative(st, cond, consequence, env),
                        statements,
                        env,
                        0,
                    ).2,
                    None => ObjectView::Null,
                };
                &&& result == propagated(r1, r2)
                &&& (!(r1 is Null) ==> result == Some(r1))
                &&& (r1 is Null && !(r2 is Null) ==> result == Some(r2))
                &&& (r1 is Null && r2 is Null ==> result is None)
            })
        }),
{
    reveal(lower_conditional);
    reveal(lower_expression);
    reveal(lower_program);
    lemma_expression(st, cond, env);
    let (s1, test) = lower_expression(st, cond, env);
    let n = s1.lc.current_function().blocks.len() as int;
    let f = s1.lc.here();
    let k = s1.lc.cursor.unwrap().index as int;
    let else_block = branch_block(s1.lc, 1);
    let merge_block = branch_block(s1.lc, 2);
    let s2 = at_consequence(st, cond, env);
    lemma_fork_start(s1.lc, test.handle());
    assert(s2.lc.module.functions[f].blocks.len() == n + 3);
    assert(s2.lc.module.functions[f].blocks[k] == (BlockView {
        terminator: Some(
            Terminator::CondBr {
                condition: test.handle(),
                then_block: branch_block(s1.lc, 0).index,
                else_block: else_block.index,
            },
        ),
        ..s1.lc.current_block()
    }));
    lemma_program(s2, consequence, env, 0);
    let (s3, _, r1) = lower_program(s2, consequence, env, 0);
    lemma_extends_keeps(s2.lc, s3.lc, k);
    lemma_fork_extends(s1.lc, s2.lc, s3.lc, n + 1);
    let closed = if r1 is Null {
        s3.lc.terminate(Terminator::Br { target: merge_block.index })
    } else {
        s3.lc
    };
    assert(closed.module.functions[f].blocks[k] == s2.lc.module.functions[f].blocks[k]);
    if r1 is Null {
        lemma_fork_close(s1.lc, s3.lc, n + 1, Terminator::Br { target: merge_block.index });
    }
    lemma_fork_next(s1.lc, closed, n + 1);
    let s4 = s3.with(closed.moved_to(else_block));
    let (s5, r2) = match alternative {
        Some(statements) => {
            let (s, _, r) = lower_program(s4, statements, env, 0);
            (s, r)
        },
        None => (s4, ObjectView::Null),
    };
    match alternative {
        Some(statements) => {
            lemma_program(s4, statements, env, 0);
            lemma_extends_keeps(s4.lc, s5.lc, k);
        },
        None => {},
    }
    assert(s5.lc.module.functions[f].blocks[k] == s2.lc.module.functions[f].blocks[k]);
    assert(s5.lc.cursor.unwrap().index != k);
    let m = lower_conditional(st, cond, consequence, alternative, env).0.lc.module;
    assert(m.functions[f].blocks[k] == s2.lc.module.functions[f].blocks[k]);
    reveal(run_block);
}

/// Whatever the alternative of a conditional holds, it leaves what has
/// been generated before it as it was: every block of the function but
/// "else", and every other function. The state before the alternative
/// does not depend on the alternative, so the blocks of the consequence
/// are the same for every alternative, and no value that the alternative
/// defines is used in them.
pub proof fn theorem_alternative_keeps_consequence(
    st: EvalView,
    cond: ExprView,
    consequence: Seq<StmtView>,
    alternative: Option<Seq<StmtView>>,
    env: Bindings,
)
    requires
        ready(st),
        !failed(lower_conditional(st, cond, consequence, alternative, env).1),
    ensures
        ({
            let s = lower_conditional(st, cond, consequence, alternative, env).0;
            let s1 = lower_expression(st, cond, env).0;
            let s4 = at_alternative(st, cond, consequence, env);
            let f = s1.lc.cursor.unwrap().function as int;
            let else_block = branch_block(s1.lc, 1);
            &&& s4.lc.cursor == Some(else_block)
            &&& s4.lc.module.functions.len() <= s.lc.module.functions.len()
            &&& s4.lc.module.functions[f].blocks.len() <= s.lc.module.functions[f].blocks.len()
            &&& forall|j: int|
                0 <= j < s4.lc.module.functions[f].blocks.len() && j != else_block.index ==> (
                #[trigger] s.lc.module.functions[f].blocks[j]) == s4.lc.module.functions[f].blocks[j]
            &&& forall|g: int|
                0 <= g < s4.lc.module.functions.len() && g != f ==> (
                #[trigger] s.lc.module.functions[g]) == s4.lc.module.functions[g]
        }),
{
    reveal(lower_conditional);
    reveal(lower_expression);
    reveal(lower_program);
    lemma_expression(st, cond, env);
    crate::codegen::soundness::lemma_consequence_ready(st, cond, env);
    crate::codegen::soundness::lemma_alternative_ready(st, cond, consequence, env);
    let s4 = at_alternative(st, cond, consequence, env);
    match alternative {
        Some(statements) => {
            lemma_program(s4, statements, env, 0);
        },
        None => {
            crate::codegen::shape::lemma_extends_self(s4.lc);
        },
    }
    reveal(extends);
}

/// Code generated at the cursor keeps the types of the registers that
/// the cursor's function had.
pub proof fn lemma_extends_keeps_type(a: CreatorView, b: CreatorView, index: usize)
    requires
        extends(a, b),
        index < a.current_function().registers.len(),
    ensures
        b.module.type_of(Value::Register { function: a.cursor.unwrap().function, index })
            == a.module.type_of(Value::Register { function: a.cursor.unwrap().function, index }),
{
    reveal(extends);
    let f = a.here();
    assert(b.module.functions[f].registers[index as int].ty
        == a.module.functions[f].registers[index as int].ty);
}

/// `let x: Integer = first; x = second; return x;`
pub open spec fn let_assign_return(x: Seq<char>, first: ExprView, second: ExprView) -> Seq<
    StmtView,
> {
    seq![
        StmtView::Let(x, first, LLVMExpressionType::Integer),
        StmtView::Assignment(x, second),
        StmtView::Return(ExprView::Ident(x)),
    ]
}

/// Where `let x: Integer = first; x = second; return x;` lowers without an
/// error, both expressions yield integers, and the block at the cursor
/// ends with a store of the value of `second` to the cell of `x`, a load
/// from that cell, and a return of what was loaded. When the function
/// runs from that store on, it returns the value that `second` has there,
/// in 32 bits, whatever `first` had.
pub proof fn theorem_assignment_round_trip(
    st: EvalView,
    x: Seq<char>,
    first: ExprView,
    second: ExprView,
    env: Bindings,
    params: Seq<u64>,
    registers: Seq<Option<u64>>,
    memory: Seq<Option<u64>>,
    fuel: nat,
)
    requires
        ready(st),
        !(lower_program(st, let_assign_return(x, first, second), env, 0).2 is Error),
    ensures
        ({
            let (s, _, result) = lower_program(st, let_assign_return(x, first, second), env, 0);
            let (s1, v1) = lower_expression(st, first, env);
            let (lc_a, cell) = alloca(s1.lc, LLVMType::Int32, x);
            let sa = s1.with(store(lc_a, v1.handle(), cell));
            let env1 = env.insert(x, ObjectView::Integer(cell));
            let (s2, v2) = lower_expression(sa, second, env1);
            let (lc3, loaded) = load(store(s2.lc, v2.handle(), cell), LLVMType::Int32, cell, x);
            let at = s2.lc.cursor.unwrap();
            let f = at.function as int;
            let before = s2.lc.current_block().instructions;
            let place = operand(f, registers, params, cell);
            let written = operand(f, registers, params, v2.handle());
            &&& v1 is Integer
            &&& v2 is Integer
            &&& result == ObjectView::Integer(loaded)
            &&& s.lc == lc3.terminate(Terminator::Ret { value: loaded })
            &&& s.lc.cursor == Some(at)
            &&& s.lc.module.has_block(at)
            &&& s.lc.module.block(at).instructions == before.push(
                Instruction::Store { value: v2.handle(), target: cell },
            ).push(
                Instruction::Load {
                    dest: loaded->Register_index,
                    ty: LLVMType::Int32,
                    source: cell,
                },
            )
            &&& s.lc.module.block(at).terminator == Some(Terminator::Ret { value: loaded })
            &&& place is Some && place.unwrap() < memory.len() && written is Some
                && loaded->Register_index < registers.len() ==> run_block(
                s.lc.module,
                f,
                at.index as int,
                before.len() as int,
                params,
                registers,
                memory,
                fuel,
            ).0 == Outcome::Returned(truncated(LLVMType::Int32, written.unwrap() as int))
        }),
{
    reveal_with_fuel(lower_program, 4);
    reveal(lower_statement);
    reveal(lower_expression);
    let program = let_assign_return(x, first, second);
    assert(program.len() == 3);
    assert(program[0] == StmtView::Let(x, first, LLVMExpressionType::Integer));
    assert(program[1] == StmtView::Assignment(x, second));
    assert(program[2] == StmtView::Return(ExprView::Ident(x)));
    lemma_expression(st, first, env);
    let (s1, v1) = lower_expression(st, first, env);
    let (lc_a, cell) = alloca(s1.lc, LLVMType::Int32, x);
    let lc_b = store(lc_a, v1.handle(), cell);
    let sa = s1.with(lc_b);
    let env1 = env.insert(x, ObjectView::Integer(cell));
    // the binding
    let first_step = lower_statement(st, program[0], env);
    assert(first_step.2 is None);
    assert(v1 is Integer);
    lemma_extends_alloca(s1.lc, LLVMType::Int32, x);
    lemma_extends_store(lc_a, v1.handle(), cell);
    crate::codegen::shape::lemma_extends_emit(
        lc_a,
        Instruction::Store { value: v1.handle(), target: cell },
    );
    assert(first_step.0 == sa);
    assert(first_step.1 == env1);
    assert(ready(sa));
    assert(sa.lc.module.type_of(cell) == LLVMType::Pointer);
    // the assignment
    assert(lookup(env1, x) == ObjectView::Integer(cell));
    lemma_expression(sa, second, env1);
    let (s2, v2) = lower_expression(sa, second, env1);
    let second_step = lower_statement(sa, program[1], env1);
    assert(second_step.2 is None);
    assert(v2 is Integer);
    let lc_c = store(s2.lc, v2.handle(), cell);
    lemma_extends_store(s2.lc, v2.handle(), cell);
    crate::codegen::shape::lemma_extends_emit(
        s2.lc,
        Instruction::Store { value: v2.handle(), target: cell },
    );
    let sb = s2.with(lc_c);
    assert(second_step.0 == sb);
    lemma_extends_keeps_type(sa.lc, s2.lc, cell->Register_index);
    assert(sb.lc.module.type_of(cell) == LLVMType::Pointer);
    // the return
    let (lc3, loaded) = load(lc_c, LLVMType::Int32, cell, x);
    let third_step = lower_statement(sb, program[2], env1);
    assert(lower_expression(sb, ExprView::Ident(x), env1) == (
        sb.with(lc3),
        ObjectView::Integer(loaded),
    ));
    assert(third_step.2 == Some(ObjectView::Integer(loaded)));
    let at = s2.lc.cursor.unwrap();
    let f = at.function as int;
    let b = at.index as int;
    let done = lc3.terminate(Terminator::Ret { value: loaded });
    let before = s2.lc.current_block().instructions;
    let i1 = Instruction::Store { value: v2.handle(), target: cell };
    let i2 = Instruction::Load {
        dest: loaded->Register_index,
        ty: LLVMType::Int32,
        source: cell,
    };
    assert(lc_c.module.functions[f].blocks[b].instructions == before.push(i1));
    assert(lc3.module.functions[f].blocks[b].instructions == before.push(i1).push(i2));
    assert(done.module.functions[f].blocks[b].instructions == before.push(i1).push(i2));
    assert(done.module.functions[f].blocks[b].terminator == Some(
        Terminator::Ret { value: loaded },
    ));
    // the run
    let place = operand(f, registers, params, cell);
    let written = operand(f, registers, params, v2.handle());
    if place is Some && place.unwrap() < memory.len() && written is Some
        && loaded->Register_index < registers.len() {
        reveal_with_fuel(run_block, 4);
        let m = done.module;
        let pc = before.len() as int;
        let block = m.functions[f].blocks[b];
        assert(block.instructions[pc] == i1);
        assert(block.instructions[pc + 1] == i2);
        assert(block.instructions.len() == pc + 2);
        let memory1 = memory.update(place.unwrap() as int, written);
        assert(apply(m, f, params, registers, memory, i1) == Some((registers, memory1)));
        let d = loaded->Register_index as int;
        let registers2 = registers.update(
            d,
            Some(truncated(LLVMType::Int32, written.unwrap() as int)),
        );
        assert(apply(m, f, params, registers, memory1, i2) == Some((registers2, memory1)));
        assert(operand(f, registers2, params, loaded) == Some(
            truncated(LLVMType::Int32, written.unwrap() as int),
        ));
        assert(run_block(m, f, b, pc + 2, params, registers2, memory1, fuel).0
            == Outcome::Returned(truncated(LLVMType::Int32, written.unwrap() as int)));
        assert(run_block(m, f, b, pc + 1, params, registers, memory1, fuel) == run_block(
            m,
            f,
            b,
            pc + 2,
            params,
            registers2,
            memory1,
            fuel,
        ));
        assert(run_block(m, f, b, pc, params, registers, memory, fuel) == run_block(
            m,
            f,
            b,
            pc + 1,
            params,
            registers,
            memory1,
            fuel,
        ));
    }
}

} // verus!
