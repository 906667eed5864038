//! What a module does when one of its functions runs: an abstract machine
//! with registers, storage cells and a step budget.
use vstd::prelude::*;
use crate::ir::arithmetic::{binary_bits, compute_binary};
use crate::ir::condition::{decide, holds};
use crate::ir::const_value::truncated;
use crate::ir::creator::{Instruction, LLVMCreator, Module, ModuleView, Terminator, Value};
use crate::ir::operate::run_function;

verus! {

/// How the run of a function ends.
#[derive(Clone, Copy, PartialEq, Eq, Debug, Structural)]
pub enum Outcome {
    /// The function has returned a value.
    Returned(u64),
    /// The function has returned without a value.
    ReturnedVoid,
    /// The run has met something that has no meaning: a value that is not
    /// defined, a cell that does not exist or was never written, a division
    /// by zero, a block without a terminator, a function without a body.
    Trapped,
    /// The budget of branches and calls is used up.
    OutOfFuel,
}

/// What a handle stands for while function number `f` runs; `None` where
/// it stands for nothing there.
pub open spec fn operand(
    f: int,
    registers: Seq<Option<u64>>,
    params: Seq<u64>,
    value: Value,
) -> Option<u64> {
    match value {
        Value::ConstInt { ty, bits } => Some(truncated(ty, bits as int)),
        Value::Register { function, index } => if function == f && index < registers.len() {
            registers[index as int]
        } else {
            None
        },
        Value::Param { function, index } => if function == f && index < params.len() {
            Some(params[index as int])
        } else {
            None
        },
        Value::Function { .. } => None,
    }
}

/// The registers and the storage after an instruction other than a call;
/// `None` where the instruction traps.
pub open spec fn apply(
    m: ModuleView,
    f: int,
    params: Seq<u64>,
    registers: Seq<Option<u64>>,
    memory: Seq<Option<u64>>,
    inst: Instruction,
) -> Option<(Seq<Option<u64>>, Seq<Option<u64>>)> {
    match inst {
        Instruction::Alloca { dest, .. } => if dest < registers.len() && memory.len() < u64::MAX {
            Some((registers.update(dest as int, Some(memory.len() as u64)), memory.push(None)))
        } else {
            None
        },
        Instruction::Store { value, target } => {
            let v = operand(f, registers, params, value);
            let p = operand(f, registers, params, target);
            if v is Some && p is Some && p.unwrap() < memory.len() {
                Some((registers, memory.update(p.unwrap() as int, v)))
            } else {
                None
            }
        },
        Instruction::Load { dest, ty, source } => {
            let p = operand(f, registers, params, source);
            if dest < registers.len() && p is Some && p.unwrap() < memory.len()
                && memory[p.unwrap() as int] is Some {
                Some(
                    (
                        registers.update(
                            dest as int,
                            Some(truncated(ty, memory[p.unwrap() as int].unwrap() as int)),
                        ),
                        memory,
                    ),
                )
            } else {
                None
            }
        },
        Instruction::Binary { dest, op, left, right } => {
            let a = operand(f, registers, params, left);
            let b = operand(f, registers, params, right);
            if dest < registers.len() && dest < m.functions[f].registers.len() && a is Some && b is Some
                && binary_bits(op, m.functions[f].registers[dest as int].ty, a.unwrap(), b.unwrap()) is Some {
                Some(
                    (
                        registers.update(
                            dest as int,
                            binary_bits(
                                op,
                                m.functions[f].registers[dest as int].ty,
                                a.unwrap(),
                                b.unwrap(),
                            ),
                        ),
                        memory,
                    ),
                )
            } else {
                None
            }
        },
        Instruction::Compare { dest, predicate, left, right } => {
            let a = operand(f, registers, params, left);
            let b = operand(f, registers, params, right);
            let verdict = holds(predicate, m.type_of(left), a.unwrap(), b.unwrap());
            if dest < registers.len() && a is Some && b is Some && verdict is Some {
                Some(
                    (
                        registers.update(
                            dest as int,
                            Some(
                                if verdict.unwrap() {
                                    1u64
                                } else {
                                    0u64
                                },
                            ),
                        ),
                        memory,
                    ),
                )
            } else {
                None
            }
        },
        Instruction::Call { .. } => None,
    }
}

/// The values of the `count` arguments that stand in the argument pool of
/// function number `f` from position `first` on; `None` where one of them
/// stands for nothing.
pub open spec fn call_values(
    m: ModuleView,
    f: int,
    params: Seq<u64>,
    registers: Seq<Option<u64>>,
    first: int,
    count: int,
) -> Option<Seq<u64>> {
    if first + count <= m.functions[f].call_args.len() && (forall|i: int|
        0 <= i < count ==> (#[trigger] operand(f, registers, params, m.functions[f].call_args[first + i])) is Some) {
        Some(
            Seq::new(
                count as nat,
                |i: int| operand(f, registers, params, m.functions[f].call_args[first + i]).unwrap(),
            ),
        )
    } else {
        None
    }
}

/// How the run of function number `f` goes on from instruction number `pc`
/// of block number `b`, and the storage at its end. Each branch and each
/// call takes one unit of `fuel`.
#[verifier::opaque]
pub open spec fn run_block(
    m: ModuleView,
    f: int,
    b: int,
    pc: int,
    params: Seq<u64>,
    registers: Seq<Option<u64>>,
    memory: Seq<Option<u64>>,
    fuel: nat,
) -> (Outcome, Seq<Option<u64>>)
    decreases fuel, 0nat, m.functions[f].blocks[b].instructions.len() - pc,
{
    if !(0 <= f < m.functions.len() && 0 <= b < m.functions[f].blocks.len() && 0 <= pc) {
        (Outcome::Trapped, memory)
    } else {
        let block = m.functions[f].blocks[b];
        if pc < block.instructions.len() {
            match block.instructions[pc] {
                Instruction::Call { dest, callee, first_arg, arg_count } => {
                    let args = call_values(m, f, params, registers, first_arg as int, arg_count as int);
                    if !(callee is Function) || args is None || dest >= registers.len() {
                        (Outcome::Trapped, memory)
                    } else if fuel == 0 {
                        (Outcome::OutOfFuel, memory)
                    } else {
                        let (outcome, after) = run(
                            m,
                            callee->Function_index as int,
                            args.unwrap(),
                            memory,
                            (fuel - 1) as nat,
                        );
                        match outcome {
                            Outcome::Returned(value) => run_block(
                                m,
                                f,
                                b,
                                pc + 1,
                                params,
                                registers.update(dest as int, Some(value)),
                                after,
                                fuel,
                            ),
                            Outcome::ReturnedVoid => run_block(
                                m,
                                f,
                                b,
                                pc + 1,
                                params,
                                registers,
                                after,
                                fuel,
                            ),
                            _ => (outcome, after),
                        }
                    }
                },
                inst => match apply(m, f, params, registers, memory, inst) {
                    Some((r, s)) => run_block(m, f, b, pc + 1, params, r, s, fuel),
                    None => (Outcome::Trapped, memory),
                },
            }
        } else {
            match block.terminator {
                None => (Outcome::Trapped, memory),
                Some(Terminator::Br { target }) => if fuel == 0 {
                    (Outcome::OutOfFuel, memory)
                } else {
                    run_block(m, f, target as int, 0, params, registers, memory, (fuel - 1) as nat)
                },
                Some(Terminator::CondBr { condition, then_block, else_block }) => {
                    let c = operand(f, registers, params, condition);
                    if c is None {
                        (Outcome::Trapped, memory)
                    } else if fuel == 0 {
                        (Outcome::OutOfFuel, memory)
                    } else {
                        run_block(
                            m,
                            f,
                            if c.unwrap() != 0 {
                                then_block as int
                            } else {
                                else_block as int
                            },
                            0,
                            params,
                            registers,
                            memory,
                            (fuel - 1) as nat,
                        )
                    }
                },
                Some(Terminator::Ret { value }) => match operand(f, registers, params, value) {
                    Some(v) => (Outcome::Returned(v), memory),
                    None => (Outcome::Trapped, memory),
                },
                Some(Terminator::RetVoid) => (Outcome::ReturnedVoid, memory),
            }
        }
    }
}

/// `n` registers, none of them defined.
pub open spec fn undefined(n: nat) -> Seq<Option<u64>> {
    Seq::new(n, |i: int| None::<u64>)
}

/// How the run of function number `f` on the arguments `args` ends, and
/// the storage at its end. The run starts at the function's first block
/// with no register defined; a function without blocks traps.
#[verifier::opaque]
pub open spec fn run(m: ModuleView, f: int, args: Seq<u64>, memory: Seq<Option<u64>>, fuel: nat) -> (
    Outcome,
    Seq<Option<u64>>,
)
    decreases fuel, 1nat, 0nat,
{
    if !(0 <= f < m.functions.len()) || m.functions[f].blocks.len() == 0 {
        (Outcome::Trapped, memory)
    } else {
        run_block(
            m,
            f,
            0,
            0,
            args,
            undefined(m.functions[f].registers.len()),
            memory,
            fuel,
        )
    }
}

/// What a handle stands for while function number `f` runs.
fn read_operand(f: usize, registers: &Vec<Option<u64>>, params: &Vec<u64>, value: Value) -> (r:
    Option<u64>)
    ensures
        r == operand(f as int, registers@, params@, value),
{
    match value {
        Value::ConstInt { ty, bits } => Some(bits % ty.values()),
        Value::Register { function, index } => {
            if function == f && index < registers.len() {
                registers[index]
            } else {
                None
            }
        },
        Value::Param { function, index } => {
            if function == f && index < params.len() {
                Some(params[index])
            } else {
                None
            }
        },
        Value::Function { .. } => None,
    }
}

/// Carries out an instruction other than a call; `false` where it traps.
fn apply_instruction(
    module: &Module,
    f: usize,
    params: &Vec<u64>,
    registers: &mut Vec<Option<u64>>,
    memory: &mut Vec<Option<u64>>,
    inst: Instruction,
) -> (done: bool)
    requires
        f < module.functions.len(),
    ensures
        done ==> apply(module@, f as int, params@, old(registers)@, old(memory)@, inst) == Some(
            (final(registers)@, final(memory)@),
        ),
        !done ==> apply(module@, f as int, params@, old(registers)@, old(memory)@, inst) is None
            && final(memory)@ == old(memory)@ && final(registers)@ == old(registers)@,
{
    match inst {
        Instruction::Alloca { dest, .. } => {
            if dest < registers.len() && (memory.len() as u64) < u64::MAX {
                let cell = memory.len() as u64;
                registers.set(dest, Some(cell));
                memory.push(None);
                true
            } else {
                false
            }
        },
        Instruction::Store { value, target } => {
            let v = read_operand(f, registers, params, value);
            let p = read_operand(f, registers, params, target);
            match (v, p) {
                (Some(x), Some(cell)) => {
                    if cell < memory.len() as u64 {
                        memory.set(cell as usize, Some(x));
                        true
                    } else {
                        false
                    }
                },
                _ => false,
            }
        },
        Instruction::Load { dest, ty, source } => {
            let p = read_operand(f, registers, params, source);
            match p {
                Some(cell) => {
                    if dest < registers.len() && cell < memory.len() as u64 {
                        match memory[cell as usize] {
                            Some(x) => {
                                registers.set(dest, Some(x % ty.values()));
                                true
                            },
                            None => false,
                        }
                    } else {
                        false
                    }
                },
                None => false,
            }
        },
        Instruction::Binary { dest, op, left, right } => {
            let a = read_operand(f, registers, params, left);
            let b = read_operand(f, registers, params, right);
            match (a, b) {
                (Some(x), Some(y)) => {
                    if dest < registers.len() && dest < module.functions[f].registers.len() {
                        match compute_binary(op, module.functions[f].registers[dest].ty, x, y) {
                            Some(r) => {
                                registers.set(dest, Some(r));
                                true
                            },
                            None => false,
                        }
                    } else {
                        false
                    }
                },
                _ => false,
            }
        },
        Instruction::Compare { dest, predicate, left, right } => {
            let a = read_operand(f, registers, params, left);
            let b = read_operand(f, registers, params, right);
            match (a, b) {
                (Some(x), Some(y)) => {
                    if dest < registers.len() {
                        match decide(predicate, type_in(module, left), x, y) {
                            Some(is) => {
                                registers.set(dest, Some(if is { 1 } else { 0 }));
                                true
                            },
                            None => false,
                        }
                    } else {
                        false
                    }
                },
                _ => false,
            }
        },
        Instruction::Call { .. } => false,
    }
}

/// The type of the value that a handle stands for in `module`.
fn type_in(module: &Module, value: Value) -> (ty: crate::ir::llvm_type::LLVMType)
    ensures
        ty == module@.type_of(value),
{
    match value {
        Value::ConstInt { ty, .. } => ty,
        Value::Register { function, index } => {
            if function < module.functions.len() && index
                < module.functions[function].registers.len() {
                module.functions[function].registers[index].ty
            } else {
                crate::ir::llvm_type::LLVMType::Void
            }
        },
        Value::Param { function, index } => {
            if function < module.functions.len() && index
                < module.functions[function].ty.param_types.len() {
                module.functions[function].ty.param_types[index]
            } else {
                crate::ir::llvm_type::LLVMType::Void
            }
        },
        Value::Function { index } => {
            if index < module.functions.len() {
                crate::ir::llvm_type::LLVMType::Pointer
            } else {
                crate::ir::llvm_type::LLVMType::Void
            }
        },
    }
}

/// The values of the arguments of a call.
fn read_call_values(
    module: &Module,
    f: usize,
    params: &Vec<u64>,
    registers: &Vec<Option<u64>>,
    first: usize,
    count: usize,
) -> (values: Option<Vec<u64>>)
    requires
        f < module.functions.len(),
    ensures
        match values {
            Some(list) => call_values(
                module@,
                f as int,
                params@,
                registers@,
                first as int,
                count as int,
            ) == Some(list@),
            None => call_values(module@, f as int, params@, registers@, first as int, count as int) is None,
        },
{
    let pool = &module.functions[f].call_args;
    if count > pool.len() || first > pool.len() - count {
        return None;
    }
    let mut values: Vec<u64> = Vec::new();
    let mut i: usize = 0;
    while i < count
        invariant
            i <= count,
            first + count <= pool.len(),
            pool@ == module@.functions[f as int].call_args,
            values.len() == i,
            forall|j: int|
                0 <= j < i ==> operand(f as int, registers@, params@, pool[first + j]) == Some(
                    #[trigger] values[j],
                ),
        decreases count - i,
    {
        match read_operand(f, registers, params, pool[first + i]) {
            Some(v) => values.push(v),
            None => {
                return None;
            },
        }
        i += 1;
    }
    proof {
        let want = call_values(module@, f as int, params@, registers@, first as int, count as int);
        assert forall|j: int| 0 <= j < count implies (#[trigger] operand(
            f as int,
            registers@,
            params@,
            module@.functions[f as int].call_args[first + j],
        )) is Some by {
            assert(operand(f as int, registers@, params@, pool[first + j]) == Some(values[j]));
        }
        assert(want.unwrap() =~= values@);
    }
    Some(values)
}

/// Runs function number `function` of `module` on the arguments `args`,
/// with the storage `memory` and a budget of `fuel` branches and calls.
#[verifier::loop_isolation(false)]
pub fn run_in(
    module: &Module,
    function: usize,
    args: &Vec<u64>,
    memory: Vec<Option<u64>>,
    fuel: u64,
) -> (result: (Outcome, Vec<Option<u64>>))
    ensures
        (result.0, result.1@) == run(module@, function as int, args@, memory@, fuel as nat),
    decreases fuel,
{
    proof {
        reveal(run);
    }
    if function >= module.functions.len() || module.functions[function].blocks.len() == 0 {
        return (Outcome::Trapped, memory);
    }
    let ghost m = module@;
    let ghost f = function as int;
    let mut registers: Vec<Option<u64>> = Vec::new();
    let count = module.functions[function].registers.len();
    while registers.len() < count
        invariant
            registers.len() <= count,
            forall|i: int| 0 <= i < registers.len() ==> registers[i] == None::<u64>,
        decreases count - registers.len(),
    {
        registers.push(None);
    }
    let mut cells = memory;
    let mut b: usize = 0;
    let mut pc: usize = 0;
    let mut left: u64 = fuel;
    let ghost answer = run(m, f, args@, memory@, fuel as nat);
    proof {
        reveal(run_block);
        assert(m.functions[f].blocks.len() == module.functions[f].blocks.len());
        assert(m.functions[f].registers.len() == count);
        assert(registers@ =~= undefined(m.functions[f].registers.len()));
    }
    loop
        invariant
            m == module@,
            f == function as int,
            function < module.functions.len(),
            left <= fuel,
            run_block(m, f, b as int, pc as int, args@, registers@, cells@, left as nat) == answer,
        decreases
                left,
                if b < module.functions[function as int].blocks.len() {
                    module.functions[function as int].blocks[b as int].instructions.len() - pc
                } else {
                    0
                },
    {
        if b >= module.functions[function].blocks.len() {
            return (Outcome::Trapped, cells);
        }
        let block = &module.functions[function].blocks[b];
        if pc < block.instructions.len() {
            let inst = block.instructions[pc];
            match inst {
                Instruction::Call { dest, callee, first_arg, arg_count } => {
                    let values = read_call_values(
                        module,
                        function,
                        args,
                        &registers,
                        first_arg,
                        arg_count,
                    );
                    let target = match callee {
                        Value::Function { index } => index,
                        _ => {
                            return (Outcome::Trapped, cells);
                        },
                    };
                    let values = match values {
                        Some(list) => list,
                        None => {
                            return (Outcome::Trapped, cells);
                        },
                    };
                    if dest >= registers.len() {
                        return (Outcome::Trapped, cells);
                    }
                    if left == 0 {
                        return (Outcome::OutOfFuel, cells);
                    }
                    let (outcome, after) = run_in(module, target, &values, cells, left - 1);
                    cells = after;
                    match outcome {
                        Outcome::Returned(value) => {
                            registers.set(dest, Some(value));
                        },
                        Outcome::ReturnedVoid => {},
                        _ => {
                            return (outcome, cells);
                        },
                    }
                    pc += 1;
                },
                _ => {
                    if apply_instruction(module, function, args, &mut registers, &mut cells, inst) {
                        pc += 1;
                    } else {
                        return (Outcome::Trapped, cells);
                    }
                },
            }
        } else {
            match block.terminator {
                None => {
                    return (Outcome::Trapped, cells);
                },
                Some(Terminator::Br { target }) => {
                    if left == 0 {
                        return (Outcome::OutOfFuel, cells);
                    }
                    left -= 1;
                    b = target;
                    pc = 0;
                },
                Some(Terminator::CondBr { condition, then_block, else_block }) => {
                    match read_operand(function, &registers, args, condition) {
                        None => {
                            return (Outcome::Trapped, cells);
                        },
                        Some(c) => {
                            if left == 0 {
                                return (Outcome::OutOfFuel, cells);
                            }
                            left -= 1;
                            b = if c != 0 {
                                then_block
                            } else {
                                else_block
                            };
                            pc = 0;
                        },
                    }
                },
                Some(Terminator::Ret { value }) => {
                    match read_operand(function, &registers, args, value) {
                        Some(v) => {
                            return (Outcome::Returned(v), cells);
                        },
                        None => {
                            return (Outcome::Trapped, cells);
                        },
                    }
                },
                Some(Terminator::RetVoid) => {
                    return (Outcome::ReturnedVoid, cells);
                },
            }
        }
    }
}

/// How many branches and calls a test run may take.
pub const TEST_FUEL: u64 = 1_000_000;

/// Runs `function` without arguments and returns the value that it
/// returns; `None` where it returns none within the budget of a test run.
pub fn execute_test_ir_function(module: &LLVMCreator, function: Value) -> (value: Option<u64>)
    ensures
        value == match function {
            Value::Function { index } => match run(
                module@.module,
                index as int,
                Seq::empty(),
                Seq::empty(),
                TEST_FUEL as nat,
            ).0 {
                Outcome::Returned(v) => Some(v),
                _ => None,
            },
            _ => None,
        },
{
    let args: Vec<u64> = Vec::new();
    match run_function(module, function, &args, TEST_FUEL) {
        Outcome::Returned(v) => Some(v),
        _ => None,
    }
}

} // verus!
