use vstd::prelude::*;
use crate::ir::creator::{BlockRef, CreatorView, Instruction, LLVMCreator, Terminator, Value};
use crate::ir::const_value::truncated;
use crate::ir::llvm_type::LLVMType;
use crate::ir::machine::{Outcome, run, run_in};

verus! {

/// The state and the handle after an `alloca` of a cell for a `ty`.
pub open spec fn alloca(s: CreatorView, ty: LLVMType, name: Seq<char>) -> (CreatorView, Value) {
    let dest = s.next_register();
    (s.define(LLVMType::Pointer, name).emit(Instruction::Alloca { dest: dest->Register_index, ty }), dest)
}

/// The state after a `store` of `value` to the cell at `target`.
pub open spec fn store(s: CreatorView, value: Value, target: Value) -> CreatorView {
    s.emit(Instruction::Store { value, target })
}

/// The state and the handle after a `load` of a `ty` from the cell at `source`.
pub open spec fn load(s: CreatorView, ty: LLVMType, source: Value, name: Seq<char>) -> (
    CreatorView,
    Value,
) {
    let dest = s.next_register();
    (s.define(ty, name).emit(Instruction::Load { dest: dest->Register_index, ty, source }), dest)
}

/// Reserves a storage cell for a value of type `llvm_type` and returns the
/// cell's address.
pub fn build_alloca(builder: &mut LLVMCreator, llvm_type: LLVMType, name: &str) -> (cell: Value)
    requires
        old(builder)@.positioned(),
    ensures
        (final(builder)@, cell) == alloca(old(builder)@, llvm_type, name@),
{
    let dest = builder.new_register(LLVMType::Pointer, name);
    match dest {
        Value::Register { index, .. } => {
            builder.push_instruction(Instruction::Alloca { dest: index, ty: llvm_type });
        },
        _ => {},
    }
    dest
}

/// Writes `value` to the cell at `target`.
pub fn build_store(builder: &mut LLVMCreator, value: Value, target: Value)
    requires
        old(builder)@.positioned(),
    ensures
        final(builder)@ == store(old(builder)@, value, target),
{
    builder.push_instruction(Instruction::Store { value, target });
}

/// Reads a value of type `llvm_type` from the cell at `llvm_value`.
pub fn build_load(builder: &mut LLVMCreator, llvm_type: LLVMType, llvm_value: Value, name: &str) -> (loaded: Value)
    requires
        old(builder)@.positioned(),
    ensures
        (final(builder)@, loaded) == load(old(builder)@, llvm_type, llvm_value, name@),
{
    let dest = builder.new_register(llvm_type, name);
    match dest {
        Value::Register { index, .. } => {
            builder.push_instruction(
                Instruction::Load { dest: index, ty: llvm_type, source: llvm_value },
            );
        },
        _ => {},
    }
    dest
}

/// Ends the cursor's block by returning `llvm_value`.
pub fn build_ret(builder: &mut LLVMCreator, llvm_value: Value)
    requires
        old(builder)@.positioned(),
    ensures
        final(builder)@ == old(builder)@.terminate(Terminator::Ret { value: llvm_value }),
{
    builder.set_terminator(Terminator::Ret { value: llvm_value });
}

/// Ends the cursor's block by returning nothing.
pub fn build_ret_void(builder: &mut LLVMCreator)
    requires
        old(builder)@.positioned(),
    ensures
        final(builder)@ == old(builder)@.terminate(Terminator::RetVoid),
{
    builder.set_terminator(Terminator::RetVoid);
}

/// Gives `function` one more, empty block.
pub fn append_basic_block(builder: &mut LLVMCreator, function: Value, function_name: &str) -> (block: BlockRef)
    requires
        function is Function,
        function->Function_index < old(builder)@.module.functions.len(),
    ensures
        final(builder)@ == old(builder)@.append_block(
            function->Function_index as int,
            function_name@,
        ),
        block == (BlockRef {
            function: function->Function_index,
            index: old(builder)@.module.functions[function->Function_index as int].blocks.len() as usize,
        }),
        old(builder)@.module.functions[function->Function_index as int].blocks.len() < usize::MAX,
{
    match function {
        Value::Function { index } => builder.push_block(index, function_name),
        _ => BlockRef { function: 0, index: 0 },
    }
}

/// Moves the cursor to the end of `block`.
pub fn build_position_at_end(builder: &mut LLVMCreator, block: BlockRef)
    ensures
        final(builder)@ == old(builder)@.moved_to(block),
{
    builder.cursor = Some(block);
}

/// Runs `function` on the arguments `args` with fresh storage and a budget
/// of `fuel` branches and calls.
pub fn run_function(module: &LLVMCreator, function: Value, args: &Vec<u64>, fuel: u64) -> (outcome:
    Outcome)
    ensures
        outcome == match function {
            Value::Function { index } => run(
                module@.module,
                index as int,
                args@,
                Seq::empty(),
                fuel as nat,
            ).0,
            _ => Outcome::Trapped,
        },
{
    match function {
        Value::Function { index } => {
            let (outcome, _) = run_in(&module.module, index, args, Vec::new(), fuel);
            outcome
        },
        _ => Outcome::Trapped,
    }
}

/// The value of an integer constant, as an unsigned number.
pub fn get_u64_from_llvm_value(llvm_const_value: Value) -> (value: u64)
    requires
        llvm_const_value is ConstInt,
    ensures
        value == truncated(llvm_const_value->ty, llvm_const_value->bits as int),
{
    match llvm_const_value {
        Value::ConstInt { ty, bits } => bits % ty.values(),
        _ => 0,
    }
}

} // verus!
