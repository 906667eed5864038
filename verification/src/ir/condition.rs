use vstd::prelude::*;
use crate::ir::block::append_basic_block_in_context;
use crate::ir::const_value::const_int;
use crate::ir::creator::{
    BlockRef, CreatorView, Instruction, IntPredicate, LLVMCreator, Terminator, Value,
};
use crate::ir::llvm_type::{LLVMType, int32_type};
use crate::ir::operate::{
    alloca, build_alloca, build_load, build_position_at_end, build_ret, build_store, load, store,
};

verus! {

/// The number that the bits `x` of an integer of type `ty` stand for when
/// the highest bit is read as a sign.
pub open spec fn signed(ty: LLVMType, x: int) -> int {
    if 2 * x >= ty.modulus() {
        x - ty.modulus()
    } else {
        x
    }
}

/// Whether `predicate` holds of two values of the integer type `ty`, each
/// taken modulo the type's size. `None` where the type is no integer type.
pub open spec fn holds(predicate: IntPredicate, ty: LLVMType, a: u64, b: u64) -> Option<bool> {
    let m = ty.modulus();
    let x = a as int % m;
    let y = b as int % m;
    if !ty.is_integer() {
        None
    } else {
        Some(
            match predicate {
                IntPredicate::Eq => x == y,
                IntPredicate::Ne => x != y,
                IntPredicate::Ugt => x > y,
                IntPredicate::Uge => x >= y,
                IntPredicate::Ult => x < y,
                IntPredicate::Ule => x <= y,
                IntPredicate::Sgt => signed(ty, x) > signed(ty, y),
                IntPredicate::Sge => signed(ty, x) >= signed(ty, y),
                IntPredicate::Slt => signed(ty, x) < signed(ty, y),
                IntPredicate::Sle => signed(ty, x) <= signed(ty, y),
            },
        )
    }
}

/// The one-bit constant for a truth value.
pub open spec fn truth(b: bool) -> Value {
    Value::ConstInt { ty: LLVMType::Int1, bits: if b { 1 } else { 0 } }
}

/// The state and the handle after a comparison has been built: two
/// constants of one integer type are folded into a one-bit constant,
/// anything else becomes an instruction with a one-bit result.
pub open spec fn compare(
    s: CreatorView,
    predicate: IntPredicate,
    left: Value,
    right: Value,
    name: Seq<char>,
) -> (CreatorView, Value) {
    if left is ConstInt && right is ConstInt && left->ty == right->ty && left->ty.is_integer() {
        (s, truth(holds(predicate, left->ty, left->bits, right->bits).unwrap()))
    } else {
        let dest = s.next_register();
        (
            s.define(LLVMType::Int1, name).emit(
                Instruction::Compare { dest: dest->Register_index, predicate, left, right },
            ),
            dest,
        )
    }
}

/// Whether `predicate` holds of two values of type `ty`.
pub fn decide(predicate: IntPredicate, ty: LLVMType, a: u64, b: u64) -> (r: Option<bool>)
    ensures
        r == holds(predicate, ty, a, b),
{
    if !ty.integer() {
        return None;
    }
    let m = ty.values();
    let x = a % m;
    let y = b % m;
    let half = m / 2;
    let sx: i128 = if x >= half {
        x as i128 - m as i128
    } else {
        x as i128
    };
    let sy: i128 = if y >= half {
        y as i128 - m as i128
    } else {
        y as i128
    };
    Some(
        match predicate {
            IntPredicate::Eq => x == y,
            IntPredicate::Ne => x != y,
            IntPredicate::Ugt => x > y,
            IntPredicate::Uge => x >= y,
            IntPredicate::Ult => x < y,
            IntPredicate::Ule => x <= y,
            IntPredicate::Sgt => sx > sy,
            IntPredicate::Sge => sx >= sy,
            IntPredicate::Slt => sx < sy,
            IntPredicate::Sle => sx <= sy,
        },
    )
}

/// Ends the cursor's block by a branch to `left_block` where `condition`
/// holds, to `right_block` where it does not.
pub fn build_cond_br(builder: &mut LLVMCreator, condition: Value, left_block: BlockRef, right_block: BlockRef)
    requires
        old(builder)@.positioned(),
    ensures
        final(builder)@ == old(builder)@.terminate(
            Terminator::CondBr {
                condition,
                then_block: left_block.index,
                else_block: right_block.index,
            },
        ),
{
    builder.set_terminator(
        Terminator::CondBr {
            condition,
            then_block: left_block.index,
            else_block: right_block.index,
        },
    );
}

/// Ends the cursor's block by a branch to `block`.
pub fn build_br(builder: &mut LLVMCreator, block: BlockRef)
    requires
        old(builder)@.positioned(),
    ensures
        final(builder)@ == old(builder)@.terminate(Terminator::Br { target: block.index }),
{
    builder.set_terminator(Terminator::Br { target: block.index });
}

/// Builds the comparison of `left_val` and `right_val` by `predicate`.
pub fn build_int_compare(builder: &mut LLVMCreator, predicate: IntPredicate, left_val: Value, right_val: Value, name: &str) -> (result: Value)
    requires
        old(builder)@.positioned(),
    ensures
        (final(builder)@, result) == compare(old(builder)@, predicate, left_val, right_val, name@),
{
    match (left_val, right_val) {
        (Value::ConstInt { ty: t1, bits: a }, Value::ConstInt { ty: t2, bits: b }) => {
            if t1 == t2 {
                match decide(predicate, t1, a, b) {
                    Some(is) => {
                        return Value::ConstInt { ty: LLVMType::Int1, bits: if is { 1 } else { 0 } };
                    },
                    None => {},
                }
            }
        },
        _ => {},
    }
    let dest = builder.new_register(LLVMType::Int1, name);
    match dest {
        Value::Register { index, .. } => {
            builder.push_instruction(
                Instruction::Compare { dest: index, predicate, left: left_val, right: right_val },
            );
        },
        _ => {},
    }
    dest
}

/// Builds the test whether `left_val` and `right_val` are equal.
pub fn build_int_eq(builder: &mut LLVMCreator, left_val: Value, right_val: Value, name: &str) -> (result: Value)
    requires
        old(builder)@.positioned(),
    ensures
        (final(builder)@, result) == compare(
            old(builder)@,
            IntPredicate::Eq,
            left_val,
            right_val,
            name@,
        ),
{
    build_int_compare(builder, IntPredicate::Eq, left_val, right_val, name)
}

/// Builds the test whether `left_val` and `right_val` are not equal.
pub fn build_int_ne(builder: &mut LLVMCreator, left_val: Value, right_val: Value, name: &str) -> (result: Value)
    requires
        old(builder)@.positioned(),
    ensures
        (final(builder)@, result) == compare(
            old(builder)@,
            IntPredicate::Ne,
            left_val,
            right_val,
            name@,
        ),
{
    build_int_compare(builder, IntPredicate::Ne, left_val, right_val, name)
}

/// Builds the test whether `left_val` and `right_val` are such that the first is greater, as unsigned numbers.
pub fn build_int_ugt(builder: &mut LLVMCreator, left_val: Value, right_val: Value, name: &str) -> (result: Value)
    requires
        old(builder)@.positioned(),
    ensures
        (final(builder)@, result) == compare(
            old(builder)@,
            IntPredicate::Ugt,
            left_val,
            right_val,
            name@,
        ),
{
    build_int_compare(builder, IntPredicate::Ugt, left_val, right_val, name)
}

/// Builds the test whether `left_val` and `right_val` are such that the first is greater or equal, as unsigned numbers.
pub fn build_int_uge(builder: &mut LLVMCreator, left_val: Value, right_val: Value, name: &str) -> (result: Value)
    requires
        old(builder)@.positioned(),
    ensures
        (final(builder)@, result) == compare(
            old(builder)@,
            IntPredicate::Uge,
            left_val,
            right_val,
            name@,
        ),
{
    build_int_compare(builder, IntPredicate::Uge, left_val, right_val, name)
}

/// Builds the test whether `left_val` and `right_val` are such that the first is less, as unsigned numbers.
pub fn build_int_ult(builder: &mut LLVMCreator, left_val: Value, right_val: Value, name: &str) -> (result: Value)
    requires
        old(builder)@.positioned(),
    ensures
        (final(builder)@, result) == compare(
            old(builder)@,
            IntPredicate::Ult,
            left_val,
            right_val,
            name@,
        ),
{
    build_int_compare(builder, IntPredicate::Ult, left_val, right_val, name)
}

/// Builds the test whether `left_val` and `right_val` are such that the first is less or equal, as unsigned numbers.
pub fn build_int_ule(builder: &mut LLVMCreator, left_val: Value, right_val: Value, name: &str) -> (result: Value)
    requires
        old(builder)@.positioned(),
    ensures
        (final(builder)@, result) == compare(
            old(builder)@,
            IntPredicate::Ule,
            left_val,
            right_val,
            name@,
        ),
{
    build_int_compare(builder, IntPredicate::Ule, left_val, right_val, name)
}

/// Builds the test whether `left_val` and `right_val` are such that the first is greater, as signed numbers.
pub fn build_int_sgt(builder: &mut LLVMCreator, left_val: Value, right_val: Value, name: &str) -> (result: Value)
    requires
        old(builder)@.positioned(),
    ensures
        (final(builder)@, result) == compare(
            old(builder)@,
            IntPredicate::Sgt,
            left_val,
            right_val,
            name@,
        ),
{
    build_int_compare(builder, IntPredicate::Sgt, left_val, right_val, name)
}

/// Builds the test whether `left_val` and `right_val` are such that the first is greater or equal, as signed numbers.
pub fn build_int_sge(builder: &mut LLVMCreator, left_val: Value, right_val: Value, name: &str) -> (result: Value)
    requires
        old(builder)@.positioned(),
    ensures
        (final(builder)@, result) == compare(
            old(builder)@,
            IntPredicate::Sge,
            left_val,
            right_val,
            name@,
        ),
{
    build_int_compare(builder, IntPredicate::Sge, left_val, right_val, name)
}

/// Builds the test whether `left_val` and `right_val` are such that the first is less, as signed numbers.
pub fn build_int_slt(builder: &mut LLVMCreator, left_val: Value, right_val: Value, name: &str) -> (result: Value)
    requires
        old(builder)@.positioned(),
    ensures
        (final(builder)@, result) == compare(
            old(builder)@,
            IntPredicate::Slt,
            left_val,
            right_val,
            name@,
        ),
{
    build_int_compare(builder, IntPredicate::Slt, left_val, right_val, name)
}

/// Builds the test whether `left_val` and `right_val` are such that the first is less or equal, as signed numbers.
pub fn build_int_sle(builder: &mut LLVMCreator, left_val: Value, right_val: Value, name: &str) -> (result: Value)
    requires
        old(builder)@.positioned(),
    ensures
        (final(builder)@, result) == compare(
            old(builder)@,
            IntPredicate::Sle,
            left_val,
            right_val,
            name@,
        ),
{
    build_int_compare(builder, IntPredicate::Sle, left_val, right_val, name)
}


/// The state after the two-armed test function has been built on
/// `llvm_bool`: a cell that gets 1 in the left block and 2 in the right
/// one, and whose content the end block returns.
pub open spec fn if_else_test(s: CreatorView, llvm_type: LLVMType, main: Value, llvm_bool: Value) -> CreatorView {
    let f = main->Function_index;
    let n = s.module.functions[f as int].blocks.len() as usize;
    let left = BlockRef { function: f, index: n };
    let right = BlockRef { function: f, index: (n + 1) as usize };
    let end = BlockRef { function: f, index: (n + 2) as usize };
    let s3 = s.append_block(f as int, Seq::empty()).append_block(f as int, Seq::empty()).append_block(
        f as int,
        Seq::empty(),
    );
    let (s4, cell) = alloca(s3, LLVMType::Int32, Seq::empty());
    let s5 = s4.terminate(
        Terminator::CondBr { condition: llvm_bool, then_block: left.index, else_block: right.index },
    ).moved_to(left);
    let s6 = store(s5, Value::ConstInt { ty: LLVMType::Int32, bits: 1 }, cell).terminate(
        Terminator::Br { target: end.index },
    ).moved_to(right);
    let s7 = store(s6, Value::ConstInt { ty: LLVMType::Int32, bits: 2 }, cell).terminate(
        Terminator::Br { target: end.index },
    ).moved_to(end);
    let (s8, loaded) = load(s7, llvm_type, cell, Seq::empty());
    s8.terminate(Terminator::Ret { value: loaded })
}

/// Builds, from the cursor on, a test on `llvm_bool` with two arms: a cell
/// gets 1 in the left block and 2 in the right one, and the end block
/// returns the cell's content as a `llvm_type`.
pub fn create_if_else_test(lc: &mut LLVMCreator, llvm_type: LLVMType, main: Value, llvm_bool: Value)
    requires
        main is Function,
        old(lc)@.positioned(),
        old(lc)@.here() == main->Function_index,
    ensures
        final(lc)@ == if_else_test(old(lc)@, llvm_type, main, llvm_bool),
{
    proof {
        reveal_strlit("");
    }
    let left_block = append_basic_block_in_context(lc, main, "");
    let right_block = append_basic_block_in_context(lc, main, "");
    let end_block = append_basic_block_in_context(lc, main, "");
    let llvm_value = build_alloca(lc, int32_type(), "");

    build_cond_br(lc, llvm_bool, left_block, right_block);
    build_position_at_end(lc, left_block);
    build_store(lc, const_int(int32_type(), 1), llvm_value);

    build_br(lc, end_block);
    build_position_at_end(lc, right_block);
    build_store(lc, const_int(int32_type(), 2), llvm_value);

    build_br(lc, end_block);
    build_position_at_end(lc, end_block);
    let return_value = build_load(lc, llvm_type, llvm_value, "");
    build_ret(lc, return_value);
    proof {
        assert(""@ =~= Seq::<char>::empty());
    }
}

} // verus!
