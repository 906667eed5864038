use vstd::prelude::*;
use crate::ir::creator::{BinaryOp, CreatorView, Instruction, LLVMCreator, Value};
use crate::ir::llvm_type::LLVMType;

verus! {

/// What `op` makes of two values of the integer type `ty`, each taken
/// modulo the type's size. `None` where the type is no integer type, and
/// for a division by zero.
pub open spec fn binary_bits(op: BinaryOp, ty: LLVMType, a: u64, b: u64) -> Option<u64> {
    let m = ty.modulus();
    let x = a as int % m;
    let y = b as int % m;
    if !ty.is_integer() {
        None
    } else {
        match op {
            BinaryOp::Add => Some(((x + y) % m) as u64),
            BinaryOp::Sub => Some(((x + m - y) % m) as u64),
            BinaryOp::Mul => Some(((x * y) % m) as u64),
            BinaryOp::URem => if y == 0 {
                None
            } else {
                Some((x % y) as u64)
            },
            BinaryOp::UDiv => if y == 0 {
                None
            } else {
                Some((x / y) as u64)
            },
        }
    }
}

/// The state and the handle after `op` has been built on `left` and
/// `right`: two constants of one type are folded into a constant where the
/// operation is defined on them, anything else becomes an instruction whose
/// result has the type of `left`.
pub open spec fn binary(
    s: CreatorView,
    op: BinaryOp,
    left: Value,
    right: Value,
    name: Seq<char>,
) -> (CreatorView, Value) {
    if left is ConstInt && right is ConstInt && left->ty == right->ty && binary_bits(
        op,
        left->ty,
        left->bits,
        right->bits,
    ) is Some {
        (
            s,
            Value::ConstInt {
                ty: left->ty,
                bits: binary_bits(op, left->ty, left->bits, right->bits).unwrap(),
            },
        )
    } else {
        let dest = s.next_register();
        (
            s.define(s.module.type_of(left), name).emit(
                Instruction::Binary { dest: dest->Register_index, op, left, right },
            ),
            dest,
        )
    }
}

/// What `op` makes of two values of type `ty`.
pub fn compute_binary(op: BinaryOp, ty: LLVMType, a: u64, b: u64) -> (r: Option<u64>)
    ensures
        r == binary_bits(op, ty, a, b),
{
    if !ty.integer() {
        return None;
    }
    let m = ty.values();
    let x = a % m;
    let y = b % m;
    match op {
        BinaryOp::Add => Some((x + y) % m),
        BinaryOp::Sub => Some((x + m - y) % m),
        BinaryOp::Mul => {
            assert(x * y <= 0xFFFF_FFFF * 0xFFFF_FFFF) by (nonlinear_arith)
                requires
                    0 <= x <= 0xFFFF_FFFF,
                    0 <= y <= 0xFFFF_FFFF,
            ;
            Some((x * y) % m)
        },
        BinaryOp::URem => if y == 0 {
            None
        } else {
            Some(x % y)
        },
        BinaryOp::UDiv => if y == 0 {
            None
        } else {
            Some(x / y)
        },
    }
}

/// Builds `op` on `left` and `right`.
pub fn build_binary(builder: &mut LLVMCreator, op: BinaryOp, left: Value, right: Value, name: &str) -> (result: Value)
    requires
        old(builder)@.positioned(),
    ensures
        (final(builder)@, result) == binary(old(builder)@, op, left, right, name@),
{
    match (left, right) {
        (Value::ConstInt { ty: t1, bits: a }, Value::ConstInt { ty: t2, bits: b }) => {
            if t1 == t2 {
                match compute_binary(op, t1, a, b) {
                    Some(bits) => {
                        return Value::ConstInt { ty: t1, bits };
                    },
                    None => {},
                }
            }
        },
        _ => {},
    }
    let ty = builder.type_of(left);
    let dest = builder.new_register(ty, name);
    match dest {
        Value::Register { index, .. } => {
            builder.push_instruction(Instruction::Binary { dest: index, op, left, right });
        },
        _ => {},
    }
    dest
}

/// Builds the sum of `var_a` and `var_b`.
pub fn add_variable(builder: &mut LLVMCreator, var_a: Value, var_b: Value, name: &str) -> (result: Value)
    requires
        old(builder)@.positioned(),
    ensures
        (final(builder)@, result) == binary(old(builder)@, BinaryOp::Add, var_a, var_b, name@),
{
    build_binary(builder, BinaryOp::Add, var_a, var_b, name)
}

/// Builds the difference of `var_a` and `var_b`.
pub fn sub_variable(builder: &mut LLVMCreator, var_a: Value, var_b: Value, name: &str) -> (result: Value)
    requires
        old(builder)@.positioned(),
    ensures
        (final(builder)@, result) == binary(old(builder)@, BinaryOp::Sub, var_a, var_b, name@),
{
    build_binary(builder, BinaryOp::Sub, var_a, var_b, name)
}

/// Builds the product of `var_a` and `var_b`.
pub fn multiple_variable(builder: &mut LLVMCreator, var_a: Value, var_b: Value, name: &str) -> (result: Value)
    requires
        old(builder)@.positioned(),
    ensures
        (final(builder)@, result) == binary(old(builder)@, BinaryOp::Mul, var_a, var_b, name@),
{
    build_binary(builder, BinaryOp::Mul, var_a, var_b, name)
}

/// Builds the unsigned remainder of `var_a` by `var_b`.
pub fn rem_variable(builder: &mut LLVMCreator, var_a: Value, var_b: Value, name: &str) -> (result: Value)
    requires
        old(builder)@.positioned(),
    ensures
        (final(builder)@, result) == binary(old(builder)@, BinaryOp::URem, var_a, var_b, name@),
{
    build_binary(builder, BinaryOp::URem, var_a, var_b, name)
}

/// Builds the unsigned quotient of `var_a` by `var_b`.
pub fn divide_variable(builder: &mut LLVMCreator, var_a: Value, var_b: Value, name: &str) -> (result: Value)
    requires
        old(builder)@.positioned(),
    ensures
        (final(builder)@, result) == binary(old(builder)@, BinaryOp::UDiv, var_a, var_b, name@),
{
    build_binary(builder, BinaryOp::UDiv, var_a, var_b, name)
}

} // verus!
