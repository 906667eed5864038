use vstd::prelude::*;
use crate::ir::creator::Value;
use crate::ir::llvm_type::LLVMType;

verus! {

/// The bits of `value` that a constant of type `ty` keeps.
pub open spec fn truncated(ty: LLVMType, value: int) -> u64 {
    (value % ty.modulus()) as u64
}

/// The integer constant of type `ty` with the value `value`, reduced to the
/// width of the type.
pub fn const_int(llvm_type: LLVMType, value: u64) -> (constant: Value)
    ensures
        constant == (Value::ConstInt { ty: llvm_type, bits: truncated(llvm_type, value as int) }),
{
    Value::ConstInt { ty: llvm_type, bits: value % llvm_type.values() }
}

/// The integer constant of type `ty` with the value `value`, reduced to the
/// width of the type; no sign is extended.
pub fn const_int_signed(llvm_type: LLVMType, value: u64) -> (constant: Value)
    ensures
        constant == (Value::ConstInt { ty: llvm_type, bits: truncated(llvm_type, value as int) }),
{
    Value::ConstInt { ty: llvm_type, bits: value % llvm_type.values() }
}

/// The constant that is the negation of an integer constant, in the
/// arithmetic of its type.
pub fn const_neg(value: Value) -> (negated: Value)
    requires
        value is ConstInt,
    ensures
        negated == (Value::ConstInt {
            ty: value->ty,
            bits: truncated(value->ty, -(value->bits as int)),
        }),
{
    match value {
        Value::ConstInt { ty, bits } => {
            let m = ty.values();
            let low = bits % m;
            proof {
                lemma_negation(bits as int, m as int);
            }
            Value::ConstInt { ty, bits: (m - low) % m }
        },
        _ => value,
    }
}

proof fn lemma_negation(x: int, m: int)
    requires
        0 <= x,
        0 < m,
    ensures
        (m - x % m) % m == (-x) % m,
{
    vstd::arithmetic::div_mod::lemma_fundamental_div_mod(x, m);
    let q = x / m;
    let r = x % m;
    assert(-x == m * (-q - 1) + (m - r)) by (nonlinear_arith)
        requires
            x == m * q + r,
    ;
    vstd::arithmetic::div_mod::lemma_mod_multiples_vanish(-q - 1, m - r, m);
}

} // verus!
