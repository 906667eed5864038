use vstd::prelude::*;
use crate::codegen::object::{Object, ObjectView};
use crate::ir::creator::Value;
use crate::ir::llvm_type::{LLVMType, int1_type, int32_type, void_type};
use crate::parser::ast::LLVMExpressionType;

verus! {

/// The type of the cell that holds the value of a scalar object.
pub open spec fn object_type(object: ObjectView) -> LLVMType {
    match object {
        ObjectView::Integer(_) => LLVMType::Int32,
        ObjectView::Boolean(_) => LLVMType::Int1,
        _ => LLVMType::Void,
    }
}

/// The type that stands for a declared type.
pub open spec fn converted(expression_type: LLVMExpressionType) -> LLVMType {
    match expression_type {
        LLVMExpressionType::Integer => LLVMType::Int32,
        LLVMExpressionType::Boolean => LLVMType::Int1,
        LLVMExpressionType::Null => LLVMType::Void,
        LLVMExpressionType::Call => LLVMType::Void,
    }
}

/// The object of the kind that `expression_type` declares, holding `value`.
pub open spec fn wrapped(expression_type: LLVMExpressionType, value: Value) -> ObjectView {
    match expression_type {
        LLVMExpressionType::Integer => ObjectView::Integer(value),
        LLVMExpressionType::Boolean => ObjectView::Boolean(value),
        _ => ObjectView::Null,
    }
}

/// The object of the same kind as `object` that holds `value` in place of
/// the handle of `object`; an object without a handle stays as it is.
pub open spec fn rewrapped(object: ObjectView, value: Value) -> ObjectView {
    match object {
        ObjectView::Integer(_) => ObjectView::Integer(value),
        ObjectView::Boolean(_) => ObjectView::Boolean(value),
        _ => object,
    }
}

/// The type of the cell that holds the value of a scalar object: 32 bits
/// for an `Integer`, one bit for a `Boolean`.
pub fn get_llvm_type_from_object(object: &Object) -> (ty: LLVMType)
    requires
        object@.scalar(),
    ensures
        ty == object_type(object@),
{
    match object {
        Object::Integer(_) => int32_type(),
        Object::Boolean(_) => int1_type(),
        _ => void_type(),
    }
}

/// The type that stands for a declared type: 32 bits for `Integer`, one
/// bit for `Boolean`, `Void` for the others.
pub fn convert_llvm_type(expression_type: LLVMExpressionType) -> (ty: LLVMType)
    ensures
        ty == converted(expression_type),
{
    match expression_type {
        LLVMExpressionType::Integer => int32_type(),
        LLVMExpressionType::Boolean => int1_type(),
        LLVMExpressionType::Null => void_type(),
        LLVMExpressionType::Call => void_type(),
    }
}

/// The handle that a scalar object holds.
pub fn unwrap_object(object: &Object) -> (value: Value)
    requires
        object@.scalar(),
    ensures
        value == object@.handle(),
{
    match object {
        Object::Integer(llvm_value) => *llvm_value,
        Object::Boolean(llvm_value) => *llvm_value,
        _ => Value::Function { index: 0 },
    }
}

/// The object of the kind that `expression_type` declares, holding
/// `llvm_value`; `Null` for a type that is neither `Integer` nor `Boolean`.
pub fn wrap_llvm_value(expression_type: LLVMExpressionType, llvm_value: Value) -> (object: Object)
    ensures
        object@ == wrapped(expression_type, llvm_value),
{
    match expression_type {
        LLVMExpressionType::Integer => Object::Integer(llvm_value),
        LLVMExpressionType::Boolean => Object::Boolean(llvm_value),
        _ => Object::Null,
    }
}

/// The object of the same kind as `object` that holds `llvm_value_ref` in
/// place of the handle of `object`; an object without a handle comes back
/// as it is.
pub fn rewrap_llvm_value_ref(object: Object, llvm_value_ref: Value) -> (rewrapped_object: Object)
    ensures
        rewrapped_object@ == rewrapped(object@, llvm_value_ref),
{
    match object {
        Object::Integer(_) => Object::Integer(llvm_value_ref),
        Object::Boolean(_) => Object::Boolean(llvm_value_ref),
        _ => object,
    }
}

} // verus!
