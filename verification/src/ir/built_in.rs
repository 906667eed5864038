use vstd::prelude::*;
use crate::ir::creator::{LLVMCreator, Value};
use crate::ir::function::add_function;
use crate::ir::llvm_type::{FunctionTypeView, LLVMType, function_type_var_arg, pointer_type};

verus! {

/// The type of `printf`: it takes an address and any number of further
/// arguments, and returns an address.
pub open spec fn printf_type() -> FunctionTypeView {
    FunctionTypeView {
        return_type: LLVMType::Pointer,
        param_types: seq![LLVMType::Pointer],
        var_arg: true,
    }
}

/// Declares the outside function `printf` in the module.
pub fn create_printf(module: &mut LLVMCreator) -> (printf: Value)
    ensures
        final(module)@ == old(module)@.declare(printf_type(), "printf"@),
        printf == (Value::Function { index: old(module)@.module.functions.len() as usize }),
{
    let mut printf_args_type_list = Vec::new();
    printf_args_type_list.push(pointer_type());
    let printf_type = function_type_var_arg(pointer_type(), printf_args_type_list);
    proof {
        assert(printf_type@.param_types =~= seq![LLVMType::Pointer]);
    }
    add_function(module, printf_type, "printf")
}

} // verus!
