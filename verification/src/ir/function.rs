use vstd::prelude::*;
use crate::ir::creator::{BlockRef, CreatorView, Instruction, LLVMCreator, ModuleView, Value};
use crate::ir::llvm_type::{FunctionType, FunctionTypeView, LLVMType, function_type, int32_type};
use crate::ir::operate::{append_basic_block, build_position_at_end};

verus! {

/// The state and the handle after a call of `function` on `args`, whose
/// result has the return type of `func_type`.
pub open spec fn call(
    s: CreatorView,
    func_type: FunctionTypeView,
    function: Value,
    args: Seq<Value>,
    name: Seq<char>,
) -> (CreatorView, Value) {
    let first = s.current_function().call_args.len() as usize;
    let dest = s.next_register();
    (
        s.pool(args).define(func_type.return_type, name).emit(
            Instruction::Call {
                dest: dest->Register_index,
                callee: function,
                first_arg: first,
                arg_count: args.len() as usize,
            },
        ),
        dest,
    )
}

/// The state with one more function, an `entry` block in it, and the
/// cursor at that block.
pub open spec fn with_new_function(s: CreatorView, ty: FunctionTypeView, name: Seq<char>) -> CreatorView {
    let f = s.module.functions.len() as usize;
    s.declare(ty, name).append_block(f as int, "entry"@).moved_to(BlockRef { function: f, index: 0 })
}

/// The number of the first function of the module, from number `from` on,
/// that is called `name`; the number of functions where there is none.
pub open spec fn first_named(m: ModuleView, name: Seq<char>, from: int) -> int
    decreases m.functions.len() - from,
{
    if from < 0 || from >= m.functions.len() {
        m.functions.len() as int
    } else if m.functions[from].name == name {
        from
    } else {
        first_named(m, name, from + 1)
    }
}

/// Gives the module one more function, without blocks.
pub fn add_function(target_module: &mut LLVMCreator, function_type: FunctionType, name: &str) -> (function: Value)
    ensures
        final(target_module)@ == old(target_module)@.declare(function_type@, name@),
        function == (Value::Function { index: old(target_module)@.module.functions.len() as usize }),
{
    target_module.push_function(function_type, name)
}

/// Builds a call of `function` on `args`.
pub fn call_function(builder: &mut LLVMCreator, func_type: &FunctionType, function: Value, args: Vec<Value>, name: &str) -> (result: Value)
    requires
        old(builder)@.positioned(),
    ensures
        (final(builder)@, result) == call(old(builder)@, func_type@, function, args@, name@),
{
    let first = builder.push_call_args(&args);
    let dest = builder.new_register(func_type.return_type, name);
    match dest {
        Value::Register { index, .. } => {
            builder.push_instruction(
                Instruction::Call {
                    dest: index,
                    callee: function,
                    first_arg: first,
                    arg_count: args.len(),
                },
            );
        },
        _ => {},
    }
    dest
}

/// The handle of parameter number `arg_index` of `target_func`.
pub fn get_param(target_func: Value, arg_index: u32) -> (param: Value)
    requires
        target_func is Function,
    ensures
        param == (Value::Param {
            function: target_func->Function_index,
            index: arg_index as usize,
        }),
{
    match target_func {
        Value::Function { index } => Value::Param { function: index, index: arg_index as usize },
        _ => target_func,
    }
}

/// Gives the module one more function, without a name, with an `entry`
/// block, and moves the cursor to that block.
pub fn create_function(lc: &mut LLVMCreator, fn_type: FunctionType) -> (made: (Value, BlockRef))
    ensures
        final(lc)@ == with_new_function(old(lc)@, fn_type@, Seq::empty()),
        made.0 == (Value::Function { index: old(lc)@.module.functions.len() as usize }),
        made.1 == (BlockRef { function: old(lc)@.module.functions.len() as usize, index: 0 }),
{
    proof {
        reveal_strlit("");
        assert(""@ =~= Seq::<char>::empty());
    }
    let function = add_function(lc, fn_type, "");
    let block = append_basic_block(lc, function, "entry");
    build_position_at_end(lc, block);
    (function, block)
}

/// Gives the module the function `main`, which takes nothing and returns a
/// 32-bit integer, with an `entry` block, and moves the cursor to that
/// block.
pub fn setup_main(lc: &mut LLVMCreator) -> (main: Value)
    ensures
        final(lc)@ == with_new_function(
            old(lc)@,
            FunctionTypeView {
                return_type: LLVMType::Int32,
                param_types: Seq::empty(),
                var_arg: false,
            },
            "main"@,
        ),
        main == (Value::Function { index: old(lc)@.module.functions.len() as usize }),
{
    let function = add_function(lc, function_type(int32_type(), Vec::new()), "main");
    let block = append_basic_block(lc, function, "entry");
    build_position_at_end(lc, block);
    function
}

/// The first function of the module that is called `name`.
pub fn get_named_function(module: &LLVMCreator, name: &str) -> (function: Option<Value>)
    ensures
        function == if first_named(module@.module, name@, 0) < module@.module.functions.len() {
            Some(Value::Function { index: first_named(module@.module, name@, 0) as usize })
        } else {
            None
        },
        0 <= first_named(module@.module, name@, 0) <= module@.module.functions.len(),
{
    let wanted = name.to_owned();
    let mut i: usize = 0;
    while i < module.module.functions.len()
        invariant
            i <= module.module.functions.len(),
            wanted@ == name@,
            first_named(module@.module, name@, 0) == first_named(module@.module, name@, i as int),
        decreases module.module.functions.len() - i,
    {
        if module.module.functions[i].name == wanted {
            return Some(Value::Function { index: i });
        }
        i += 1;
    }
    None
}

} // verus!
