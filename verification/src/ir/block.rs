use vstd::prelude::*;
use crate::ir::creator::{BlockRef, LLVMCreator, Value};

verus! {

/// Gives `function` one more, empty block, in the creator's own context.
pub fn append_basic_block_in_context(context: &mut LLVMCreator, function: Value, name: &str) -> (block: BlockRef)
    requires
        function is Function,
        function->Function_index < old(context)@.module.functions.len(),
    ensures
        final(context)@ == old(context)@.append_block(function->Function_index as int, name@),
        block == (BlockRef {
            function: function->Function_index,
            index: old(context)@.module.functions[function->Function_index as int].blocks.len() as usize,
        }),
        old(context)@.module.functions[function->Function_index as int].blocks.len() < usize::MAX,
{
    match function {
        Value::Function { index } => context.push_block(index, name),
        _ => BlockRef { function: 0, index: 0 },
    }
}

} // verus!
