use vstd::prelude::*;
use crate::ir::creator::Value;

verus! {

/// The functions that are being generated, the innermost last.
#[derive(Debug, PartialEq, Eq)]
pub struct FunctionStack {
    stack: Vec<Value>,
}

impl View for FunctionStack {
    type V = Seq<Value>;

    closed spec fn view(&self) -> Seq<Value> {
        self.stack@
    }
}

impl FunctionStack {
    /// A stack that holds `main_function` alone.
    pub fn new(main_function: Value) -> (stack: Self)
        ensures
            stack@ == seq![main_function],
    {
        let mut stack = Vec::new();
        stack.push(main_function);
        FunctionStack { stack }
    }

    /// Enters `function`.
    pub fn push(&mut self, function: Value)
        ensures
            final(self)@ == old(self)@.push(function),
    {
        self.stack.push(function);
    }

    /// Leaves the innermost function and returns it; `None` on an empty
    /// stack.
    pub fn pop(&mut self) -> (function: Option<Value>)
        ensures
            old(self)@.len() > 0 ==> function == Some(old(self)@.last()) && final(self)@ == old(
                self,
            )@.drop_last(),
            old(self)@.len() == 0 ==> function is None && final(self)@ == old(self)@,
    {
        self.stack.pop()
    }

    /// The innermost function; `None` on an empty stack.
    pub fn last(&self) -> (function: Option<Value>)
        ensures
            function == if self@.len() > 0 {
                Some(self@.last())
            } else {
                None
            },
    {
        if self.stack.len() > 0 {
            Some(self.stack[self.stack.len() - 1])
        } else {
            None
        }
    }

    /// How many functions are being generated.
    pub fn depth(&self) -> (depth: usize)
        ensures
            depth == self@.len(),
    {
        self.stack.len()
    }
}

} // verus!
