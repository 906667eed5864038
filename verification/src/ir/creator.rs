//! The module under construction and the builder's cursor into it.
use vstd::prelude::*;
use crate::ir::llvm_type::{FunctionType, FunctionTypeView, LLVMType};

verus! {

/// A handle to a value of the intermediate representation.
#[derive(Clone, Copy, PartialEq, Eq, Debug, Structural)]
pub enum Value {
    /// An integer constant of type `ty`: `bits` taken modulo the type's size.
    ConstInt { ty: LLVMType, bits: u64 },
    /// What instruction number `index` of function number `function` yields.
    Register { function: usize, index: usize },
    /// Parameter number `index` of function number `function`.
    Param { function: usize, index: usize },
    /// Function number `index` of the module.
    Function { index: usize },
}

/// A handle to a basic block: block number `index` of function number
/// `function`.
#[derive(Clone, Copy, PartialEq, Eq, Debug, Structural)]
pub struct BlockRef {
    pub function: usize,
    pub index: usize,
}

#[derive(Clone, Copy, PartialEq, Eq, Debug, Structural)]
pub enum BinaryOp {
    Add,
    Sub,
    Mul,
    URem,
    UDiv,
}

#[derive(Clone, Copy, PartialEq, Eq, Debug, Structural)]
pub enum IntPredicate {
    Eq,
    Ne,
    Ugt,
    Uge,
    Ult,
    Ule,
    Sgt,
    Sge,
    Slt,
    Sle,
}

/// An instruction inside a basic block. `dest` is the number of the
/// register that receives the result.
#[derive(Clone, Copy, PartialEq, Eq, Debug, Structural)]
pub enum Instruction {
    /// Reserves a fresh storage cell for a value of type `ty`.
    Alloca { dest: usize, ty: LLVMType },
    /// Writes `value` to the cell at `target`.
    Store { value: Value, target: Value },
    /// Reads a value of type `ty` from the cell at `source`.
    Load { dest: usize, ty: LLVMType, source: Value },
    Binary { dest: usize, op: BinaryOp, left: Value, right: Value },
    Compare { dest: usize, predicate: IntPredicate, left: Value, right: Value },
    /// Calls `callee` with `arg_count` arguments, which stand in the
    /// function's argument pool from position `first_arg` on.
    Call { dest: usize, callee: Value, first_arg: usize, arg_count: usize },
}

/// The instruction that ends a basic block.
#[derive(Clone, Copy, PartialEq, Eq, Debug, Structural)]
pub enum Terminator {
    Br { target: usize },
    CondBr { condition: Value, then_block: usize, else_block: usize },
    Ret { value: Value },
    RetVoid,
}

/// The type and the name of an instruction's result.
#[derive(Debug, PartialEq, Eq)]
pub struct Register {
    pub ty: LLVMType,
    pub name: String,
}

#[derive(Debug, PartialEq, Eq)]
pub struct BasicBlock {
    pub name: String,
    pub instructions: Vec<Instruction>,
    pub terminator: Option<Terminator>,
}

#[derive(Debug, PartialEq, Eq)]
pub struct Function {
    pub name: String,
    pub ty: FunctionType,
    pub blocks: Vec<BasicBlock>,
    pub registers: Vec<Register>,
    pub call_args: Vec<Value>,
}

#[derive(Debug, PartialEq, Eq)]
pub struct Module {
    pub name: String,
    pub functions: Vec<Function>,
}

/// A module under construction, and the place in it where the next
/// instruction goes.
#[derive(Debug, PartialEq, Eq)]
pub struct LLVMCreator {
    pub module: Module,
    pub cursor: Option<BlockRef>,
}

pub ghost struct RegisterView {
    pub ty: LLVMType,
    pub name: Seq<char>,
}

pub ghost struct BlockView {
    pub name: Seq<char>,
    pub instructions: Seq<Instruction>,
    pub terminator: Option<Terminator>,
}

pub ghost struct FunctionView {
    pub name: Seq<char>,
    pub ty: FunctionTypeView,
    pub blocks: Seq<BlockView>,
    pub registers: Seq<RegisterView>,
    pub call_args: Seq<Value>,
}

pub ghost struct ModuleView {
    pub name: Seq<char>,
    pub functions: Seq<FunctionView>,
}

/// The mathematical value of an [`LLVMCreator`].
pub ghost struct CreatorView {
    pub module: ModuleView,
    pub cursor: Option<BlockRef>,
}

impl View for Register {
    type V = RegisterView;

    open spec fn view(&self) -> RegisterView {
        RegisterView { ty: self.ty, name: self.name@ }
    }
}

impl View for BasicBlock {
    type V = BlockView;

    open spec fn view(&self) -> BlockView {
        BlockView {
            name: self.name@,
            instructions: self.instructions@,
            terminator: self.terminator,
        }
    }
}

impl View for Function {
    type V = FunctionView;

    open spec fn view(&self) -> FunctionView {
        FunctionView {
            name: self.name@,
            ty: self.ty@,
            blocks: Seq::new(self.blocks.len() as nat, |i: int| self.blocks[i]@),
            registers: Seq::new(self.registers.len() as nat, |i: int| self.registers[i]@),
            call_args: self.call_args@,
        }
    }
}

impl View for Module {
    type V = ModuleView;

    open spec fn view(&self) -> ModuleView {
        ModuleView {
            name: self.name@,
            functions: Seq::new(self.functions.len() as nat, |i: int| self.functions[i]@),
        }
    }
}

impl View for LLVMCreator {
    type V = CreatorView;

    open spec fn view(&self) -> CreatorView {
        CreatorView { module: self.module@, cursor: self.cursor }
    }
}

impl ModuleView {
    /// Whether `block` names a block of the module.
    pub open spec fn has_block(self, block: BlockRef) -> bool {
        block.function < self.functions.len() && block.index < self.functions[block.function as int].blocks.len()
    }

    /// The block that a handle names.
    pub open spec fn block(self, block: BlockRef) -> BlockView {
        self.functions[block.function as int].blocks[block.index as int]
    }

    /// The module with function number `f` replaced.
    pub open spec fn with_function(self, f: int, function: FunctionView) -> ModuleView {
        ModuleView { functions: self.functions.update(f, function), ..self }
    }

    /// The module with one block replaced.
    pub open spec fn with_block(self, at: BlockRef, block: BlockView) -> ModuleView {
        let f = at.function as int;
        self.with_function(
            f,
            FunctionView {
                blocks: self.functions[f].blocks.update(at.index as int, block),
                ..self.functions[f]
            },
        )
    }

    /// The type of the value that a handle stands for; `Void` where the
    /// handle names nothing in the module.
    pub open spec fn type_of(self, value: Value) -> LLVMType {
        match value {
            Value::ConstInt { ty, .. } => ty,
            Value::Register { function, index } => if function < self.functions.len() && index
                < self.functions[function as int].registers.len() {
                self.functions[function as int].registers[index as int].ty
            } else {
                LLVMType::Void
            },
            Value::Param { function, index } => if function < self.functions.len() && index
                < self.functions[function as int].ty.param_types.len() {
                self.functions[function as int].ty.param_types[index as int]
            } else {
                LLVMType::Void
            },
            Value::Function { index } => if index < self.functions.len() {
                LLVMType::Pointer
            } else {
                LLVMType::Void
            },
        }
    }
}

impl CreatorView {
    /// Whether the cursor stands at a block of the module.
    pub open spec fn positioned(self) -> bool {
        self.cursor is Some && self.module.has_block(self.cursor.unwrap())
    }

    /// Whether the cursor stands at a block that has no terminator yet, so
    /// that instructions can go there.
    pub open spec fn open(self) -> bool {
        self.positioned() && self.module.block(self.cursor.unwrap()).terminator is None
    }

    /// The number of the function that the cursor stands in.
    pub open spec fn here(self) -> int {
        self.cursor.unwrap().function as int
    }

    /// The function that the cursor stands in.
    pub open spec fn current_function(self) -> FunctionView {
        self.module.functions[self.here()]
    }

    /// The block that the cursor stands at.
    pub open spec fn current_block(self) -> BlockView {
        self.module.block(self.cursor.unwrap())
    }

    /// The handle of the register that the next `define` makes.
    pub open spec fn next_register(self) -> Value {
        Value::Register {
            function: self.cursor.unwrap().function,
            index: self.current_function().registers.len() as usize,
        }
    }

    /// The state after `inst` has gone to the end of the cursor's block.
    pub open spec fn emit(self, inst: Instruction) -> CreatorView {
        let block = self.current_block();
        CreatorView {
            module: self.module.with_block(
                self.cursor.unwrap(),
                BlockView { instructions: block.instructions.push(inst), ..block },
            ),
            ..self
        }
    }

    /// The state after the cursor's function has got one more register.
    pub open spec fn define(self, ty: LLVMType, name: Seq<char>) -> CreatorView {
        let function = self.current_function();
        CreatorView {
            module: self.module.with_function(
                self.here(),
                FunctionView {
                    registers: function.registers.push(RegisterView { ty, name }),
                    ..function
                },
            ),
            ..self
        }
    }

    /// The state after `args` have gone to the end of the argument pool of
    /// the cursor's function.
    pub open spec fn pool(self, args: Seq<Value>) -> CreatorView {
        let function = self.current_function();
        CreatorView {
            module: self.module.with_function(
                self.here(),
                FunctionView { call_args: function.call_args + args, ..function },
            ),
            ..self
        }
    }

    /// The state after the cursor's block has been ended by `terminator`.
    pub open spec fn terminate(self, terminator: Terminator) -> CreatorView {
        let block = self.current_block();
        CreatorView {
            module: self.module.with_block(
                self.cursor.unwrap(),
                BlockView { terminator: Some(terminator), ..block },
            ),
            ..self
        }
    }

    /// The state after function number `f` has got one more, empty block.
    pub open spec fn append_block(self, f: int, name: Seq<char>) -> CreatorView {
        let function = self.module.functions[f];
        CreatorView {
            module: self.module.with_function(
                f,
                FunctionView {
                    blocks: function.blocks.push(
                        BlockView { name, instructions: Seq::empty(), terminator: None },
                    ),
                    ..function
                },
            ),
            ..self
        }
    }

    /// The state after the module has got one more function, without blocks.
    pub open spec fn declare(self, ty: FunctionTypeView, name: Seq<char>) -> CreatorView {
        CreatorView {
            module: ModuleView {
                functions: self.module.functions.push(
                    FunctionView {
                        name,
                        ty,
                        blocks: Seq::empty(),
                        registers: Seq::empty(),
                        call_args: Seq::empty(),
                    },
                ),
                ..self.module
            },
            ..self
        }
    }

    /// The state after the cursor has moved to `block`.
    pub open spec fn moved_to(self, block: BlockRef) -> CreatorView {
        CreatorView { cursor: Some(block), ..self }
    }
}

/// The state of a fresh creator: a module that holds nothing but the
/// declaration of `printf`, and no cursor.
pub open spec fn fresh(name: Seq<char>) -> CreatorView {
    CreatorView {
        module: ModuleView {
            name,
            functions: seq![
                FunctionView {
                    name: "printf"@,
                    ty: FunctionTypeView {
                        return_type: LLVMType::Pointer,
                        param_types: seq![LLVMType::Pointer],
                        var_arg: true,
                    },
                    blocks: Seq::empty(),
                    registers: Seq::empty(),
                    call_args: Seq::empty(),
                },
            ],
        },
        cursor: None,
    }
}

impl LLVMCreator {
    /// A creator for a new module called `name`, in which the built-in
    /// function `printf` is declared.
    pub fn new(name: &str) -> (lc: Self)
        ensures
            lc@ == fresh(name@),
    {
        let mut params: Vec<LLVMType> = Vec::new();
        params.push(LLVMType::Pointer);
        let mut lc = LLVMCreator {
            module: Module { name: name.to_owned(), functions: Vec::new() },
            cursor: None,
        };
        lc.push_function(
            FunctionType { return_type: LLVMType::Pointer, param_types: params, var_arg: true },
            "printf",
        );
        proof {
            assert(lc@.module.functions[0].ty.param_types =~= seq![LLVMType::Pointer]);
            assert(lc@.module.functions =~= fresh(name@).module.functions);
        }
        lc
    }

    /// The type of the value that a handle stands for; `Void` where the
    /// handle names nothing in the module.
    pub fn type_of(&self, value: Value) -> (ty: LLVMType)
        ensures
            ty == self@.module.type_of(value),
    {
        match value {
            Value::ConstInt { ty, .. } => ty,
            Value::Register { function, index } => {
                if function < self.module.functions.len() && index
                    < self.module.functions[function].registers.len() {
                    self.module.functions[function].registers[index].ty
                } else {
                    LLVMType::Void
                }
            },
            Value::Param { function, index } => {
                if function < self.module.functions.len() && index
                    < self.module.functions[function].ty.param_types.len() {
                    self.module.functions[function].ty.param_types[index]
                } else {
                    LLVMType::Void
                }
            },
            Value::Function { index } => {
                if index < self.module.functions.len() {
                    LLVMType::Pointer
                } else {
                    LLVMType::Void
                }
            },
        }
    }

    /// Whether the cursor stands at a block without a terminator.
    pub fn is_open(&self) -> (open: bool)
        ensures
            open == self@.open(),
    {
        match self.cursor {
            Some(at) => {
                at.function < self.module.functions.len() && at.index
                    < self.module.functions[at.function].blocks.len()
                    && self.module.functions[at.function].blocks[at.index].terminator.is_none()
            },
            None => false,
        }
    }

    /// Puts `inst` at the end of the cursor's block.
    pub fn push_instruction(&mut self, inst: Instruction)
        requires
            old(self)@.positioned(),
        ensures
            final(self)@ == old(self)@.emit(inst),
    {
        let at = self.cursor.unwrap();
        self.module.functions[at.function].blocks[at.index].instructions.push(inst);
        proof {
            let f = at.function as int;
            let b = at.index as int;
            let before = old(self)@;
            let after = self@;
            let want = before.emit(inst);
            assert(after.module.functions[f].blocks[b] == want.module.functions[f].blocks[b]);
            assert(after.module.functions[f].blocks =~= want.module.functions[f].blocks);
            assert(after.module.functions[f].registers =~= want.module.functions[f].registers);
            assert(after.module.functions[f] == want.module.functions[f]);
            assert(after.module.functions =~= want.module.functions);
        }
    }

    /// Gives the cursor's function one more register and returns its handle.
    pub fn new_register(&mut self, ty: LLVMType, name: &str) -> (value: Value)
        requires
            old(self)@.positioned(),
        ensures
            final(self)@ == old(self)@.define(ty, name@),
            value == old(self)@.next_register(),
    {
        let at = self.cursor.unwrap();
        let index = self.module.functions[at.function].registers.len();
        self.module.functions[at.function].registers.push(
            Register { ty, name: name.to_owned() },
        );
        proof {
            let f = at.function as int;
            let before = old(self)@;
            let after = self@;
            let want = before.define(ty, name@);
            assert(after.module.functions[f].blocks =~= want.module.functions[f].blocks);
            assert(after.module.functions[f].registers =~= want.module.functions[f].registers);
            assert(after.module.functions[f] == want.module.functions[f]);
            assert(after.module.functions =~= want.module.functions);
        }
        Value::Register { function: at.function, index }
    }

    /// Puts `args` at the end of the argument pool of the cursor's function
    /// and returns the position of the first.
    #[verifier::loop_isolation(false)]
    pub fn push_call_args(&mut self, args: &Vec<Value>) -> (first: usize)
        requires
            old(self)@.positioned(),
        ensures
            final(self)@ == old(self)@.pool(args@),
            first == old(self)@.current_function().call_args.len(),
    {
        let at = self.cursor.unwrap();
        let ghost f = at.function as int;
        let first = self.module.functions[at.function].call_args.len();
        let mut i: usize = 0;
        proof {
            let want = old(self)@.pool(args@.take(0));
            assert(args@.take(0) =~= Seq::empty());
            assert(want.module.functions[f].call_args =~= self@.module.functions[f].call_args);
            assert(want.module.functions[f] == self@.module.functions[f]);
            assert(want.module.functions =~= self@.module.functions);
        }
        while i < args.len()
            invariant
                i <= args.len(),
                self.cursor == Some(at),
                self.module.functions.len() == old(self).module.functions.len(),
                self@ == old(self)@.pool(args@.take(i as int)),
            decreases args.len() - i,
        {
            let ghost previous = self@;
            assert(at.function < self.module.functions.len());
            self.module.functions[at.function].call_args.push(args[i as usize]);
            proof {
                let after = self@;
                let want = old(self)@.pool(args@.take(i + 1));
                assert(args@.take(i + 1) =~= args@.take(i as int).push(args[i as int]));
                assert(previous.module.functions[f].call_args == old(self)@.module.functions[f].call_args
                    + args@.take(i as int));
                assert(after.module.functions[f].call_args == previous.module.functions[f].call_args.push(
                    args[i as int],
                ));
                assert(after.module.functions[f].call_args =~= want.module.functions[f].call_args);
                assert(after.module.functions[f].blocks =~= previous.module.functions[f].blocks);
                assert(after.module.functions[f].registers
                    =~= previous.module.functions[f].registers);
                assert(after.module.functions[f] == want.module.functions[f]);
                assert forall|g: int| 0 <= g < after.module.functions.len() implies
                    after.module.functions[g] == want.module.functions[g] by {
                    if g != f {
                        assert(after.module.functions[g] == previous.module.functions[g]);
                        assert(previous.module.functions[g] == old(self)@.module.functions[g]);
                    }
                }
                assert(after.module.functions =~= want.module.functions);
            }
            i += 1;
        }
        proof {
            assert(args@.take(args.len() as int) =~= args@);
        }
        first
    }

    /// Ends the cursor's block with `terminator`.
    pub fn set_terminator(&mut self, terminator: Terminator)
        requires
            old(self)@.positioned(),
        ensures
            final(self)@ == old(self)@.terminate(terminator),
    {
        let at = self.cursor.unwrap();
        self.module.functions[at.function].blocks[at.index].terminator = Some(terminator);
        proof {
            let f = at.function as int;
            let b = at.index as int;
            let after = self@;
            let want = old(self)@.terminate(terminator);
            assert(after.module.functions[f].blocks[b] == want.module.functions[f].blocks[b]);
            assert(after.module.functions[f].blocks =~= want.module.functions[f].blocks);
            assert(after.module.functions[f].registers =~= want.module.functions[f].registers);
            assert(after.module.functions[f] == want.module.functions[f]);
            assert(after.module.functions =~= want.module.functions);
        }
    }

    /// Gives function number `function` one more, empty block and returns
    /// its handle.
    pub fn push_block(&mut self, function: usize, name: &str) -> (block: BlockRef)
        requires
            function < old(self)@.module.functions.len(),
        ensures
            final(self)@ == old(self)@.append_block(function as int, name@),
            block == (BlockRef {
                function,
                index: old(self)@.module.functions[function as int].blocks.len() as usize,
            }),
            old(self)@.module.functions[function as int].blocks.len() < usize::MAX,
    {
        let index = self.module.functions[function].blocks.len();
        self.module.functions[function].blocks.push(
            BasicBlock { name: name.to_owned(), instructions: Vec::new(), terminator: None },
        );
        proof {
            let f = function as int;
            let after = self@;
            let want = old(self)@.append_block(f, name@);
            assert(self.module.functions[f].blocks.len() == index + 1);
            assert(after.module.functions[f].blocks[index as int].instructions =~= Seq::empty());
            assert(after.module.functions[f].blocks =~= want.module.functions[f].blocks);
            assert(after.module.functions[f].registers =~= want.module.functions[f].registers);
            assert(after.module.functions[f] == want.module.functions[f]);
            assert(after.module.functions =~= want.module.functions);
        }
        BlockRef { function, index }
    }

    /// Gives the module one more function, without blocks, and returns its
    /// handle.
    pub fn push_function(&mut self, ty: FunctionType, name: &str) -> (value: Value)
        ensures
            final(self)@ == old(self)@.declare(ty@, name@),
            value == (Value::Function { index: old(self)@.module.functions.len() as usize }),
    {
        let index = self.module.functions.len();
        self.module.functions.push(
            Function {
                name: name.to_owned(),
                ty,
                blocks: Vec::new(),
                registers: Vec::new(),
                call_args: Vec::new(),
            },
        );
        proof {
            let after = self@;
            let want = old(self)@.declare(ty@, name@);
            assert(after.module.functions[index as int].blocks =~= Seq::empty());
            assert(after.module.functions[index as int].registers =~= Seq::empty());
            assert(after.module.functions[index as int].call_args =~= Seq::empty());
            assert(after.module.functions =~= want.module.functions);
        }
        Value::Function { index }
    }
}

} // verus!
