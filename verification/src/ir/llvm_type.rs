use vstd::prelude::*;

verus! {

/// The type of a value of the intermediate representation.
#[derive(Clone, Copy, PartialEq, Eq, Debug, Structural)]
pub enum LLVMType {
    /// No value at all.
    Void,
    /// A one-bit integer: a truth value.
    Int1,
    /// A 32-bit integer.
    Int32,
    /// The address of a storage cell or of a function.
    Pointer,
}

/// The type of a function: what it returns and what it takes.
#[derive(Debug, PartialEq, Eq)]
pub struct FunctionType {
    pub return_type: LLVMType,
    pub param_types: Vec<LLVMType>,
    pub var_arg: bool,
}

/// The mathematical value of a [`FunctionType`].
pub ghost struct FunctionTypeView {
    pub return_type: LLVMType,
    pub param_types: Seq<LLVMType>,
    pub var_arg: bool,
}

impl View for FunctionType {
    type V = FunctionTypeView;

    open spec fn view(&self) -> FunctionTypeView {
        FunctionTypeView {
            return_type: self.return_type,
            param_types: self.param_types@,
            var_arg: self.var_arg,
        }
    }
}

impl Clone for FunctionType {
    fn clone(&self) -> (copy: Self)
        ensures
            copy@ == self@,
    {
        let mut params: Vec<LLVMType> = Vec::new();
        let mut i: usize = 0;
        while i < self.param_types.len()
            invariant
                i <= self.param_types.len(),
                params.len() == i,
                forall|j: int| 0 <= j < i ==> params[j] == self.param_types[j],
            decreases self.param_types.len() - i,
        {
            params.push(self.param_types[i]);
            i += 1;
        }
        assert(params@ =~= self.param_types@);
        FunctionType { return_type: self.return_type, param_types: params, var_arg: self.var_arg }
    }
}

impl LLVMType {
    /// Whether values of the type are integers.
    pub open spec fn is_integer(self) -> bool {
        self == LLVMType::Int1 || self == LLVMType::Int32
    }

    /// The number of values of an integer type; 1 for the other types.
    pub open spec fn modulus(self) -> int {
        match self {
            LLVMType::Int1 => 2,
            LLVMType::Int32 => 0x1_0000_0000,
            _ => 1,
        }
    }

    /// Whether values of the type are integers.
    pub fn integer(self) -> (r: bool)
        ensures
            r == self.is_integer(),
    {
        match self {
            LLVMType::Int1 | LLVMType::Int32 => true,
            _ => false,
        }
    }

    /// The number of values of an integer type; 1 for the other types.
    pub fn values(self) -> (r: u64)
        ensures
            r == self.modulus(),
    {
        match self {
            LLVMType::Int1 => 2,
            LLVMType::Int32 => 0x1_0000_0000,
            _ => 1,
        }
    }
}

/// The type of 32-bit integers.
pub fn int32_type() -> (ty: LLVMType)
    ensures
        ty == LLVMType::Int32,
{
    LLVMType::Int32
}

/// The type of truth values.
pub fn int1_type() -> (ty: LLVMType)
    ensures
        ty == LLVMType::Int1,
{
    LLVMType::Int1
}

/// The type without values.
pub fn void_type() -> (ty: LLVMType)
    ensures
        ty == LLVMType::Void,
{
    LLVMType::Void
}

/// The type of addresses.
pub fn pointer_type() -> (ty: LLVMType)
    ensures
        ty == LLVMType::Pointer,
{
    LLVMType::Pointer
}

/// The type of a function that takes exactly `param_types`.
pub fn function_type(return_type: LLVMType, param_types: Vec<LLVMType>) -> (ty: FunctionType)
    ensures
        ty@ == (FunctionTypeView { return_type, param_types: param_types@, var_arg: false }),
{
    FunctionType { return_type, param_types, var_arg: false }
}

/// The type of a function that takes `param_types` and any number of
/// further arguments.
pub fn function_type_var_arg(return_type: LLVMType, param_types: Vec<LLVMType>) -> (ty:
    FunctionType)
    ensures
        ty@ == (FunctionTypeView { return_type, param_types: param_types@, var_arg: true }),
{
    FunctionType { return_type, param_types, var_arg: true }
}

} // verus!
