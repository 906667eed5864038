use vstd::prelude::*;
use crate::ir::creator::Value;
use crate::parser::ast::{LLVMExpressionType, clone_types};

verus! {

/// A function that every program can call without declaring it.
#[derive(Clone, Copy, PartialEq, Eq, Debug, Structural)]
pub enum BuiltIn {
    /// Formatted output.
    Printf,
    /// The length of a sequence.
    Length,
}

/// A function that the program has declared.
#[derive(Debug, PartialEq, Eq)]
pub struct FunctionObject {
    pub name: String,
    pub llvm_value: Value,
    pub return_type: LLVMExpressionType,
    pub param_types: Vec<LLVMExpressionType>,
}

/// What the evaluation of an expression yields, and what a name is bound to.
///
/// The handle of an `Integer` or a `Boolean` is either a value or the
/// address of the storage cell that holds the value. An object that an
/// expression has just yielded holds a value; one that a `let` has bound to
/// a name holds an address.
#[derive(Debug, PartialEq, Eq)]
pub enum Object {
    Integer(Value),
    Boolean(Value),
    Function(FunctionObject),
    BuiltIn(BuiltIn),
    Null,
    Error(String),
}

/// The mathematical value of an [`Object`].
pub ghost enum ObjectView {
    Integer(Value),
    Boolean(Value),
    Function {
        name: Seq<char>,
        llvm_value: Value,
        return_type: LLVMExpressionType,
        param_types: Seq<LLVMExpressionType>,
    },
    BuiltIn(BuiltIn),
    Null,
    Error(Seq<char>),
}

impl View for Object {
    type V = ObjectView;

    open spec fn view(&self) -> ObjectView {
        match self {
            Object::Integer(value) => ObjectView::Integer(*value),
            Object::Boolean(value) => ObjectView::Boolean(*value),
            Object::Function(function) => ObjectView::Function {
                name: function.name@,
                llvm_value: function.llvm_value,
                return_type: function.return_type,
                param_types: function.param_types@,
            },
            Object::BuiltIn(kind) => ObjectView::BuiltIn(*kind),
            Object::Null => ObjectView::Null,
            Object::Error(message) => ObjectView::Error(message@),
        }
    }
}

impl Clone for Object {
    fn clone(&self) -> (copy: Self)
        ensures
            copy@ == self@,
    {
        match self {
            Object::Integer(value) => Object::Integer(*value),
            Object::Boolean(value) => Object::Boolean(*value),
            Object::Function(function) => Object::Function(
                FunctionObject {
                    name: function.name.clone(),
                    llvm_value: function.llvm_value,
                    return_type: function.return_type,
                    param_types: clone_types(&function.param_types),
                },
            ),
            Object::BuiltIn(kind) => Object::BuiltIn(*kind),
            Object::Null => Object::Null,
            Object::Error(message) => Object::Error(message.clone()),
        }
    }
}

impl ObjectView {
    /// Whether the object is an `Integer` or a `Boolean`: the two kinds
    /// that hold a handle.
    pub open spec fn scalar(self) -> bool {
        self is Integer || self is Boolean
    }

    /// The handle that a scalar object holds.
    pub open spec fn handle(self) -> Value {
        match self {
            ObjectView::Integer(value) => value,
            ObjectView::Boolean(value) => value,
            _ => Value::Function { index: 0 },
        }
    }

    /// Whether two objects are of the same kind.
    pub open spec fn same_kind(self, other: ObjectView) -> bool {
        match self {
            ObjectView::Integer(_) => other is Integer,
            ObjectView::Boolean(_) => other is Boolean,
            ObjectView::Function { .. } => other is Function,
            ObjectView::BuiltIn(_) => other is BuiltIn,
            ObjectView::Null => other is Null,
            ObjectView::Error(_) => other is Error,
        }
    }
}

impl Object {
    /// An error object with the message `message`.
    pub fn error(message: &str) -> (object: Object)
        ensures
            object@ == ObjectView::Error(message@),
    {
        Object::Error(message.to_owned())
    }

    /// Whether the object is an `Integer` or a `Boolean`.
    pub fn is_scalar(&self) -> (r: bool)
        ensures
            r == self@.scalar(),
    {
        match self {
            Object::Integer(_) | Object::Boolean(_) => true,
            _ => false,
        }
    }

    /// Whether the object is an error.
    pub fn is_error(&self) -> (r: bool)
        ensures
            r == (self@ is Error),
    {
        match self {
            Object::Error(_) => true,
            _ => false,
        }
    }

    /// Whether the object is `Null`.
    pub fn is_null(&self) -> (r: bool)
        ensures
            r == (self@ is Null),
    {
        match self {
            Object::Null => true,
            _ => false,
        }
    }

    /// Whether two objects are of the same kind.
    pub fn same_kind(&self, other: &Object) -> (r: bool)
        ensures
            r == self@.same_kind(other@),
    {
        match (self, other) {
            (Object::Integer(_), Object::Integer(_)) => true,
            (Object::Boolean(_), Object::Boolean(_)) => true,
            (Object::Function(_), Object::Function(_)) => true,
            (Object::BuiltIn(_), Object::BuiltIn(_)) => true,
            (Object::Null, Object::Null) => true,
            (Object::Error(_), Object::Error(_)) => true,
            _ => false,
        }
    }
}

} // verus!
