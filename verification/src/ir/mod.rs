pub mod llvm_type;
pub mod creator;
pub mod const_value;
pub mod operate;
pub mod block;
pub mod arithmetic;
pub mod condition;
pub mod function;
pub mod built_in;
pub mod converter;
pub mod machine;
