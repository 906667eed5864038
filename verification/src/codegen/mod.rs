pub mod object;
pub mod environment;
pub mod stack;
pub mod lowering;
pub mod shape;
pub mod eval;
pub mod soundness;
pub mod theorems;
