pub mod access;
pub mod cast_inst;
pub mod meaning;
pub mod order;
pub mod plan;
pub mod symbols;

pub use cast_inst::{gen_cast_llvm_instruction, CastOpcode};
