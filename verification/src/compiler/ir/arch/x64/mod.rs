pub mod basicblock;
pub mod function;
pub mod ir;
pub mod ir_kind;
