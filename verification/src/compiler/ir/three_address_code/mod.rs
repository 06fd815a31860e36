pub mod basicblock;
pub mod function;
pub mod tac;
pub mod tac_kind;
