use vstd::prelude::*;

pub mod compiler;
pub mod elf;
pub mod error;
pub mod fmt;
pub mod linker;
pub mod regset;
pub mod structure;
pub mod target;
pub mod text;
