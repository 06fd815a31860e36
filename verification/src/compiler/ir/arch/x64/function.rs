use vstd::prelude::*;

use crate::compiler::ir::arch::x64::basicblock::X64BasicBlock;

verus! {

/// A function of x86_64 basic blocks with the size of its stack frame.
pub struct X64Function {
    pub func_name: String,
    pub blocks: Vec<X64BasicBlock>,
    pub frame_size: usize,
}

impl X64Function {
    /// A function named `func_name` with the given blocks and frame size.
    pub fn new(func_name: String, blocks: Vec<X64BasicBlock>, frame_size: usize) -> (f: Self)
        ensures
            f.func_name == func_name,
            f.blocks == blocks,
            f.frame_size == frame_size,
    {
        Self { func_name, blocks, frame_size }
    }
}

} // verus!
