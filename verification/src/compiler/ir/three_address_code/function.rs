use vstd::prelude::*;

use crate::compiler::ir::three_address_code::basicblock::BasicBlock;

verus! {

/// A function in three-address form: its name, its blocks and the size of
/// its stack frame.
pub struct IRFunction {
    pub name: String,
    pub blocks: Vec<BasicBlock>,
    pub frame_size: usize,
}

impl IRFunction {
    /// A function named `name` with no blocks and an empty frame.
    pub fn new(name: String) -> (f: Self)
        ensures
            f.name == name,
            f.blocks@.len() == 0,
            f.frame_size == 0,
    {
        Self { name, blocks: Vec::new(), frame_size: 0 }
    }
}

} // verus!
