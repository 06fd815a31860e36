use vstd::prelude::*;

use crate::compiler::ir::arch::x64::ir::X64IR;

verus! {

/// A basic block of x86_64 instructions.
pub struct X64BasicBlock {
    pub label: String,
    pub irs: Vec<X64IR>,
}

impl X64BasicBlock {
    /// A block named `label` holding `irs`.
    pub fn new(label: String, irs: Vec<X64IR>) -> (b: Self)
        ensures
            b.label == label,
            b.irs == irs,
    {
        Self { label, irs }
    }
}

} // verus!
