use vstd::prelude::*;

use crate::compiler::ir::arch::x64::function::X64Function;

verus! {

/// The x86_64 back end: it works on functions of x86_64 instructions.
pub struct X64Optimizer {
    pub functions: Vec<X64Function>,
}

impl X64Optimizer {
    /// An optimizer over `functions`.
    pub fn new(functions: Vec<X64Function>) -> (o: Self)
        ensures
            o.functions == functions,
    {
        Self { functions }
    }
}

} // verus!
