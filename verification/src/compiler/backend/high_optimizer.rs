use vstd::prelude::*;

use crate::compiler::ir::three_address_code::function::IRFunction;

verus! {

/// The machine-independent back end: it works on the functions in
/// three-address form.
pub struct HighOptimizer {
    pub functions: Vec<IRFunction>,
}

impl HighOptimizer {
    /// An optimizer over `functions`.
    pub fn new(functions: Vec<IRFunction>) -> (h: Self)
        ensures
            h.functions == functions,
    {
        Self { functions }
    }
}

} // verus!
