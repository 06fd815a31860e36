use std::collections::BTreeMap;
use vstd::prelude::*;

use crate::compiler::backend::cfg::ControlFlowGraphInBB;
use crate::compiler::ir::three_address_code::tac::ThreeAddressCode;

verus! {

/// A virtual register number.
pub type RegisterNumber = usize;

/// The instruction index where a register's live range starts.
pub type LiveIn = usize;

/// The instruction index where a register's live range ends.
pub type LiveOut = usize;

/// A basic block: its label, its instructions, the live range of each
/// register it defines, and its instruction-level control-flow graph.
pub struct BasicBlock {
    pub label: String,
    pub tacs: Vec<ThreeAddressCode>,
    pub living: BTreeMap<RegisterNumber, (LiveIn, LiveOut)>,
    pub cfg_inbb: ControlFlowGraphInBB,
}

impl BasicBlock {
    /// An empty block named `label`.
    pub fn new(label: String) -> (b: Self)
        ensures
            b.label == label,
            b.tacs@.len() == 0,
            b.living@ == Map::<usize, (usize, usize)>::empty(),
            b.cfg_inbb.wf(0),
    {
        Self {
            label,
            tacs: Vec::new(),
            living: BTreeMap::new(),
            cfg_inbb: ControlFlowGraphInBB::new(0),
        }
    }
}

} // verus!
