use std::collections::BTreeSet;
use vstd::prelude::*;

use crate::compiler::backend::high_optimizer::HighOptimizer;
use crate::compiler::ir::three_address_code::tac::ThreeAddressCode;
use crate::compiler::ir::three_address_code::tac_kind::TacKind;
use crate::text::str_eq;

verus! {

broadcast use {vstd::std_specs::btree::group_btree_axioms, vstd::laws_cmp::group_laws_cmp};

/// The instruction-level control-flow graph of one basic block, with the
/// registers each instruction uses and defines.
pub struct ControlFlowGraphInBB {
    pub succ: Vec<BTreeSet<usize>>,
    pub prev: Vec<BTreeSet<usize>>,
    pub used: Vec<BTreeSet<usize>>,
    pub def: Vec<BTreeSet<usize>>,
}

/// The contents of a list of sets.
pub open spec fn sets_of(v: Seq<BTreeSet<usize>>) -> Seq<Set<usize>> {
    v.map_values(|s: BTreeSet<usize>| s@)
}

impl ControlFlowGraphInBB {
    /// Every table holds one set per instruction of an `n`-instruction block.
    pub open spec fn wf(&self, n: nat) -> bool {
        &&& self.succ@.len() == n
        &&& self.prev@.len() == n
        &&& self.used@.len() == n
        &&& self.def@.len() == n
    }

    /// The successor, use and definition tables hold at least one set per
    /// instruction of an `n`-instruction block.
    pub open spec fn covers(&self, n: nat) -> bool {
        &&& self.succ@.len() >= n
        &&& self.used@.len() >= n
        &&& self.def@.len() >= n
    }

    /// The use and definition tables hold at least one set per instruction
    /// of an `n`-instruction block.
    pub open spec fn records(&self, n: nat) -> bool {
        &&& self.used@.len() >= n
        &&& self.def@.len() >= n
    }

    /// A graph of `len` instructions with no edges, uses or definitions.
    pub fn new(len: usize) -> (g: Self)
        ensures
            g.wf(len as nat),
            forall|i: int| 0 <= i < len ==> (#[trigger] g.succ@[i])@.is_empty(),
            forall|i: int| 0 <= i < len ==> (#[trigger] g.prev@[i])@.is_empty(),
            forall|i: int| 0 <= i < len ==> (#[trigger] g.used@[i])@.is_empty(),
            forall|i: int| 0 <= i < len ==> (#[trigger] g.def@[i])@.is_empty(),
    {
        Self { succ: empty_sets(len), prev: empty_sets(len), used: empty_sets(len), def: empty_sets(len) }
    }
}

/// `len` empty sets.
pub fn empty_sets(len: usize) -> (v: Vec<BTreeSet<usize>>)
    ensures
        v@.len() == len,
        forall|i: int| 0 <= i < len ==> (#[trigger] v@[i])@.is_empty(),
{
    let mut v: Vec<BTreeSet<usize>> = Vec::new();
    let mut i: usize = 0;
    while i < len
        invariant
            0 <= i <= len,
            v@.len() == i,
            forall|k: int| 0 <= k < i ==> (#[trigger] v@[k])@.is_empty(),
        decreases len - i,
    {
        v.push(BTreeSet::new());
        i = i + 1;
    }
    v
}

/// An optional position as an integer.
pub open spec fn as_index(o: Option<usize>) -> Option<int> {
    match o {
        Some(t) => Some(t as int),
        None => None,
    }
}

/// Whether instruction `i` is an unconditional jump.
pub open spec fn is_goto(tacs: Seq<ThreeAddressCode>, i: int) -> bool {
    tacs[i].kind is GOTO
}

/// The position of the last label `name` among `tacs[..k]`.
pub open spec fn label_index_upto(tacs: Seq<ThreeAddressCode>, name: Seq<char>, k: int) -> Option<int>
    decreases k,
{
    if k <= 0 {
        None
    } else if tacs[k - 1].kind matches TacKind::LABEL(l) && l@ == name {
        Some(k - 1)
    } else {
        label_index_upto(tacs, name, k - 1)
    }
}

/// The position of the last label `name` in the block.
pub open spec fn label_index(tacs: Seq<ThreeAddressCode>, name: Seq<char>) -> Option<int> {
    label_index_upto(tacs, name, tacs.len() as int)
}

/// Where instruction `i` may jump: the label a `goto` or a conditional jump
/// names, when that label is in the block.
pub open spec fn jump_target(tacs: Seq<ThreeAddressCode>, i: int) -> Option<int> {
    match tacs[i].kind {
        TacKind::GOTO(l) => label_index(tacs, l@),
        TacKind::IFF(_, l) => label_index(tacs, l@),
        _ => None,
    }
}

/// The successors of instruction `i`: the next instruction unless `i` is a
/// `goto` or the last one, and its jump target.
pub open spec fn cfg_succ(tacs: Seq<ThreeAddressCode>, i: int) -> Set<usize> {
    let fall = if !is_goto(tacs, i) && i + 1 < tacs.len() {
        set![(i + 1) as usize]
    } else {
        Set::empty()
    };
    match jump_target(tacs, i) {
        Some(t) => fall.insert(t as usize),
        None => fall,
    }
}

/// The predecessors of instruction `j`: the previous instruction unless it is
/// a `goto`, and (except for the first instruction) every instruction that
/// jumps to `j`.
pub open spec fn cfg_prev(tacs: Seq<ThreeAddressCode>, j: int) -> Set<usize> {
    let fall = if j >= 1 && !is_goto(tacs, j - 1) {
        set![(j - 1) as usize]
    } else {
        Set::empty()
    };
    if j == 0 {
        fall
    } else {
        fall.union(
            Set::new(|i: usize| 0 <= i < tacs.len() && jump_target(tacs, i as int) == Some(j)),
        )
    }
}

/// The graph that `build_cfg_with_bb` builds for `tacs`: the edges above, and
/// no uses or definitions yet.
pub open spec fn is_cfg_of(g: ControlFlowGraphInBB, tacs: Seq<ThreeAddressCode>) -> bool {
    &&& g.wf(tacs.len())
    &&& forall|i: int| 0 <= i < tacs.len() ==> (#[trigger] g.succ@[i])@ == cfg_succ(tacs, i)
    &&& forall|i: int| 0 <= i < tacs.len() ==> (#[trigger] g.prev@[i])@ == cfg_prev(tacs, i)
    &&& forall|i: int| 0 <= i < tacs.len() ==> (#[trigger] g.used@[i])@.is_empty()
    &&& forall|i: int| 0 <= i < tacs.len() ==> (#[trigger] g.def@[i])@.is_empty()
}

/// The predecessors of `j` that instructions before `k` contribute.
pub open spec fn cfg_prev_upto(tacs: Seq<ThreeAddressCode>, j: int, k: int) -> Set<usize> {
    let fall = if 1 <= j < k && !is_goto(tacs, j - 1) {
        set![(j - 1) as usize]
    } else {
        Set::empty()
    };
    if j == 0 {
        fall
    } else {
        fall.union(Set::new(|i: usize| 0 <= i < k && jump_target(tacs, i as int) == Some(j)))
    }
}

pub proof fn lemma_label_index_upto_range(tacs: Seq<ThreeAddressCode>, name: Seq<char>, k: int)
    requires
        k <= tacs.len(),
    ensures
        label_index_upto(tacs, name, k) matches Some(i) ==> 0 <= i < k,
    decreases k,
{
    if k > 0 {
        lemma_label_index_upto_range(tacs, name, k - 1);
    }
}

impl HighOptimizer {
    /// Builds the control-flow graph of every block of every function (see
    /// `is_cfg_of`); nothing else changes.
    pub fn build_cfg(&mut self)
        ensures
            final(self).functions@.len() == old(self).functions@.len(),
            forall|f: int|
                #![trigger final(self).functions@[f]]
                0 <= f < final(self).functions@.len() ==> {
                    let nf = final(self).functions@[f];
                    let of = old(self).functions@[f];
                    &&& nf.name == of.name
                    &&& nf.frame_size == of.frame_size
                    &&& nf.blocks@.len() == of.blocks@.len()
                    &&& forall|b: int|
                        #![trigger nf.blocks@[b]]
                        0 <= b < nf.blocks@.len() ==> {
                            &&& nf.blocks@[b].label == of.blocks@[b].label
                            &&& nf.blocks@[b].tacs == of.blocks@[b].tacs
                            &&& nf.blocks@[b].living == of.blocks@[b].living
                            &&& is_cfg_of(nf.blocks@[b].cfg_inbb, of.blocks@[b].tacs@)
                        }
                },
    {
        let function_number = self.functions.len();
        let mut f: usize = 0;
        while f < function_number
            invariant
                function_number == old(self).functions@.len(),
                self.functions@.len() == function_number,
                0 <= f <= function_number,
                forall|k: int| f <= k < function_number ==> #[trigger] self.functions@[k] == old(self).functions@[k],
                forall|k: int|
                    #![trigger self.functions@[k]]
                    0 <= k < f ==> {
                        let nf = self.functions@[k];
                        let of = old(self).functions@[k];
                        &&& nf.name == of.name
                        &&& nf.frame_size == of.frame_size
                        &&& nf.blocks@.len() == of.blocks@.len()
                        &&& forall|b: int|
                            #![trigger nf.blocks@[b]]
                            0 <= b < nf.blocks@.len() ==> {
                                &&& nf.blocks@[b].label == of.blocks@[b].label
                                &&& nf.blocks@[b].tacs == of.blocks@[b].tacs
                                &&& nf.blocks@[b].living == of.blocks@[b].living
                                &&& is_cfg_of(nf.blocks@[b].cfg_inbb, of.blocks@[b].tacs@)
                            }
                    },
            decreases function_number - f,
        {
            let block_number = self.functions[f].blocks.len();
            let ghost of = old(self).functions@[f as int];
            let mut b: usize = 0;
            while b < block_number
                invariant
                    function_number == old(self).functions@.len(),
                    self.functions@.len() == function_number,
                    0 <= f < function_number,
                    of == old(self).functions@[f as int],
                    block_number == of.blocks@.len(),
                    0 <= b <= block_number,
                    forall|k: int| f < k < function_number ==> #[trigger] self.functions@[k] == old(self).functions@[k],
                    forall|k: int|
                        #![trigger self.functions@[k]]
                        0 <= k < f ==> {
                            let nf = self.functions@[k];
                            let of = old(self).functions@[k];
                            &&& nf.name == of.name
                            &&& nf.frame_size == of.frame_size
                            &&& nf.blocks@.len() == of.blocks@.len()
                            &&& forall|b: int|
                                #![trigger nf.blocks@[b]]
                                0 <= b < nf.blocks@.len() ==> {
                                    &&& nf.blocks@[b].label == of.blocks@[b].label
                                    &&& nf.blocks@[b].tacs == of.blocks@[b].tacs
                                    &&& nf.blocks@[b].living == of.blocks@[b].living
                                    &&& is_cfg_of(nf.blocks@[b].cfg_inbb, of.blocks@[b].tacs@)
                                }
                        },
                    self.functions@[f as int].name == of.name,
                    self.functions@[f as int].frame_size == of.frame_size,
                    self.functions@[f as int].blocks@.len() == block_number,
                    forall|k: int| b <= k < block_number ==> #[trigger] self.functions@[f as int].blocks@[k] == of.blocks@[k],
                    forall|k: int|
                        #![trigger self.functions@[f as int].blocks@[k]]
                        0 <= k < b ==> {
                            &&& self.functions@[f as int].blocks@[k].label == of.blocks@[k].label
                            &&& self.functions@[f as int].blocks@[k].tacs == of.blocks@[k].tacs
                            &&& self.functions@[f as int].blocks@[k].living == of.blocks@[k].living
                            &&& is_cfg_of(self.functions@[f as int].blocks@[k].cfg_inbb, of.blocks@[k].tacs@)
                        },
                decreases block_number - b,
            {
                let cfg_inbb = Self::build_cfg_with_bb(&self.functions[f].blocks[b].tacs);
                self.functions[f].blocks[b].cfg_inbb = cfg_inbb;
                b = b + 1;
            }
            f = f + 1;
        }
    }

    /// The control-flow graph of one block's instructions (see `is_cfg_of`).
    pub fn build_cfg_with_bb(tacs: &Vec<ThreeAddressCode>) -> (g: ControlFlowGraphInBB)
        ensures
            is_cfg_of(g, tacs@),
    {
        let n = tacs.len();
        let mut cfg_inbb = ControlFlowGraphInBB::new(n);
        let mut prev_inst_is_goto = false;
        proof {
            assert forall|k: int| 0 <= k < n implies (#[trigger] cfg_inbb.prev@[k])@ == cfg_prev_upto(
                tacs@,
                k,
                0,
            ) by {
                assert(cfg_prev_upto(tacs@, k, 0) =~= Set::empty());
            }
        }
        let mut i: usize = 0;
        while i < n
            invariant
                n == tacs@.len(),
                0 <= i <= n,
                cfg_inbb.wf(n as nat),
                prev_inst_is_goto == (i >= 1 && is_goto(tacs@, i - 1)),
                forall|k: int| 0 <= k < i ==> (#[trigger] cfg_inbb.succ@[k])@ == cfg_succ(tacs@, k),
                forall|k: int| i <= k < n ==> (#[trigger] cfg_inbb.succ@[k])@.is_empty(),
                forall|k: int| 0 <= k < n ==> (#[trigger] cfg_inbb.prev@[k])@ == cfg_prev_upto(tacs@, k, i as int),
                forall|k: int| 0 <= k < n ==> (#[trigger] cfg_inbb.used@[k])@.is_empty(),
                forall|k: int| 0 <= k < n ==> (#[trigger] cfg_inbb.def@[k])@.is_empty(),
            decreases n - i,
        {
            let ghost before = cfg_inbb;
            if i != 0 && !prev_inst_is_goto {
                Self::add_prev(&mut cfg_inbb, i, i - 1);
            }
            let is_jump = match &tacs[i].kind {
                TacKind::GOTO(_) => true,
                _ => false,
            };
            if !is_jump {
                Self::add_succ(&mut cfg_inbb, n, i, i + 1);
            }
            let target = match &tacs[i].kind {
                TacKind::GOTO(label_name) => Self::label_position(tacs, label_name.as_str()),
                TacKind::IFF(_, label_name) => Self::label_position(tacs, label_name.as_str()),
                _ => None,
            };
            assert(as_index(target) == jump_target(tacs@, i as int));
            if let Some(label_idx) = target {
                Self::add_succ(&mut cfg_inbb, n, i, label_idx);
                Self::add_prev(&mut cfg_inbb, label_idx, i);
            }
            proof {
                assert forall|k: int| 0 <= k < n implies (#[trigger] cfg_inbb.prev@[k])@ == cfg_prev_upto(
                    tacs@,
                    k,
                    i + 1,
                ) by {
                    assert(cfg_prev_upto(tacs@, k, i + 1) =~= cfg_prev_upto(tacs@, k, i as int).union(
                        if k == i && i >= 1 && !is_goto(tacs@, i - 1) {
                            set![(i - 1) as usize]
                        } else {
                            Set::empty()
                        },
                    ).union(
                        if k != 0 && jump_target(tacs@, i as int) == Some(k) {
                            set![i]
                        } else {
                            Set::empty()
                        },
                    ));
                }
                assert(cfg_inbb.succ@[i as int]@ =~= cfg_succ(tacs@, i as int));
            }
            prev_inst_is_goto = is_jump;
            i = i + 1;
        }
        proof {
            assert forall|k: int| 0 <= k < n implies (#[trigger] cfg_inbb.prev@[k])@ == cfg_prev(tacs@, k) by {
                assert(cfg_prev_upto(tacs@, k, n as int) =~= cfg_prev(tacs@, k));
            }
        }
        cfg_inbb
    }

    /// The position of the last label `name` in `tacs`.
    fn label_position(tacs: &Vec<ThreeAddressCode>, name: &str) -> (r: Option<usize>)
        ensures
            as_index(r) == label_index(tacs@, name@),
            r matches Some(t) ==> t < tacs@.len(),
    {
        let mut k = tacs.len();
        while k > 0
            invariant
                0 <= k <= tacs@.len(),
                label_index(tacs@, name@) == label_index_upto(tacs@, name@, k as int),
            decreases k,
        {
            let is_match = match &tacs[k - 1].kind {
                TacKind::LABEL(l) => str_eq(l.as_str(), name),
                _ => false,
            };
            if is_match {
                return Some(k - 1);
            }
            k = k - 1;
        }
        None
    }

    /// Adds the edge `n -> edge` when `edge` is an instruction of the block.
    fn add_succ(cfg_inbb: &mut ControlFlowGraphInBB, tac_length: usize, n: usize, edge: usize)
        requires
            old(cfg_inbb).wf(tac_length as nat),
            n < tac_length,
        ensures
            final(cfg_inbb).wf(tac_length as nat),
            final(cfg_inbb).prev == old(cfg_inbb).prev,
            final(cfg_inbb).used == old(cfg_inbb).used,
            final(cfg_inbb).def == old(cfg_inbb).def,
            forall|k: int| 0 <= k < tac_length && k != n ==> #[trigger] final(cfg_inbb).succ@[k] == old(cfg_inbb).succ@[k],
            final(cfg_inbb).succ@[n as int]@ == if edge < tac_length {
                old(cfg_inbb).succ@[n as int]@.insert(edge)
            } else {
                old(cfg_inbb).succ@[n as int]@
            },
    {
        if edge < tac_length {
            cfg_inbb.succ[n].insert(edge);
        }
    }

    /// Adds `edge` to the predecessors of `n`, unless `n` is the first instruction.
    fn add_prev(cfg_inbb: &mut ControlFlowGraphInBB, n: usize, edge: usize)
        requires
            n < old(cfg_inbb).prev@.len(),
        ensures
            final(cfg_inbb).succ == old(cfg_inbb).succ,
            final(cfg_inbb).used == old(cfg_inbb).used,
            final(cfg_inbb).def == old(cfg_inbb).def,
            final(cfg_inbb).prev@.len() == old(cfg_inbb).prev@.len(),
            forall|k: int| 0 <= k < final(cfg_inbb).prev@.len() && k != n ==> #[trigger] final(cfg_inbb).prev@[k] == old(cfg_inbb).prev@[k],
            final(cfg_inbb).prev@[n as int]@ == if n != 0 {
                old(cfg_inbb).prev@[n as int]@.insert(edge)
            } else {
                old(cfg_inbb).prev@[n as int]@
            },
    {
        if n != 0 {
            cfg_inbb.prev[n].insert(edge);
        }
    }
}

/// Law of the graph: every edge `i -> j` into an instruction other than the
/// first is also recorded as `i` among the predecessors of `j`, and
/// conversely.
pub proof fn lemma_cfg_edges_symmetric(tacs: Seq<ThreeAddressCode>, i: int, j: int)
    requires
        0 <= i < tacs.len(),
        0 < j < tacs.len(),
        tacs.len() <= usize::MAX,
    ensures
        cfg_succ(tacs, i).contains(j as usize) <==> cfg_prev(tacs, j).contains(i as usize),
{
    match tacs[i].kind {
        TacKind::GOTO(l) => lemma_label_index_upto_range(tacs, l@, tacs.len() as int),
        TacKind::IFF(_, l) => lemma_label_index_upto_range(tacs, l@, tacs.len() as int),
        _ => {},
    }
    if cfg_prev(tacs, j).contains(i as usize) {
        assert(cfg_succ(tacs, i).contains(j as usize));
    }
}

} // verus!
