use std::collections::{BTreeMap, BTreeSet};
use vstd::prelude::*;
use vstd::std_specs::iter::IteratorSpec;

use crate::compiler::backend::cfg::{sets_of, ControlFlowGraphInBB};
use crate::compiler::backend::high_optimizer::HighOptimizer;
use crate::compiler::ir::three_address_code::basicblock::BasicBlock;
use crate::compiler::ir::three_address_code::function::IRFunction;
use crate::compiler::ir::three_address_code::tac::ThreeAddressCode;
use crate::compiler::ir::three_address_code::tac_kind::{Operand, TacKind};
use crate::regset::{copy_set, difference, lemma_set_finite, lemma_strict_subset_len, set_equal, union_into};

verus! {

broadcast use {vstd::std_specs::btree::group_btree_axioms, vstd::laws_cmp::group_laws_cmp};

/// The registers live on entry to each instruction.
pub type LiveInMap = Vec<BTreeSet<usize>>;

/// The registers live on exit from each instruction.
pub type LiveOutMap = Vec<BTreeSet<usize>>;

/// The registers live on entry to some successor in `succ`.
pub open spec fn succ_union(succ: Set<usize>, ins: Seq<Set<usize>>) -> Set<usize> {
    Set::new(|x: usize| exists|s: usize| #[trigger] succ.contains(s) && ins[s as int].contains(x))
}

/// `ins` and `outs` solve the liveness equations of `g` over `n` instructions:
/// what is live out of an instruction is what is live into its successors,
/// and what is live into it is what it uses plus what is live out of it and
/// not defined by it.
pub open spec fn is_liveness_solution(
    g: ControlFlowGraphInBB,
    n: nat,
    ins: Seq<Set<usize>>,
    outs: Seq<Set<usize>>,
) -> bool {
    &&& ins.len() == n
    &&& outs.len() == n
    &&& forall|i: int|
        0 <= i < n ==> #[trigger] outs[i] == succ_union(g.succ@[i]@, ins) && ins[i]
            == g.used@[i]@.union(outs[i].difference(g.def@[i]@))
}

/// A copy of a control-flow graph, set by set.
pub fn duplicate_graph(g: &ControlFlowGraphInBB) -> (c: ControlFlowGraphInBB)
    ensures
        sets_of(c.succ@) == sets_of(g.succ@),
        sets_of(c.prev@) == sets_of(g.prev@),
        sets_of(c.used@) == sets_of(g.used@),
        sets_of(c.def@) == sets_of(g.def@),
        c.succ@.len() == g.succ@.len(),
        c.prev@.len() == g.prev@.len(),
        c.used@.len() == g.used@.len(),
        c.def@.len() == g.def@.len(),
{
    ControlFlowGraphInBB {
        succ: copy_sets(&g.succ),
        prev: copy_sets(&g.prev),
        used: copy_sets(&g.used),
        def: copy_sets(&g.def),
    }
}

/// A copy of a list of sets.
pub fn copy_sets(v: &Vec<BTreeSet<usize>>) -> (c: Vec<BTreeSet<usize>>)
    ensures
        sets_of(c@) == sets_of(v@),
        c@.len() == v@.len(),
{
    let mut c: Vec<BTreeSet<usize>> = Vec::new();
    let mut i: usize = 0;
    while i < v.len()
        invariant
            0 <= i <= v@.len(),
            c@.len() == i,
            forall|k: int| 0 <= k < i ==> (#[trigger] c@[k])@ == v@[k]@,
        decreases v@.len() - i,
    {
        c.push(copy_set(&v[i]));
        i = i + 1;
    }
    assert(sets_of(c@) =~= sets_of(v@));
    c
}

/// Pointwise inclusion of two pairs of set lists.
pub open spec fn below(
    n: nat,
    ins: Seq<Set<usize>>,
    outs: Seq<Set<usize>>,
    ins2: Seq<Set<usize>>,
    outs2: Seq<Set<usize>>,
) -> bool {
    forall|i: int|
        0 <= i < n ==> (#[trigger] ins[i]).subset_of(ins2[i]) && outs[i].subset_of(outs2[i])
}

/// Every register any instruction uses.
pub open spec fn all_used(used: Seq<Set<usize>>) -> Set<usize>
    decreases used.len(),
{
    if used.len() == 0 {
        Set::empty()
    } else {
        all_used(used.drop_last()).union(used.last())
    }
}

/// The summed sizes of the first `k` in- and out-sets.
pub open spec fn total_size(ins: Seq<Set<usize>>, outs: Seq<Set<usize>>, k: int) -> int
    decreases k,
{
    if k <= 0 {
        0
    } else {
        total_size(ins, outs, k - 1) + ins[k - 1].len() + outs[k - 1].len()
    }
}

/// The graph's successors name instructions of the block.
pub open spec fn succ_in_range(g: ControlFlowGraphInBB, n: nat) -> bool {
    forall|i: int, s: usize| 0 <= i < n && #[trigger] g.succ@[i]@.contains(s) ==> s < n
}

pub proof fn lemma_all_used(used: Seq<Set<usize>>, i: int)
    requires
        0 <= i < used.len(),
    ensures
        used[i].subset_of(all_used(used)),
    decreases used.len(),
{
    if i < used.len() - 1 {
        lemma_all_used(used.drop_last(), i);
    }
}

pub proof fn lemma_all_used_finite(used: Seq<Set<usize>>)
    requires
        forall|i: int| 0 <= i < used.len() ==> (#[trigger] used[i]).finite(),
    ensures
        all_used(used).finite(),
    decreases used.len(),
{
    if used.len() > 0 {
        lemma_all_used_finite(used.drop_last());
    }
}

pub proof fn lemma_total_bound(ins: Seq<Set<usize>>, outs: Seq<Set<usize>>, u: Set<usize>, k: int)
    requires
        0 <= k <= ins.len(),
        k <= outs.len(),
        u.finite(),
        forall|i: int| 0 <= i < k ==> (#[trigger] ins[i]).subset_of(u) && outs[i].subset_of(u),
    ensures
        0 <= total_size(ins, outs, k) <= 2 * k * u.len(),
    decreases k,
{
    if k > 0 {
        lemma_total_bound(ins, outs, u, k - 1);
        vstd::set_lib::lemma_len_subset(ins[k - 1], u);
        vstd::set_lib::lemma_len_subset(outs[k - 1], u);
        let l = u.len() as int;
        assert(2 * (k - 1) * l + 2 * l == 2 * k * l) by (nonlinear_arith);
    }
}

pub proof fn lemma_total_grows(
    a_in: Seq<Set<usize>>,
    a_out: Seq<Set<usize>>,
    b_in: Seq<Set<usize>>,
    b_out: Seq<Set<usize>>,
    u: Set<usize>,
    k: int,
)
    requires
        0 <= k <= a_in.len(),
        k <= a_out.len(),
        k <= b_in.len(),
        k <= b_out.len(),
        u.finite(),
        forall|i: int|
            0 <= i < k ==> (#[trigger] a_in[i]).subset_of(b_in[i]) && a_out[i].subset_of(b_out[i])
                && b_in[i].subset_of(u) && b_out[i].subset_of(u),
    ensures
        total_size(a_in, a_out, k) <= total_size(b_in, b_out, k),
        (exists|i: int| 0 <= i < k && (a_in[i] != b_in[i] || a_out[i] != b_out[i])) ==> total_size(
            a_in,
            a_out,
            k,
        ) < total_size(b_in, b_out, k),
    decreases k,
{
    if k > 0 {
        lemma_total_grows(a_in, a_out, b_in, b_out, u, k - 1);
        let i = k - 1;
        vstd::set_lib::lemma_len_subset(a_in[i], b_in[i]);
        vstd::set_lib::lemma_len_subset(a_out[i], b_out[i]);
        vstd::set_lib::lemma_len_subset(b_in[i], u);
        vstd::set_lib::lemma_len_subset(b_out[i], u);
        if a_in[i] != b_in[i] {
            lemma_strict_subset_len(a_in[i], b_in[i]);
        }
        if a_out[i] != b_out[i] {
            lemma_strict_subset_len(a_out[i], b_out[i]);
        }
    }
}

/// The register an operand names, if it is a register.
pub open spec fn reg_of(op: Operand) -> Set<usize> {
    if op.kind is REG {
        set![op.virt]
    } else {
        Set::empty()
    }
}

/// The registers an instruction reads.
pub open spec fn tac_used(t: ThreeAddressCode) -> Set<usize> {
    match t.kind {
        TacKind::EXPR(_, _, left, right) => reg_of(left).union(reg_of(right)),
        TacKind::ASSIGN(_, src) => reg_of(src),
        TacKind::RET(op) => reg_of(op),
        TacKind::IFF(op, _) => reg_of(op),
        _ => Set::empty(),
    }
}

/// The registers an instruction writes (the destination of a binary expression).
pub open spec fn tac_def(t: ThreeAddressCode) -> Set<usize> {
    match t.kind {
        TacKind::EXPR(var, _, _, _) => reg_of(var),
        _ => Set::empty(),
    }
}

/// The registers that the first `k` instructions write.
pub open spec fn defined_regs(tacs: Seq<ThreeAddressCode>, k: int) -> Set<usize> {
    Set::new(|r: usize| exists|i: int| 0 <= i < k && #[trigger] tac_def(tacs[i]).contains(r))
}

/// A fresh live range for each of `regs`.
pub open spec fn zero_ranges(regs: Set<usize>) -> Map<usize, (usize, usize)> {
    Map::new(|r: usize| regs.contains(r), |r: usize| (0usize, 0usize))
}

/// `after` is `before` with the uses and definitions of its instructions
/// recorded and a fresh live range for each register it defines.
pub open spec fn liveness_recorded(before: BasicBlock, after: BasicBlock) -> bool {
    let n = before.tacs@.len();
    &&& after.label == before.label
    &&& after.tacs == before.tacs
    &&& after.cfg_inbb.used@.len() == before.cfg_inbb.used@.len()
    &&& after.cfg_inbb.def@.len() == before.cfg_inbb.def@.len()
    &&& after.cfg_inbb.succ == before.cfg_inbb.succ
    &&& after.cfg_inbb.prev == before.cfg_inbb.prev
    &&& forall|i: int| 0 <= i < n ==> (#[trigger] after.cfg_inbb.used@[i])@ == before.cfg_inbb.used@[i]@.union(tac_used(before.tacs@[i]))
    &&& forall|i: int| 0 <= i < n ==> (#[trigger] after.cfg_inbb.def@[i])@ == before.cfg_inbb.def@[i]@.union(tac_def(before.tacs@[i]))
    &&& after.living@ == before.living@.union_prefer_right(zero_ranges(defined_regs(before.tacs@, n as int)))
}

/// `after` is `before` with every block changed as `step` says.
pub open spec fn functions_blockwise(
    before: Seq<IRFunction>,
    after: Seq<IRFunction>,
    step: spec_fn(BasicBlock, BasicBlock) -> bool,
) -> bool {
    &&& after.len() == before.len()
    &&& forall|f: int|
        #![trigger after[f]]
        0 <= f < after.len() ==> {
            &&& after[f].name == before[f].name
            &&& after[f].frame_size == before[f].frame_size
            &&& after[f].blocks@.len() == before[f].blocks@.len()
            &&& forall|b: int|
                #![trigger after[f].blocks@[b]]
                0 <= b < after[f].blocks@.len() ==> step(before[f].blocks@[b], after[f].blocks@[b])
        }
}

/// Every block's graph has a use and a definition entry per instruction.
pub open spec fn graphs_record_blocks(fs: Seq<IRFunction>) -> bool {
    forall|f: int, b: int|
        0 <= f < fs.len() && 0 <= b < fs[f].blocks@.len() ==> (#[trigger] fs[f].blocks@[b]).cfg_inbb.records(
            fs[f].blocks@[b].tacs@.len(),
        )
}

/// The last of the first `k` instructions where `r` becomes live (live out
/// but not live in), or `dflt` when there is none.
pub open spec fn live_start(ins: Seq<Set<usize>>, outs: Seq<Set<usize>>, r: usize, k: int, dflt: usize) -> usize
    decreases k,
{
    if k <= 0 {
        dflt
    } else if !ins[k - 1].contains(r) && outs[k - 1].contains(r) {
        (k - 1) as usize
    } else {
        live_start(ins, outs, r, k - 1, dflt)
    }
}

/// The last of the first `k` instructions where `r` dies (live in but not
/// live out), or `dflt` when there is none.
pub open spec fn live_end(ins: Seq<Set<usize>>, outs: Seq<Set<usize>>, r: usize, k: int, dflt: usize) -> usize
    decreases k,
{
    if k <= 0 {
        dflt
    } else if ins[k - 1].contains(r) && !outs[k - 1].contains(r) {
        (k - 1) as usize
    } else {
        live_end(ins, outs, r, k - 1, dflt)
    }
}

/// `living` with every register's range moved to where the solution
/// `(ins, outs)` of an `n`-instruction block makes it start and end.
pub open spec fn ranges_from(
    living: Map<usize, (usize, usize)>,
    ins: Seq<Set<usize>>,
    outs: Seq<Set<usize>>,
    n: int,
) -> Map<usize, (usize, usize)> {
    Map::new(
        |r: usize| living.contains_key(r),
        |r: usize| (live_start(ins, outs, r, n, living[r].0), live_end(ins, outs, r, n, living[r].1)),
    )
}

/// `(ins, outs)` solves the liveness equations of `g` and lies below every
/// solution.
pub open spec fn is_least_liveness(g: ControlFlowGraphInBB, n: nat, ins: Seq<Set<usize>>, outs: Seq<Set<usize>>) -> bool {
    &&& is_liveness_solution(g, n, ins, outs)
    &&& forall|sin: Seq<Set<usize>>, sout: Seq<Set<usize>>|
        #[trigger] is_liveness_solution(g, n, sin, sout) ==> below(n, ins, outs, sin, sout)
}

/// The least solution of the liveness equations of `g`.
pub open spec fn least_liveness(g: ControlFlowGraphInBB, n: nat) -> (Seq<Set<usize>>, Seq<Set<usize>>) {
    choose|a: Seq<Set<usize>>, b: Seq<Set<usize>>| #[trigger] is_least_liveness(g, n, a, b)
}

/// A least solution is the least solution.
pub proof fn lemma_least_liveness(g: ControlFlowGraphInBB, n: nat, ins: Seq<Set<usize>>, outs: Seq<Set<usize>>)
    requires
        is_least_liveness(g, n, ins, outs),
    ensures
        least_liveness(g, n) == (ins, outs),
{
    let p = least_liveness(g, n);
    assert(is_least_liveness(g, n, p.0, p.1));
    assert(below(n, ins, outs, p.0, p.1));
    assert(below(n, p.0, p.1, ins, outs));
    assert forall|i: int| 0 <= i < n implies #[trigger] p.0[i] == ins[i] && p.1[i] == outs[i] by {
        assert(p.0[i] =~= ins[i]);
        assert(p.1[i] =~= outs[i]);
    }
    assert(p.0 =~= ins);
    assert(p.1 =~= outs);
}

/// Graphs with the same successor sets agree on whether those stay in the block.
pub proof fn lemma_same_succ(g1: ControlFlowGraphInBB, g2: ControlFlowGraphInBB, n: nat)
    requires
        sets_of(g1.succ@) == sets_of(g2.succ@),
        g1.succ@.len() >= n,
        g2.succ@.len() >= n,
    ensures
        succ_in_range(g1, n) == succ_in_range(g2, n),
{
    assert forall|i: int| 0 <= i < n implies #[trigger] g1.succ@[i]@ == g2.succ@[i]@ by {
        assert(sets_of(g1.succ@)[i] == sets_of(g2.succ@)[i]);
    }
    if succ_in_range(g1, n) {
        assert forall|i: int, s: usize| 0 <= i < n && #[trigger] g2.succ@[i]@.contains(s) implies s < n by {
            assert(g1.succ@[i]@ == g2.succ@[i]@);
            assert(g1.succ@[i]@.contains(s));
        }
    }
    if succ_in_range(g2, n) {
        assert forall|i: int, s: usize| 0 <= i < n && #[trigger] g1.succ@[i]@.contains(s) implies s < n by {
            assert(g1.succ@[i]@ == g2.succ@[i]@);
            assert(g2.succ@[i]@.contains(s));
        }
    }
}

/// Graphs that hold the same sets have the same liveness solutions.
pub proof fn lemma_same_graph(g1: ControlFlowGraphInBB, g2: ControlFlowGraphInBB, n: nat)
    requires
        sets_of(g1.succ@) == sets_of(g2.succ@),
        sets_of(g1.used@) == sets_of(g2.used@),
        sets_of(g1.def@) == sets_of(g2.def@),
        g1.covers(n),
        g2.covers(n),
    ensures
        succ_in_range(g1, n) == succ_in_range(g2, n),
        forall|sin: Seq<Set<usize>>, sout: Seq<Set<usize>>|
            #[trigger] is_liveness_solution(g1, n, sin, sout) == is_liveness_solution(g2, n, sin, sout),
{
    lemma_same_succ(g1, g2, n);
    assert forall|i: int| 0 <= i < n implies #[trigger] g1.succ@[i]@ == g2.succ@[i]@ && g1.used@[i]@ == g2.used@[i]@
        && g1.def@[i]@ == g2.def@[i]@ by {
        assert(sets_of(g1.succ@)[i] == sets_of(g2.succ@)[i]);
        assert(sets_of(g1.used@)[i] == sets_of(g2.used@)[i]);
        assert(sets_of(g1.def@)[i] == sets_of(g2.def@)[i]);
    }
    assert forall|sin: Seq<Set<usize>>, sout: Seq<Set<usize>>|
        #[trigger] is_liveness_solution(g1, n, sin, sout) == is_liveness_solution(g2, n, sin, sout) by {
        if is_liveness_solution(g1, n, sin, sout) {
            assert forall|i: int| 0 <= i < n implies #[trigger] sout[i] == succ_union(g2.succ@[i]@, sin) && sin[i]
                == g2.used@[i]@.union(sout[i].difference(g2.def@[i]@)) by {
                assert(g1.succ@[i]@ == g2.succ@[i]@);
            }
        }
        if is_liveness_solution(g2, n, sin, sout) {
            assert forall|i: int| 0 <= i < n implies #[trigger] sout[i] == succ_union(g1.succ@[i]@, sin) && sin[i]
                == g1.used@[i]@.union(sout[i].difference(g1.def@[i]@)) by {
                assert(g1.succ@[i]@ == g2.succ@[i]@);
            }
        }
    }
}

/// `after` is `before` with its uses and definitions recorded (see
/// `liveness_recorded`) and every register's live range set from the
/// least solution of the liveness equations.
pub open spec fn live_ranges_set(before: BasicBlock, after: BasicBlock) -> bool {
    let n = before.tacs@.len();
    let sol = least_liveness(after.cfg_inbb, n);
    &&& after.label == before.label
    &&& after.tacs == before.tacs
    &&& after.cfg_inbb.used@.len() == before.cfg_inbb.used@.len()
    &&& after.cfg_inbb.def@.len() == before.cfg_inbb.def@.len()
    &&& after.cfg_inbb.succ == before.cfg_inbb.succ
    &&& after.cfg_inbb.prev == before.cfg_inbb.prev
    &&& forall|i: int| 0 <= i < n ==> (#[trigger] after.cfg_inbb.used@[i])@ == before.cfg_inbb.used@[i]@.union(tac_used(before.tacs@[i]))
    &&& forall|i: int| 0 <= i < n ==> (#[trigger] after.cfg_inbb.def@[i])@ == before.cfg_inbb.def@[i]@.union(tac_def(before.tacs@[i]))
    &&& after.living@ == ranges_from(
        before.living@.union_prefer_right(zero_ranges(defined_regs(before.tacs@, n as int))),
        sol.0,
        sol.1,
        n as int,
    )
}

/// Every block's graph covers its instructions and its successors lie in the block.
pub open spec fn graphs_ready(fs: Seq<IRFunction>) -> bool {
    forall|f: int, b: int|
        0 <= f < fs.len() && 0 <= b < fs[f].blocks@.len() ==> (#[trigger] fs[f].blocks@[b]).cfg_inbb.covers(
            fs[f].blocks@[b].tacs@.len(),
        ) && succ_in_range(fs[f].blocks@[b].cfg_inbb, fs[f].blocks@[b].tacs@.len())
}

/// Position `j` holds the same sets in both pairs.
pub open spec fn same_at(a: Seq<Set<usize>>, b: Seq<Set<usize>>, c: Seq<Set<usize>>, d: Seq<Set<usize>>, j: int) -> bool {
    a[j] == c[j] && b[j] == d[j]
}

/// The registers live into the first `k` successors listed in `q`.
pub open spec fn partial_union(q: Seq<usize>, ins: Seq<Set<usize>>, k: int) -> Set<usize> {
    Set::new(|x: usize| exists|j: int| 0 <= j < k && #[trigger] ins[q[j] as int].contains(x))
}

pub proof fn lemma_partial_union_step(q: Seq<usize>, ins: Seq<Set<usize>>, k: int)
    requires
        0 <= k < q.len(),
    ensures
        partial_union(q, ins, k + 1) == partial_union(q, ins, k).union(ins[q[k] as int]),
{
    assert(partial_union(q, ins, k + 1) =~= partial_union(q, ins, k).union(ins[q[k] as int]));
}

pub proof fn lemma_partial_union_full(q: Seq<usize>, succ: Set<usize>, ins: Seq<Set<usize>>)
    requires
        q.to_set() == succ,
    ensures
        partial_union(q, ins, q.len() as int) == succ_union(succ, ins),
{
    assert forall|x: usize| #[trigger] succ_union(succ, ins).contains(x) implies partial_union(
        q,
        ins,
        q.len() as int,
    ).contains(x) by {
        let s = choose|s: usize| #[trigger] succ.contains(s) && ins[s as int].contains(x);
        assert(q.to_set().contains(s));
        let j = choose|j: int| 0 <= j < q.len() && q[j] == s;
        assert(ins[q[j] as int].contains(x));
    }
    assert forall|x: usize| #[trigger] partial_union(q, ins, q.len() as int).contains(x) implies succ_union(
        succ,
        ins,
    ).contains(x) by {
        let j = choose|j: int| 0 <= j < q.len() && #[trigger] ins[q[j] as int].contains(x);
        assert(q.to_set().contains(q[j]));
        assert(succ.contains(q[j]));
    }
    assert(partial_union(q, ins, q.len() as int) =~= succ_union(succ, ins));
}

pub proof fn lemma_succ_union_mono(succ: Set<usize>, a: Seq<Set<usize>>, b: Seq<Set<usize>>)
    requires
        a.len() == b.len(),
        forall|i: int| 0 <= i < a.len() ==> (#[trigger] a[i]).subset_of(b[i]),
        forall|s: usize| succ.contains(s) ==> s < a.len(),
    ensures
        succ_union(succ, a).subset_of(succ_union(succ, b)),
{
    assert forall|x: usize| #[trigger] succ_union(succ, a).contains(x) implies succ_union(succ, b).contains(
        x,
    ) by {
        let s = choose|s: usize| #[trigger] succ.contains(s) && a[s as int].contains(x);
        assert(b[s as int].contains(x));
    }
}

/// One step of the iteration keeps the facts the loop relies on.
pub proof fn lemma_liveness_step(
    g: ControlFlowGraphInBB,
    n: nat,
    u: Set<usize>,
    in0: Seq<Set<usize>>,
    out0: Seq<Set<usize>>,
    ins: Seq<Set<usize>>,
    outs: Seq<Set<usize>>,
    idx: int,
)
    requires
        g.covers(n),
        succ_in_range(g, n),
        0 <= idx < n,
        ins.len() == n,
        outs.len() == n,
        in0.len() == n,
        out0.len() == n,
        g.used@[idx]@.subset_of(u),
        forall|i: int| 0 <= i < n ==> in0[i].subset_of(#[trigger] ins[i]),
        forall|i: int| 0 <= i < n ==> out0[i].subset_of(#[trigger] outs[i]),
        forall|i: int| idx <= i < n ==> in0[i] == #[trigger] ins[i],
        forall|i: int| idx <= i < n ==> out0[i] == #[trigger] outs[i],
        forall|i: int| 0 <= i < n ==> (#[trigger] ins[i]).subset_of(u) && outs[i].subset_of(u),
        forall|i: int| 0 <= i < n ==> (#[trigger] outs[i]).subset_of(succ_union(g.succ@[i]@, ins)),
        forall|i: int|
            0 <= i < n ==> (#[trigger] ins[i]).subset_of(g.used@[i]@.union(outs[i].difference(g.def@[i]@))),
        forall|k: int| 0 <= k < idx ==> (#[trigger] ins[k]) == g.used@[k]@.union(outs[k].difference(g.def@[k]@)),
        forall|k: int, s: usize| 0 <= k < idx && #[trigger] g.succ@[k]@.contains(s) ==> in0[s as int].subset_of(outs[k]),
        forall|sin: Seq<Set<usize>>, sout: Seq<Set<usize>>|
            #[trigger] is_liveness_solution(g, n, sin, sout) ==> below(n, ins, outs, sin, sout),
    ensures
        ({
            let out_val = outs[idx].union(succ_union(g.succ@[idx]@, ins));
            let in_val = g.used@[idx]@.union(out_val.difference(g.def@[idx]@));
            let ins2 = ins.update(idx, in_val);
            let outs2 = outs.update(idx, out_val);
            &&& forall|i: int| 0 <= i < n ==> in0[i].subset_of(#[trigger] ins2[i])
            &&& forall|i: int| 0 <= i < n ==> out0[i].subset_of(#[trigger] outs2[i])
            &&& forall|i: int| idx + 1 <= i < n ==> in0[i] == #[trigger] ins2[i]
            &&& forall|i: int| idx + 1 <= i < n ==> out0[i] == #[trigger] outs2[i]
            &&& forall|i: int| 0 <= i < n ==> (#[trigger] ins2[i]).subset_of(u) && outs2[i].subset_of(u)
            &&& forall|i: int| 0 <= i < n ==> (#[trigger] outs2[i]).subset_of(succ_union(g.succ@[i]@, ins2))
            &&& forall|i: int|
                0 <= i < n ==> (#[trigger] ins2[i]).subset_of(g.used@[i]@.union(outs2[i].difference(g.def@[i]@)))
            &&& forall|k: int| 0 <= k < idx + 1 ==> (#[trigger] ins2[k]) == g.used@[k]@.union(outs2[k].difference(g.def@[k]@))
            &&& forall|k: int, s: usize| 0 <= k < idx + 1 && #[trigger] g.succ@[k]@.contains(s) ==> in0[s as int].subset_of(outs2[k])
            &&& forall|sin: Seq<Set<usize>>, sout: Seq<Set<usize>>|
                #[trigger] is_liveness_solution(g, n, sin, sout) ==> below(n, ins2, outs2, sin, sout)
        }),
{
    let out_val = outs[idx].union(succ_union(g.succ@[idx]@, ins));
    let in_val = g.used@[idx]@.union(out_val.difference(g.def@[idx]@));
    let ins2 = ins.update(idx, in_val);
    let outs2 = outs.update(idx, out_val);
    assert(ins[idx].subset_of(in_val));
    assert(succ_union(g.succ@[idx]@, ins).subset_of(u)) by {
        assert forall|x: usize| #[trigger] succ_union(g.succ@[idx]@, ins).contains(x) implies u.contains(x) by {
            let s = choose|s: usize| #[trigger] g.succ@[idx]@.contains(s) && ins[s as int].contains(x);
            assert(ins[s as int].subset_of(u));
        }
    }
    assert forall|i: int| 0 <= i < n implies #[trigger] ins[i].subset_of(ins2[i]) by {}
    assert forall|i: int| 0 <= i < n implies (#[trigger] outs2[i]).subset_of(succ_union(g.succ@[i]@, ins2)) by {
        lemma_succ_union_mono(g.succ@[i]@, ins, ins2);
    }
    assert forall|k: int, s: usize| 0 <= k < idx + 1 && #[trigger] g.succ@[k]@.contains(s) implies in0[s as int].subset_of(outs2[k]) by {
        if k == idx {
            assert(ins[s as int].subset_of(succ_union(g.succ@[idx]@, ins)));
        }
    }
    assert forall|sin: Seq<Set<usize>>, sout: Seq<Set<usize>>|
        #[trigger] is_liveness_solution(g, n, sin, sout) implies below(n, ins2, outs2, sin, sout) by {
        assert(below(n, ins, outs, sin, sout));
        lemma_succ_union_mono(g.succ@[idx]@, ins, sin);
        assert(sout[idx] == succ_union(g.succ@[idx]@, sin));
        assert(out_val.subset_of(sout[idx]));
        assert(in_val.subset_of(sin[idx]));
    }
}

/// A sweep that changed nothing ends at a solution that lies below every solution.
pub proof fn lemma_liveness_fixpoint(
    g: ControlFlowGraphInBB,
    n: nat,
    in0: Seq<Set<usize>>,
    out0: Seq<Set<usize>>,
    ins: Seq<Set<usize>>,
    outs: Seq<Set<usize>>,
)
    requires
        g.covers(n),
        succ_in_range(g, n),
        ins.len() == n,
        outs.len() == n,
        ins == in0,
        outs == out0,
        forall|i: int| 0 <= i < n ==> (#[trigger] outs[i]).subset_of(succ_union(g.succ@[i]@, ins)),
        forall|k: int| 0 <= k < n ==> (#[trigger] ins[k]) == g.used@[k]@.union(outs[k].difference(g.def@[k]@)),
        forall|k: int, s: usize| 0 <= k < n && #[trigger] g.succ@[k]@.contains(s) ==> in0[s as int].subset_of(outs[k]),
    ensures
        is_liveness_solution(g, n, ins, outs),
{
    assert forall|i: int| 0 <= i < n implies #[trigger] outs[i] == succ_union(g.succ@[i]@, ins) && ins[i]
        == g.used@[i]@.union(outs[i].difference(g.def@[i]@)) by {
        assert forall|x: usize| #[trigger] succ_union(g.succ@[i]@, ins).contains(x) implies outs[i].contains(x) by {
            let s = choose|s: usize| #[trigger] g.succ@[i]@.contains(s) && ins[s as int].contains(x);
            assert(in0[s as int].subset_of(outs[i]));
        }
        assert(outs[i] =~= succ_union(g.succ@[i]@, ins));
    }
}

impl HighOptimizer {
    /// Liveness analysis of every block: records uses and definitions, solves
    /// the liveness equations and sets each defined register's live range
    /// to where it starts and ends in the least solution (see
    /// `live_ranges_set`).
    pub fn setup_liveness_analyze(&mut self)
        requires
            graphs_ready(old(self).functions@),
        ensures
            functions_blockwise(old(self).functions@, final(self).functions@, |a: BasicBlock, b: BasicBlock| live_ranges_set(a, b)),
    {
        proof {
            assert forall|f: int, b: int|
                0 <= f < old(self).functions@.len() && 0 <= b < old(self).functions@[f].blocks@.len() implies (#[trigger] old(
                    self,
                ).functions@[f].blocks@[b]).cfg_inbb.records(old(self).functions@[f].blocks@[b].tacs@.len()) by {}
        }
        self.append_liveness_informations();
        let ghost mid = self.functions@;
        let ghost step = |a: BasicBlock, b: BasicBlock| live_ranges_set(a, b);
        let function_number = self.functions.len();
        let mut f: usize = 0;
        while f < function_number
            invariant
                function_number == old(self).functions@.len(),
                graphs_ready(old(self).functions@),
                functions_blockwise(old(self).functions@, mid, |a: BasicBlock, b: BasicBlock| liveness_recorded(a, b)),
                step == (|a: BasicBlock, b: BasicBlock| live_ranges_set(a, b)),
                self.functions@.len() == function_number,
                0 <= f <= function_number,
                forall|k: int| f <= k < function_number ==> #[trigger] self.functions@[k] == mid[k],
                functions_blockwise(old(self).functions@.take(f as int), self.functions@.take(f as int), step),
            decreases function_number - f,
        {
            let block_number = self.functions[f].blocks.len();
            let ghost of = old(self).functions@[f as int];
            let ghost mf = mid[f as int];
            let mut b: usize = 0;
            while b < block_number
                invariant
                    function_number == old(self).functions@.len(),
                    graphs_ready(old(self).functions@),
                    functions_blockwise(old(self).functions@, mid, |a: BasicBlock, b: BasicBlock| liveness_recorded(a, b)),
                    step == (|a: BasicBlock, b: BasicBlock| live_ranges_set(a, b)),
                    self.functions@.len() == function_number,
                    0 <= f < function_number,
                    of == old(self).functions@[f as int],
                    mf == mid[f as int],
                    block_number == of.blocks@.len(),
                    0 <= b <= block_number,
                    forall|k: int| f < k < function_number ==> #[trigger] self.functions@[k] == mid[k],
                    functions_blockwise(old(self).functions@.take(f as int), self.functions@.take(f as int), step),
                    self.functions@[f as int].name == of.name,
                    self.functions@[f as int].frame_size == of.frame_size,
                    self.functions@[f as int].blocks@.len() == block_number,
                    forall|k: int| b <= k < block_number ==> #[trigger] self.functions@[f as int].blocks@[k] == mf.blocks@[k],
                    forall|k: int| 0 <= k < b ==> step(of.blocks@[k], #[trigger] self.functions@[f as int].blocks@[k]),
                decreases block_number - b,
            {
                let ghost ob = of.blocks@[b as int];
                let ghost mb = mf.blocks@[b as int];
                assert(liveness_recorded(ob, mb));
                assert(ob.cfg_inbb.covers(ob.tacs@.len()) && succ_in_range(ob.cfg_inbb, ob.tacs@.len()));
                let n = self.functions[f].blocks[b].tacs.len();
                let g = duplicate_graph(&self.functions[f].blocks[b].cfg_inbb);
                proof {
                    lemma_same_succ(g, ob.cfg_inbb, n as nat);
                }
                let (live_in, live_out) = self.liveness_analysis(g, n);
                proof {
                    assert(self.functions@[f as int].blocks@[b as int] == mb);
                    assert(mb.cfg_inbb.covers(n as nat));
                    lemma_same_graph(g, mb.cfg_inbb, n as nat);
                    assert(is_liveness_solution(mb.cfg_inbb, n as nat, sets_of(live_in@), sets_of(live_out@)));
                    assert forall|sin: Seq<Set<usize>>, sout: Seq<Set<usize>>|
                        #[trigger] is_liveness_solution(mb.cfg_inbb, n as nat, sin, sout) implies below(
                        n as nat,
                        sets_of(live_in@),
                        sets_of(live_out@),
                        sin,
                        sout,
                    ) by {
                        assert(is_liveness_solution(g, n as nat, sin, sout));
                    }
                    lemma_least_liveness(mb.cfg_inbb, n as nat, sets_of(live_in@), sets_of(live_out@));
                }
                let ghost pre = self.functions@.take(f as int);
                Self::apply_live_ranges(&mut self.functions[f].blocks[b].living, &live_in, &live_out, n);
                assert(self.functions@.take(f as int) =~= pre);
                b = b + 1;
            }
            proof {
                assert forall|k: int| 0 <= k < f + 1 implies #[trigger] self.functions@.take(f + 1)[k] == if k < f {
                    self.functions@.take(f as int)[k]
                } else {
                    self.functions@[f as int]
                } by {}
            }
            f = f + 1;
        }
        assert(self.functions@.take(function_number as int) =~= self.functions@);
        assert(old(self).functions@.take(function_number as int) =~= old(self).functions@);
    }

    /// Moves every register's live range to where the solution `(live_in,
    /// live_out)` makes it start and end (see `ranges_from`).
    pub fn apply_live_ranges(
        living: &mut BTreeMap<usize, (usize, usize)>,
        live_in: &Vec<BTreeSet<usize>>,
        live_out: &Vec<BTreeSet<usize>>,
        n: usize,
    )
        requires
            live_in@.len() == n,
            live_out@.len() == n,
        ensures
            final(living)@ == ranges_from(old(living)@, sets_of(live_in@), sets_of(live_out@), n as int),
    {
        let ghost ins = sets_of(live_in@);
        let ghost outs = sets_of(live_out@);
        let ghost start = living@;
        let mut keys: Vec<usize> = Vec::new();
        let ghost key_seq = vstd::std_specs::btree::spec_keys_iter(&*living).remaining().unref();
        for k in it: living.keys()
            invariant
                it.seq().unref() == key_seq,
                key_seq.to_set() == start.dom(),
                keys@ == key_seq.take(it.index() as int),
        {
            keys.push(*k);
            proof {
                assert(key_seq.take(it.index() + 1) =~= key_seq.take(it.index() as int).push(key_seq[it.index() as int]));
            }
        }
        assert(key_seq.take(key_seq.len() as int) =~= key_seq);
        proof {
            let rem = vstd::std_specs::btree::spec_keys_iter(&*living).remaining();
            assert(rem.no_duplicates());
            assert forall|a: int, b: int| 0 <= a < key_seq.len() && 0 <= b < key_seq.len() && a != b implies key_seq[a]
                != key_seq[b] by {
                assert(rem[a] != rem[b]);
            }
        }
        let mut j: usize = 0;
        while j < keys.len()
            invariant
                keys@ == key_seq,
                key_seq.to_set() == start.dom(),
                key_seq.no_duplicates(),
                live_in@.len() == n,
                live_out@.len() == n,
                ins == sets_of(live_in@),
                outs == sets_of(live_out@),
                0 <= j <= keys@.len(),
                living@.dom() == start.dom(),
                forall|r: usize| #[trigger] living@.contains_key(r) && !keys@.take(j as int).contains(r) ==> living@[r] == start[r],
                forall|r: usize| #[trigger] living@.contains_key(r) && keys@.take(j as int).contains(r) ==> living@[r]
                    == ranges_from(start, ins, outs, n as int)[r],
            decreases keys@.len() - j,
        {
            let reg = keys[j];
            assert(key_seq.to_set().contains(reg));
            let range = *living.get(&reg).unwrap();
            let mut first = range.0;
            let mut last = range.1;
            let mut ir: usize = 0;
            while ir < n
                invariant
                    live_in@.len() == n,
                    live_out@.len() == n,
                    ins == sets_of(live_in@),
                    outs == sets_of(live_out@),
                    0 <= ir <= n,
                    first == live_start(ins, outs, reg, ir as int, range.0),
                    last == live_end(ins, outs, reg, ir as int, range.1),
                decreases n - ir,
            {
                assert(ins[ir as int] == live_in@[ir as int]@);
                assert(outs[ir as int] == live_out@[ir as int]@);
                let in_has = live_in[ir].contains(&reg);
                let out_has = live_out[ir].contains(&reg);
                if !in_has && out_has {
                    first = ir;
                }
                if in_has && !out_has {
                    last = ir;
                }
                ir = ir + 1;
            }
            let ghost living0 = living@;
            proof {
                if keys@.take(j as int).contains(reg) {
                    let p = choose|p: int| 0 <= p < j && keys@.take(j as int)[p] == reg;
                    assert(keys@[p] == keys@[j as int]);
                }
                assert(living0[reg] == start[reg]);
            }
            living.insert(reg, (first, last));
            proof {
                assert(keys@.take(j + 1) =~= keys@.take(j as int).push(reg));
                assert(living@.dom() =~= start.dom());
                assert forall|r: usize| #[trigger] living@.contains_key(r) && !keys@.take(j + 1).contains(r) implies living@[r]
                    == start[r] by {
                    assert(keys@.take(j + 1)[j as int] == reg);
                    assert(r != reg);
                    assert(living0.contains_key(r));
                    assert(!keys@.take(j as int).contains(r));
                }
                assert forall|r: usize| #[trigger] living@.contains_key(r) && keys@.take(j + 1).contains(r) implies living@[r]
                    == ranges_from(start, ins, outs, n as int)[r] by {
                    if r != reg {
                        assert(living0.contains_key(r));
                        assert(keys@.take(j as int).contains(r));
                    }
                }
            }
            j = j + 1;
        }
        proof {
            assert(keys@.take(keys@.len() as int) =~= keys@);
            assert forall|r: usize| #[trigger] living@.contains_key(r) implies keys@.contains(r) by {
                assert(key_seq.to_set().contains(r));
            }
            assert(living@ =~= ranges_from(start, ins, outs, n as int));
        }
    }

    /// Records, in every block of every function, which registers each
    /// instruction uses and defines, and gives every defined register a
    /// fresh live range (see `liveness_recorded`).
    pub fn append_liveness_informations(&mut self)
        requires
            graphs_record_blocks(old(self).functions@),
        ensures
            functions_blockwise(old(self).functions@, final(self).functions@, |a: BasicBlock, b: BasicBlock| liveness_recorded(a, b)),
    {
        let ghost step = |a: BasicBlock, b: BasicBlock| liveness_recorded(a, b);
        let functions_number = self.functions.len();
        let mut f: usize = 0;
        while f < functions_number
            invariant
                functions_number == old(self).functions@.len(),
                self.functions@.len() == functions_number,
                0 <= f <= functions_number,
                graphs_record_blocks(old(self).functions@),
                step == (|a: BasicBlock, b: BasicBlock| liveness_recorded(a, b)),
                forall|k: int| f <= k < functions_number ==> #[trigger] self.functions@[k] == old(self).functions@[k],
                functions_blockwise(old(self).functions@.take(f as int), self.functions@.take(f as int), step),
            decreases functions_number - f,
        {
            let blocks_number = self.functions[f].blocks.len();
            let ghost of = old(self).functions@[f as int];
            let mut b: usize = 0;
            while b < blocks_number
                invariant
                    functions_number == old(self).functions@.len(),
                    self.functions@.len() == functions_number,
                    0 <= f < functions_number,
                    graphs_record_blocks(old(self).functions@),
                    step == (|a: BasicBlock, b: BasicBlock| liveness_recorded(a, b)),
                    of == old(self).functions@[f as int],
                    blocks_number == of.blocks@.len(),
                    0 <= b <= blocks_number,
                    forall|k: int| f < k < functions_number ==> #[trigger] self.functions@[k] == old(self).functions@[k],
                    functions_blockwise(old(self).functions@.take(f as int), self.functions@.take(f as int), step),
                    self.functions@[f as int].name == of.name,
                    self.functions@[f as int].frame_size == of.frame_size,
                    self.functions@[f as int].blocks@.len() == blocks_number,
                    forall|k: int| b <= k < blocks_number ==> #[trigger] self.functions@[f as int].blocks@[k] == of.blocks@[k],
                    forall|k: int| 0 <= k < b ==> step(of.blocks@[k], #[trigger] self.functions@[f as int].blocks@[k]),
                decreases blocks_number - b,
            {
                assert(old(self).functions@[f as int].blocks@[b as int].cfg_inbb.records(
                    old(self).functions@[f as int].blocks@[b as int].tacs@.len(),
                ));
                let ghost pre = self.functions@.take(f as int);
                Self::liveness_analyze_to_bb(&mut self.functions[f].blocks[b]);
                assert(self.functions@.take(f as int) =~= pre);
                b = b + 1;
            }
            proof {
                assert forall|k: int| 0 <= k < f + 1 implies #[trigger] self.functions@.take(f + 1)[k] == if k < f {
                    self.functions@.take(f as int)[k]
                } else {
                    self.functions@[f as int]
                } by {}
            }
            f = f + 1;
        }
        assert(self.functions@.take(functions_number as int) =~= self.functions@);
        assert(old(self).functions@.take(functions_number as int) =~= old(self).functions@);
    }

    /// Records the uses and definitions of one block (see `liveness_recorded`).
    pub fn liveness_analyze_to_bb(bb: &mut BasicBlock)
        requires
            old(bb).cfg_inbb.records(old(bb).tacs@.len()),
        ensures
            liveness_recorded(*old(bb), *final(bb)),
    {
        let n = bb.tacs.len();
        let mut i: usize = 0;
        while i < n
            invariant
                n == bb.tacs@.len(),
                0 <= i <= n,
                bb.label == old(bb).label,
                bb.tacs == old(bb).tacs,
                bb.cfg_inbb.records(n as nat),
                bb.cfg_inbb.used@.len() == old(bb).cfg_inbb.used@.len(),
                bb.cfg_inbb.def@.len() == old(bb).cfg_inbb.def@.len(),
                bb.cfg_inbb.succ == old(bb).cfg_inbb.succ,
                bb.cfg_inbb.prev == old(bb).cfg_inbb.prev,
                forall|k: int| 0 <= k < i ==> (#[trigger] bb.cfg_inbb.used@[k])@ == old(bb).cfg_inbb.used@[k]@.union(tac_used(old(bb).tacs@[k])),
                forall|k: int| 0 <= k < i ==> (#[trigger] bb.cfg_inbb.def@[k])@ == old(bb).cfg_inbb.def@[k]@.union(tac_def(old(bb).tacs@[k])),
                forall|k: int| i <= k < n ==> #[trigger] bb.cfg_inbb.used@[k] == old(bb).cfg_inbb.used@[k],
                forall|k: int| i <= k < n ==> #[trigger] bb.cfg_inbb.def@[k] == old(bb).cfg_inbb.def@[k],
                bb.living@ == old(bb).living@.union_prefer_right(zero_ranges(defined_regs(old(bb).tacs@, i as int))),
            decreases n - i,
        {
            let ghost t = bb.tacs@[i as int];
            let ghost living0 = bb.living@;
            match &bb.tacs[i].kind {
                TacKind::EXPR(var, _operator, left, right) => {
                    if var.is_register() {
                        bb.cfg_inbb.def[i].insert(var.virt);
                        bb.living.insert(var.virt, (0, 0));
                    }
                    if left.is_register() {
                        bb.cfg_inbb.used[i].insert(left.virt);
                    }
                    if right.is_register() {
                        bb.cfg_inbb.used[i].insert(right.virt);
                    }
                },
                TacKind::ASSIGN(_dst_op, src_op) => {
                    if src_op.is_register() {
                        bb.cfg_inbb.used[i].insert(src_op.virt);
                    }
                },
                TacKind::RET(return_op) => {
                    if return_op.is_register() {
                        bb.cfg_inbb.used[i].insert(return_op.virt);
                    }
                },
                TacKind::IFF(op, _label) => {
                    if op.is_register() {
                        bb.cfg_inbb.used[i].insert(op.virt);
                    }
                },
                _ => {},
            }
            proof {
                assert(bb.cfg_inbb.used@[i as int]@ =~= old(bb).cfg_inbb.used@[i as int]@.union(tac_used(t)));
                assert(bb.cfg_inbb.def@[i as int]@ =~= old(bb).cfg_inbb.def@[i as int]@.union(tac_def(t)));
                assert(defined_regs(old(bb).tacs@, i + 1) =~= defined_regs(old(bb).tacs@, i as int).union(tac_def(t)));
                assert(bb.living@ =~= old(bb).living@.union_prefer_right(zero_ranges(defined_regs(old(bb).tacs@, i + 1))));
            }
            i = i + 1;
        }
    }

    /// Solves the liveness equations of one block by iterating them to a
    /// fixed point. The result solves the equations (see
    /// `is_liveness_solution`) and is contained in every solution: it is
    /// the least one.
    #[verifier::spinoff_prover]
    #[verifier::rlimit(40)]
    pub fn liveness_analysis(&mut self, cfg_inbb: ControlFlowGraphInBB, tac_length: usize) -> (r: (LiveInMap, LiveOutMap))
        requires
            cfg_inbb.covers(tac_length as nat),
            succ_in_range(cfg_inbb, tac_length as nat),
        ensures
            *final(self) == *old(self),
            is_liveness_solution(cfg_inbb, tac_length as nat, sets_of(r.0@), sets_of(r.1@)),
            forall|sin: Seq<Set<usize>>, sout: Seq<Set<usize>>|
                #[trigger] is_liveness_solution(cfg_inbb, tac_length as nat, sin, sout) ==> below(
                    tac_length as nat,
                    sets_of(r.0@),
                    sets_of(r.1@),
                    sin,
                    sout,
                ),
    {
        let n = tac_length;
        let ghost g = cfg_inbb;
        let ghost used = sets_of(g.used@);
        let ghost u = all_used(used);
        proof {
            assert forall|i: int| 0 <= i < used.len() implies (#[trigger] used[i]).finite() by {
                lemma_set_finite(&g.used@[i]);
            }
            lemma_all_used_finite(used);
        }
        let mut live_in: Vec<BTreeSet<usize>> = crate::compiler::backend::cfg::empty_sets(n);
        let mut live_out: Vec<BTreeSet<usize>> = crate::compiler::backend::cfg::empty_sets(n);
        let ghost mut gin: Seq<Set<usize>> = sets_of(live_in@);
        let ghost mut gout: Seq<Set<usize>> = sets_of(live_out@);
        proof {
            assert forall|i: int| 0 <= i < n implies (#[trigger] gin[i]).subset_of(u) && gout[i].subset_of(u) by {
                assert(gin[i] == live_in@[i]@);
                assert(gout[i] == live_out@[i]@);
            }
            assert forall|sin: Seq<Set<usize>>, sout: Seq<Set<usize>>|
                #[trigger] is_liveness_solution(g, n as nat, sin, sout) implies below(n as nat, gin, gout, sin, sout) by {
                assert forall|i: int| 0 <= i < n implies (#[trigger] gin[i]).subset_of(sin[i]) && gout[i].subset_of(sout[i]) by {
                    assert(gin[i] == live_in@[i]@);
                    assert(gout[i] == live_out@[i]@);
                }
            }
            assert forall|i: int| 0 <= i < n implies (#[trigger] gout[i]).subset_of(succ_union(g.succ@[i]@, gin)) by {
                assert(gout[i] == live_out@[i]@);
            }
            assert forall|i: int| 0 <= i < n implies (#[trigger] gin[i]).subset_of(g.used@[i]@.union(gout[i].difference(g.def@[i]@))) by {
                assert(gin[i] == live_in@[i]@);
            }
        }
        loop
            invariant
                g == cfg_inbb,
                cfg_inbb.covers(n as nat),
                succ_in_range(cfg_inbb, n as nat),
                used == sets_of(g.used@),
                u == all_used(used),
                u.finite(),
                live_in@.len() == n,
                live_out@.len() == n,
                gin == sets_of(live_in@),
                gout == sets_of(live_out@),
                gin.len() == n,
                gout.len() == n,
                forall|i: int| 0 <= i < n ==> (#[trigger] gin[i]).subset_of(u) && gout[i].subset_of(u),
                forall|i: int| 0 <= i < n ==> (#[trigger] gout[i]).subset_of(succ_union(g.succ@[i]@, gin)),
                forall|i: int|
                    0 <= i < n ==> (#[trigger] gin[i]).subset_of(g.used@[i]@.union(gout[i].difference(g.def@[i]@))),
                forall|sin: Seq<Set<usize>>, sout: Seq<Set<usize>>|
                    #[trigger] is_liveness_solution(g, n as nat, sin, sout) ==> below(n as nat, gin, gout, sin, sout),
            ensures
                gin == sets_of(live_in@),
                gout == sets_of(live_out@),
                is_liveness_solution(g, n as nat, gin, gout),
                forall|sin: Seq<Set<usize>>, sout: Seq<Set<usize>>|
                    #[trigger] is_liveness_solution(g, n as nat, sin, sout) ==> below(n as nat, gin, gout, sin, sout),
            decreases 2 * n * u.len() - total_size(gin, gout, n as int),
        {
            let ghost in0 = gin;
            let ghost out0 = gout;
            let mut in_dash: Vec<BTreeSet<usize>> = Vec::new();
            let mut out_dash: Vec<BTreeSet<usize>> = Vec::new();
            let ghost mut gin_dash: Seq<Set<usize>> = Seq::empty();
            let ghost mut gout_dash: Seq<Set<usize>> = Seq::empty();
            let mut idx: usize = 0;
            while idx < n
                invariant
                    g == cfg_inbb,
                    cfg_inbb.covers(n as nat),
                    succ_in_range(cfg_inbb, n as nat),
                    used == sets_of(g.used@),
                    u == all_used(used),
                    u.finite(),
                    in0.len() == n,
                    out0.len() == n,
                    0 <= idx <= n,
                    live_in@.len() == n,
                    live_out@.len() == n,
                    gin == sets_of(live_in@),
                    gout == sets_of(live_out@),
                    gin.len() == n,
                    gout.len() == n,
                    gin_dash == sets_of(in_dash@),
                    gout_dash == sets_of(out_dash@),
                    gin_dash.len() == idx,
                    gout_dash.len() == idx,
                    forall|k: int| 0 <= k < idx ==> #[trigger] gin_dash[k] == in0[k] && gout_dash[k] == out0[k],
                    forall|i: int| 0 <= i < n ==> in0[i].subset_of(#[trigger] gin[i]),
                    forall|i: int| 0 <= i < n ==> out0[i].subset_of(#[trigger] gout[i]),
                    forall|i: int| idx <= i < n ==> in0[i] == #[trigger] gin[i],
                    forall|i: int| idx <= i < n ==> out0[i] == #[trigger] gout[i],
                    forall|i: int| 0 <= i < n ==> (#[trigger] gin[i]).subset_of(u) && gout[i].subset_of(u),
                    forall|i: int| 0 <= i < n ==> (#[trigger] gout[i]).subset_of(succ_union(g.succ@[i]@, gin)),
                    forall|i: int|
                        0 <= i < n ==> (#[trigger] gin[i]).subset_of(g.used@[i]@.union(gout[i].difference(g.def@[i]@))),
                    forall|k: int| 0 <= k < idx ==> (#[trigger] gin[k]) == g.used@[k]@.union(gout[k].difference(g.def@[k]@)),
                    forall|k: int, s: usize| 0 <= k < idx && #[trigger] g.succ@[k]@.contains(s) ==> in0[s as int].subset_of(gout[k]),
                    forall|sin: Seq<Set<usize>>, sout: Seq<Set<usize>>|
                        #[trigger] is_liveness_solution(g, n as nat, sin, sout) ==> below(n as nat, gin, gout, sin, sout),
                decreases n - idx,
            {
                assert(gin[idx as int] == live_in@[idx as int]@);
                assert(gout[idx as int] == live_out@[idx as int]@);
                in_dash.push(copy_set(&live_in[idx]));
                out_dash.push(copy_set(&live_out[idx]));
                proof {
                    gin_dash = gin_dash.push(gin[idx as int]);
                    gout_dash = gout_dash.push(gout[idx as int]);
                    assert(gin_dash =~= sets_of(in_dash@));
                    assert(gout_dash =~= sets_of(out_dash@));
                }
                let ghost out_before = gout[idx as int];
                let ghost ins_now = gin;
                let ghost outs_now = gout;
                let mut out_new = copy_set(&live_out[idx]);
                let succ_set: &BTreeSet<usize> = &cfg_inbb.succ[idx];
                let ghost succ_seq = vstd::std_specs::btree::spec_btree_keys_iter(succ_set).remaining().unref();
                for s in it: succ_set.iter()
                    invariant
                        it.seq().unref() == succ_seq,
                        *succ_set == cfg_inbb.succ@[idx as int],
                        succ_seq.to_set() == cfg_inbb.succ@[idx as int]@,
                        succ_in_range(cfg_inbb, n as nat),
                        cfg_inbb.covers(n as nat),
                        0 <= idx < n,
                        live_in@.len() == n,
                        ins_now == sets_of(live_in@),
                        out_new@ == out_before.union(partial_union(succ_seq, ins_now, it.index() as int)),
                {
                    let ghost j0 = it.index();
                    assert(succ_seq.to_set().contains(succ_seq[j0]));
                    assert(ins_now[succ_seq[j0] as int] == live_in@[succ_seq[j0] as int]@);
                    union_into(&mut out_new, &live_in[*s]);
                    proof {
                        lemma_partial_union_step(succ_seq, ins_now, j0);
                        assert(out_new@ =~= out_before.union(partial_union(succ_seq, ins_now, j0 + 1)));
                    }
                }
                proof {
                    lemma_partial_union_full(succ_seq, cfg_inbb.succ@[idx as int]@, ins_now);
                }
                let ghost out_val = out_new@;
                live_out.set(idx, out_new);
                let d = difference(&live_out[idx], &cfg_inbb.def[idx]);
                let mut in_new = copy_set(&cfg_inbb.used[idx]);
                union_into(&mut in_new, &d);
                let ghost in_val = in_new@;
                live_in.set(idx, in_new);
                proof {
                    lemma_all_used(used, idx as int);
                    assert(used[idx as int] == g.used@[idx as int]@);
                    lemma_liveness_step(g, n as nat, u, in0, out0, ins_now, outs_now, idx as int);
                    gin = ins_now.update(idx as int, in_val);
                    gout = outs_now.update(idx as int, out_val);
                    assert(gin =~= sets_of(live_in@));
                    assert(gout =~= sets_of(live_out@));
                }
                idx = idx + 1;
            }
            let mut chg_flg: bool = true;
            let mut k: usize = 0;
            while k < n
                invariant
                    0 <= k <= n,
                    live_in@.len() == n,
                    live_out@.len() == n,
                    in_dash@.len() == n,
                    out_dash@.len() == n,
                    gin == sets_of(live_in@),
                    gout == sets_of(live_out@),
                    gin_dash == sets_of(in_dash@),
                    gout_dash == sets_of(out_dash@),
                    in0.len() == n,
                    out0.len() == n,
                    gin.len() == n,
                    gout.len() == n,
                    gin_dash.len() == n,
                    gout_dash.len() == n,
                    forall|j: int| 0 <= j < n ==> #[trigger] gin_dash[j] == in0[j] && gout_dash[j] == out0[j],
                    chg_flg <==> forall|j: int| 0 <= j < k ==> #[trigger] same_at(gin, gout, gin_dash, gout_dash, j),
                decreases n - k,
            {
                let ghost before_flag = chg_flg;
                assert(gin[k as int] == live_in@[k as int]@);
                assert(gout[k as int] == live_out@[k as int]@);
                assert(gin_dash[k as int] == in_dash@[k as int]@);
                assert(gout_dash[k as int] == out_dash@[k as int]@);
                if !set_equal(&live_in[k], &in_dash[k]) {
                    chg_flg = false;
                }
                if !set_equal(&live_out[k], &out_dash[k]) {
                    chg_flg = false;
                }
                proof {
                    assert(chg_flg == (before_flag && same_at(gin, gout, gin_dash, gout_dash, k as int)));
                    if chg_flg {
                        assert forall|j: int| 0 <= j < k + 1 implies #[trigger] same_at(gin, gout, gin_dash, gout_dash, j) by {}
                    }
                }
                k = k + 1;
            }
            if chg_flg {
                proof {
                    assert forall|j: int| 0 <= j < n implies gin[j] == in0[j] && gout[j] == out0[j] by {
                        assert(same_at(gin, gout, gin_dash, gout_dash, j));
                    }
                    assert(gin =~= in0);
                    assert(gout =~= out0);
                    lemma_liveness_fixpoint(g, n as nat, in0, out0, gin, gout);
                }
                break;
            }
            proof {
                let j = choose|j: int| 0 <= j < n && !#[trigger] same_at(gin, gout, gin_dash, gout_dash, j);
                assert(gin_dash[j] == in0[j] && gout_dash[j] == out0[j]);
                assert(in0[j] != gin[j] || out0[j] != gout[j]);
                lemma_total_grows(in0, out0, gin, gout, u, n as int);
                lemma_total_bound(gin, gout, u, n as int);
            }
        }
        (live_in, live_out)
    }
}

} // verus!
