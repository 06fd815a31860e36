use std::collections::BTreeMap;
use vstd::prelude::*;
use vstd::std_specs::iter::IteratorSpec;

use crate::compiler::backend::high_optimizer::HighOptimizer;
use crate::compiler::ir::three_address_code::basicblock::BasicBlock;
use crate::compiler::ir::three_address_code::function::IRFunction;
use crate::compiler::ir::three_address_code::tac::ThreeAddressCode;
use crate::compiler::ir::three_address_code::tac_kind::{OpeKind, Operand, TacKind};

verus! {

broadcast use {vstd::std_specs::btree::group_btree_axioms, vstd::laws_cmp::group_laws_cmp};

/// `m` without the registers whose live range ended before instruction `now`.
pub open spec fn reduced(living: Map<usize, (usize, usize)>, m: Map<usize, usize>, now: int) -> Map<usize, usize> {
    Map::new(|k: usize| m.contains_key(k) && !(living.contains_key(k) && living[k].1 < now), |k: usize| m[k])
}

/// `n` is the lowest physical register that no register in `m` holds.
pub open spec fn is_lowest_free(m: Map<usize, usize>, n: usize) -> bool {
    &&& !m.values().contains(n)
    &&& forall|k: usize| k < n ==> #[trigger] m.values().contains(k)
}

/// The lowest physical register that no register in `m` holds.
pub open spec fn fresh(m: Map<usize, usize>) -> usize {
    choose|n: usize| is_lowest_free(m, n)
}

/// No two registers in `m` hold the same physical register.
pub open spec fn injective(m: Map<usize, usize>) -> bool {
    forall|a: usize, b: usize| m.contains_key(a) && m.contains_key(b) && a != b ==> #[trigger] m[a] != #[trigger] m[b]
}

/// Some number no larger than the number of registers in a finite map is
/// held by none of them.
pub proof fn lemma_free_exists(m: Map<usize, usize>)
    requires
        m.dom().finite(),
        m.dom().len() < usize::MAX,
    ensures
        exists|n: usize| n <= m.dom().len() && !m.values().contains(n),
{
    let l = m.dom().len();
    if forall|n: usize| n <= l ==> m.values().contains(n) {
        let f = |k: usize| m[k] as int;
        let vals = m.dom().map(f);
        vstd::set_lib::lemma_map_size_bound(m.dom(), vals, f);
        let r = vstd::set_lib::set_int_range(0, l as int + 1);
        vstd::set_lib::lemma_int_range(0, l as int + 1);
        assert forall|i: int| r.contains(i) implies vals.contains(i) by {
            let n = i as usize;
            assert(m.values().contains(n));
            let k = choose|k: usize| m.dom().contains(k) && m[k] == n;
            assert(f(k) == i);
        }
        vstd::set_lib::lemma_len_subset(r, vals);
        assert(false);
    }
}

/// Below a free number there is a lowest free one.
pub proof fn lemma_lowest_exists(m: Map<usize, usize>, n0: usize)
    requires
        !m.values().contains(n0),
    ensures
        exists|n: usize| n <= n0 && is_lowest_free(m, n),
    decreases n0,
{
    if forall|k: usize| k < n0 ==> #[trigger] m.values().contains(k) {
        assert(is_lowest_free(m, n0));
    } else {
        let k = choose|k: usize| k < n0 && !m.values().contains(k);
        lemma_lowest_exists(m, k);
    }
}

/// The lowest free number is free and every smaller one is held.
pub proof fn lemma_fresh(m: Map<usize, usize>)
    requires
        m.dom().finite(),
        m.dom().len() < usize::MAX,
    ensures
        is_lowest_free(m, fresh(m)),
        fresh(m) <= m.dom().len(),
{
    lemma_free_exists(m);
    let n0 = choose|n: usize| n <= m.dom().len() && !m.values().contains(n);
    lemma_lowest_exists(m, n0);
    let n = fresh(m);
    assert(is_lowest_free(m, n));
    if n > n0 {
        assert(m.values().contains(n0));
    }
}

/// There is one lowest free number.
pub proof fn lemma_lowest_unique(m: Map<usize, usize>, a: usize, b: usize)
    requires
        is_lowest_free(m, a),
        is_lowest_free(m, b),
    ensures
        a == b,
{
    if a < b {
        assert(m.values().contains(a));
    }
    if b < a {
        assert(m.values().contains(b));
    }
}

/// A register operand has an entry in `m`.
pub open spec fn found(m: Map<usize, usize>, op: Operand) -> bool {
    op.kind is REG ==> m.contains_key(op.virt)
}

/// The operand with the physical register `m` gives it, if it is a register.
pub open spec fn with_phys(m: Map<usize, usize>, op: Operand) -> Operand {
    if op.kind is REG {
        Operand { kind: op.kind, virt: op.virt, phys: m[op.virt] }
    } else {
        op
    }
}

/// The operand given the physical register `phys`.
pub open spec fn assigned(op: Operand, phys: nat) -> Operand {
    Operand { kind: op.kind, virt: op.virt, phys: phys as usize }
}

/// Every register that instruction `t` at position `now` reads is in the
/// register map `m` when it is read: nothing has to be spilled.
pub open spec fn alloc_found(living: Map<usize, (usize, usize)>, t: ThreeAddressCode, m: Map<usize, usize>, now: int) -> bool {
    match t.kind {
        TacKind::UNARYEXPR(_, _, inner) => found(m, inner),
        TacKind::EXPR(_, _, left, right) => found(m, left) && found(reduced(living, m, now), right),
        TacKind::ASSIGN(_, src) => found(m, src),
        TacKind::RET(op) => found(m, op),
        TacKind::IFF(op, _) => found(m, op),
        _ => true,
    }
}

/// Instruction `t` at position `now` with physical registers filled in from
/// the register map `m`: read registers take the number the map holds, the
/// written register takes the lowest number no register still live holds.
pub open spec fn alloc_tac(living: Map<usize, (usize, usize)>, t: ThreeAddressCode, m: Map<usize, usize>, now: int) -> ThreeAddressCode {
    let m1 = reduced(living, m, now);
    match t.kind {
        TacKind::UNARYEXPR(var, op, inner) => ThreeAddressCode {
            kind: TacKind::UNARYEXPR(assigned(var, fresh(m1) as nat), op, with_phys(m, inner)),
        },
        TacKind::EXPR(var, op, left, right) => ThreeAddressCode {
            kind: TacKind::EXPR(assigned(var, fresh(m1) as nat), op, with_phys(m, left), with_phys(m1, right)),
        },
        TacKind::ASSIGN(dst, src) => ThreeAddressCode { kind: TacKind::ASSIGN(dst, with_phys(m, src)) },
        TacKind::RET(op) => ThreeAddressCode { kind: TacKind::RET(with_phys(m, op)) },
        TacKind::IFF(op, label) => ThreeAddressCode { kind: TacKind::IFF(with_phys(m, op), label) },
        _ => t,
    }
}

/// The register map after instruction `t` at position `now`.
pub open spec fn alloc_map(living: Map<usize, (usize, usize)>, t: ThreeAddressCode, m: Map<usize, usize>, now: int) -> Map<usize, usize> {
    let m1 = reduced(living, m, now);
    let m2 = match t.kind {
        TacKind::UNARYEXPR(var, _, _) => m1.insert(var.virt, fresh(m1)),
        TacKind::EXPR(var, _, _, _) => m1.insert(var.virt, fresh(m1)),
        _ => m,
    };
    reduced(living, m2, now)
}

/// The register map before instruction `k` of a block.
pub open spec fn map_before(living: Map<usize, (usize, usize)>, tacs: Seq<ThreeAddressCode>, k: int) -> Map<usize, usize>
    decreases k,
{
    if k <= 0 {
        Map::empty()
    } else {
        alloc_map(living, tacs[k - 1], map_before(living, tacs, k - 1), k - 1)
    }
}

/// Allocation of the block never needs a register the map does not hold.
pub open spec fn no_spill(living: Map<usize, (usize, usize)>, tacs: Seq<ThreeAddressCode>) -> bool {
    forall|k: int| 0 <= k < tacs.len() ==> #[trigger] alloc_found(living, tacs[k], map_before(living, tacs, k), k)
}

/// After some instruction the block holds at least `available` registers.
pub open spec fn regs_exceeded(living: Map<usize, (usize, usize)>, tacs: Seq<ThreeAddressCode>, available: nat) -> bool {
    exists|k: int| 0 <= k < tacs.len() && available <= #[trigger] map_before(living, tacs, k + 1).len()
}

/// `after` is `before` with physical registers allocated.
pub open spec fn block_allocated(before: BasicBlock, after: BasicBlock) -> bool {
    let living = before.living@;
    let tacs = before.tacs@;
    &&& after.label == before.label
    &&& after.living == before.living
    &&& after.cfg_inbb == before.cfg_inbb
    &&& after.tacs@.len() == tacs.len()
    &&& forall|k: int| 0 <= k < tacs.len() ==> #[trigger] after.tacs@[k] == alloc_tac(living, tacs[k], map_before(living, tacs, k), k)
}

/// `after` is `before` with physical registers allocated in every block.
pub open spec fn function_allocated(before: IRFunction, after: IRFunction) -> bool {
    &&& after.name == before.name
    &&& after.frame_size == before.frame_size
    &&& after.blocks@.len() == before.blocks@.len()
    &&& forall|b: int| 0 <= b < before.blocks@.len() ==> #[trigger] block_allocated(before.blocks@[b], after.blocks@[b])
}

/// Every block of every function can be allocated without spilling.
pub open spec fn functions_spill_free(fs: Seq<IRFunction>) -> bool {
    forall|f: int, b: int|
        0 <= f < fs.len() && 0 <= b < fs[f].blocks@.len() ==> no_spill(
            (#[trigger] fs[f].blocks@[b]).living@,
            fs[f].blocks@[b].tacs@,
        )
}

/// Some block of some function holds at least `available` registers at once.
pub open spec fn functions_exceed(fs: Seq<IRFunction>, available: nat) -> bool {
    exists|f: int, b: int|
        0 <= f < fs.len() && 0 <= b < fs[f].blocks@.len() && regs_exceeded(
            (#[trigger] fs[f].blocks@[b]).living@,
            fs[f].blocks@[b].tacs@,
            available,
        )
}

/// Reducing twice at the same position is reducing once.
pub proof fn lemma_reduced_idempotent(living: Map<usize, (usize, usize)>, m: Map<usize, usize>, now: int)
    ensures
        reduced(living, reduced(living, m, now), now) == reduced(living, m, now),
{
    assert(reduced(living, reduced(living, m, now), now) =~= reduced(living, m, now));
}

/// Dropping ended registers keeps a map finite, no larger, and injective.
pub proof fn lemma_reduced_sub(living: Map<usize, (usize, usize)>, m: Map<usize, usize>, now: int)
    requires
        m.dom().finite(),
    ensures
        reduced(living, m, now).dom().finite(),
        reduced(living, m, now).dom().len() <= m.dom().len(),
        injective(m) ==> injective(reduced(living, m, now)),
{
    let r = reduced(living, m, now);
    assert(r.dom().subset_of(m.dom()));
    vstd::set_lib::lemma_len_subset(r.dom(), m.dom());
}

/// Before instruction `k` the register map has at most `k` entries, and no
/// two registers in it hold the same physical register.
pub proof fn lemma_map_before(living: Map<usize, (usize, usize)>, tacs: Seq<ThreeAddressCode>, k: int)
    requires
        k <= usize::MAX,
    ensures
        map_before(living, tacs, k).dom().finite(),
        map_before(living, tacs, k).dom().len() <= if k < 0 { 0 } else { k },
        injective(map_before(living, tacs, k)),
    decreases k,
{
    if k > 0 {
        let m = map_before(living, tacs, k - 1);
        lemma_map_before(living, tacs, k - 1);
        let t = tacs[k - 1];
        let m1 = reduced(living, m, k - 1);
        lemma_reduced_sub(living, m, k - 1);
        let m2 = match t.kind {
            TacKind::UNARYEXPR(var, _, _) => m1.insert(var.virt, fresh(m1)),
            TacKind::EXPR(var, _, _, _) => m1.insert(var.virt, fresh(m1)),
            _ => m,
        };
        if t.kind is UNARYEXPR || t.kind is EXPR {
            lemma_fresh(m1);
            let v = if t.kind is UNARYEXPR { t.kind->UNARYEXPR_0.virt } else { t.kind->EXPR_0.virt };
            assert(m2 == m1.insert(v, fresh(m1)));
            assert(m2.dom() == m1.dom().insert(v));
            assert forall|a: usize, b: usize| m2.contains_key(a) && m2.contains_key(b) && a != b implies #[trigger] m2[a]
                != #[trigger] m2[b] by {
                if a != v && b != v {
                    assert(m1[a] != m1[b]);
                } else if a == v {
                    assert(m1.values().contains(m1[b]));
                } else {
                    assert(m1.values().contains(m1[a]));
                }
            }
        }
        lemma_reduced_sub(living, m2, k - 1);
    }
}

/// The register an instruction writes, if it writes one.
pub open spec fn dest(t: ThreeAddressCode) -> Option<Operand> {
    match t.kind {
        TacKind::UNARYEXPR(var, _, _) => Some(var),
        TacKind::EXPR(var, _, _, _) => Some(var),
        _ => None,
    }
}

/// The operands an instruction reads, in order.
pub open spec fn read_operands(t: ThreeAddressCode) -> Seq<Operand> {
    match t.kind {
        TacKind::UNARYEXPR(_, _, inner) => seq![inner],
        TacKind::EXPR(_, _, left, right) => seq![left, right],
        TacKind::ASSIGN(_, src) => seq![src],
        TacKind::RET(op) => seq![op],
        TacKind::IFF(op, _) => seq![op],
        _ => seq![],
    }
}

/// No instruction strictly between `i` and `j` writes virtual register `v`.
pub open spec fn unwritten_between(tacs: Seq<ThreeAddressCode>, v: usize, i: int, j: int) -> bool {
    forall|l: int| i < l < j && #[trigger] dest(tacs[l]) is Some ==> dest(tacs[l])->0.virt != v
}

/// A register written at `i`, live through instruction `l - 1` and not
/// written again before `l`, keeps in the map before `l` the physical
/// register it was given at `i`.
pub proof fn lemma_kept(living: Map<usize, (usize, usize)>, tacs: Seq<ThreeAddressCode>, i: int, l: int)
    requires
        0 <= i < l <= tacs.len(),
        dest(tacs[i]) is Some,
        living.contains_key(dest(tacs[i])->0.virt),
        l <= living[dest(tacs[i])->0.virt].1 + 1,
        unwritten_between(tacs, dest(tacs[i])->0.virt, i, l),
    ensures
        map_before(living, tacs, l).contains_key(dest(tacs[i])->0.virt),
        map_before(living, tacs, l)[dest(tacs[i])->0.virt] == fresh(reduced(living, map_before(living, tacs, i), i)),
    decreases l,
{
    let v = dest(tacs[i])->0.virt;
    if l > i + 1 {
        lemma_kept(living, tacs, i, l - 1);
        let t = tacs[l - 1];
        assert(dest(t) is Some ==> dest(t)->0.virt != v);
    }
}

/// Two values live at the same time never share a physical register: a
/// register written at `i` and still live at `j`, where another register
/// is written, holds a physical register other than the one that other
/// register is given.
pub proof fn lemma_live_registers_distinct(before: BasicBlock, after: BasicBlock, i: int, j: int)
    requires
        block_allocated(before, after),
        0 <= i < j < before.tacs@.len(),
        dest(before.tacs@[i]) is Some,
        dest(before.tacs@[j]) is Some,
        dest(before.tacs@[i])->0.virt != dest(before.tacs@[j])->0.virt,
        before.living@.contains_key(dest(before.tacs@[i])->0.virt),
        j <= before.living@[dest(before.tacs@[i])->0.virt].1,
        unwritten_between(before.tacs@, dest(before.tacs@[i])->0.virt, i, j),
    ensures
        dest(after.tacs@[i]) is Some,
        dest(after.tacs@[j]) is Some,
        dest(after.tacs@[i])->0.phys != dest(after.tacs@[j])->0.phys,
{
    let living = before.living@;
    let tacs = before.tacs@;
    let v = dest(tacs[i])->0.virt;
    let p = fresh(reduced(living, map_before(living, tacs, i), i));
    lemma_kept(living, tacs, i, j);
    let mj = map_before(living, tacs, j);
    let m1 = reduced(living, mj, j);
    assert(after.tacs@[i] == alloc_tac(living, tacs[i], map_before(living, tacs, i), i));
    assert(after.tacs@[j] == alloc_tac(living, tacs[j], mj, j));
    assert(before.tacs@.len() == before.tacs.len());
    lemma_map_before(living, tacs, j);
    lemma_reduced_sub(living, mj, j);
    lemma_fresh(m1);
    assert(m1.contains_key(v) && m1[v] == p);
    assert(m1.values().contains(p));
}

/// A read of a register gets the physical register its last write was given,
/// as long as the register is live there.
pub proof fn lemma_read_gets_written_register(before: BasicBlock, after: BasicBlock, i: int, j: int, r: int)
    requires
        block_allocated(before, after),
        0 <= i < j < before.tacs@.len(),
        dest(before.tacs@[i]) is Some,
        before.living@.contains_key(dest(before.tacs@[i])->0.virt),
        j <= before.living@[dest(before.tacs@[i])->0.virt].1,
        unwritten_between(before.tacs@, dest(before.tacs@[i])->0.virt, i, j),
        0 <= r < read_operands(before.tacs@[j]).len(),
        read_operands(before.tacs@[j])[r].kind is REG,
        read_operands(before.tacs@[j])[r].virt == dest(before.tacs@[i])->0.virt,
    ensures
        dest(after.tacs@[i]) is Some,
        r < read_operands(after.tacs@[j]).len(),
        read_operands(after.tacs@[j])[r].phys == dest(after.tacs@[i])->0.phys,
{
    let living = before.living@;
    let tacs = before.tacs@;
    let v = dest(tacs[i])->0.virt;
    lemma_kept(living, tacs, i, j);
    let mj = map_before(living, tacs, j);
    let m1 = reduced(living, mj, j);
    assert(after.tacs@[i] == alloc_tac(living, tacs[i], map_before(living, tacs, i), i));
    assert(after.tacs@[j] == alloc_tac(living, tacs[j], mj, j));
    assert(m1.contains_key(v) && m1[v] == mj[v]);
}

/// The keys of a map, each once.
pub fn map_keys<V>(m: &BTreeMap<usize, V>) -> (keys: Vec<usize>)
    ensures
        keys@.to_set() == m@.dom(),
        keys@.no_duplicates(),
{
    let mut keys: Vec<usize> = Vec::new();
    let ghost key_seq = vstd::std_specs::btree::spec_keys_iter(m).remaining().unref();
    for k in it: m.keys()
        invariant
            it.seq().unref() == key_seq,
            key_seq.to_set() == m@.dom(),
            keys@ == key_seq.take(it.index() as int),
    {
        keys.push(*k);
        proof {
            assert(key_seq.take(it.index() + 1) =~= key_seq.take(it.index() as int).push(key_seq[it.index() as int]));
        }
    }
    assert(key_seq.take(key_seq.len() as int) =~= key_seq);
    proof {
        let rem = vstd::std_specs::btree::spec_keys_iter(m).remaining();
        assert(rem.no_duplicates());
        assert forall|a: int, b: int| 0 <= a < key_seq.len() && 0 <= b < key_seq.len() && a != b implies key_seq[a]
            != key_seq[b] by {
            assert(rem[a] != rem[b]);
        }
    }
    keys
}

/// Whether some register in `m` holds the physical register `n`.
fn holds_value(m: &BTreeMap<usize, usize>, n: usize) -> (b: bool)
    ensures
        b == m@.values().contains(n),
{
    let keys = map_keys(m);
    let mut j: usize = 0;
    while j < keys.len()
        invariant
            keys@.to_set() == m@.dom(),
            0 <= j <= keys@.len(),
            forall|q: int| 0 <= q < j ==> m@[#[trigger] keys@[q]] != n,
        decreases keys@.len() - j,
    {
        assert(keys@.to_set().contains(keys@[j as int]));
        if *m.get(&keys[j]).unwrap() == n {
            return true;
        }
        j = j + 1;
    }
    proof {
        if m@.values().contains(n) {
            let k = choose|k: usize| m@.dom().contains(k) && m@[k] == n;
            assert(keys@.to_set().contains(k));
            let q = choose|q: int| 0 <= q < keys@.len() && keys@[q] == k;
            assert(m@[keys@[q]] != n);
        }
    }
    false
}

/// The lowest physical register that no register in `m` holds.
fn lowest_free(m: &BTreeMap<usize, usize>) -> (n: usize)
    requires
        m@.dom().len() < usize::MAX,
    ensures
        n == fresh(m@),
{
    proof {
        lemma_free_exists(m@);
    }
    let ghost n0 = choose|n: usize| n <= m@.dom().len() && !m@.values().contains(n);
    let mut n: usize = 0;
    while holds_value(m, n)
        invariant
            n <= n0,
            n0 <= m@.dom().len() < usize::MAX,
            !m@.values().contains(n0),
            forall|k: usize| k < n ==> #[trigger] m@.values().contains(k),
        decreases n0 - n,
    {
        n = n + 1;
    }
    proof {
        assert(is_lowest_free(m@, n));
        lemma_lowest_unique(m@, n, fresh(m@));
    }
    n
}

/// The physical register of a register operand, from the map; `None` when
/// the map has no entry for it.
fn lookup_phys(register_map: &BTreeMap<usize, usize>, op: &Operand) -> (r: Option<Operand>)
    ensures
        r is Some <==> found(register_map@, *op),
        r is Some ==> r->0 == with_phys(register_map@, *op),
{
    match op.kind {
        OpeKind::REG => match register_map.get(&op.virt) {
            Some(allocated_number) => Some(Operand { kind: op.kind.duplicate(), virt: op.virt, phys: *allocated_number }),
            None => None,
        },
        _ => Some(op.duplicate()),
    }
}

/// Allocates the instructions of one block; `None` when a register would
/// have to be spilled. Otherwise the allocated instructions, and whether
/// the block at some point holds `available_registers` registers or more.
pub fn allocate_tacs(
    living: &BTreeMap<usize, (usize, usize)>,
    tacs: &Vec<ThreeAddressCode>,
    available_registers: usize,
) -> (r: Option<(Vec<ThreeAddressCode>, bool)>)
    ensures
        r is Some <==> no_spill(living@, tacs@),
        r matches Some((out, exceeded)) ==> {
            &&& out@.len() == tacs@.len()
            &&& forall|k: int|
                0 <= k < tacs@.len() ==> #[trigger] out@[k] == alloc_tac(living@, tacs@[k], map_before(living@, tacs@, k), k)
            &&& exceeded == regs_exceeded(living@, tacs@, available_registers as nat)
        },
{
    let mut register_map: BTreeMap<usize, usize> = BTreeMap::new();
    let mut out: Vec<ThreeAddressCode> = Vec::new();
    let mut exceeded = false;
    let n = tacs.len();
    let mut now_looking: usize = 0;
    while now_looking < n
        invariant
            n == tacs@.len(),
            0 <= now_looking <= n,
            register_map@ == map_before(living@, tacs@, now_looking as int),
            out@.len() == now_looking,
            forall|k: int|
                0 <= k < now_looking ==> #[trigger] out@[k] == alloc_tac(living@, tacs@[k], map_before(living@, tacs@, k), k),
            forall|k: int| 0 <= k < now_looking ==> #[trigger] alloc_found(living@, tacs@[k], map_before(living@, tacs@, k), k),
            exceeded == exists|k: int| 0 <= k < now_looking && available_registers <= #[trigger] map_before(living@, tacs@, k + 1).len(),
        decreases n - now_looking,
    {
        let ghost m = register_map@;
        let ghost t = tacs@[now_looking as int];
        let ghost i = now_looking as int;
        proof {
            lemma_reduced_idempotent(living@, m, i);
            lemma_map_before(living@, tacs@, i);
            lemma_reduced_sub(living@, m, i);
        }
        let allocated = match &tacs[now_looking].kind {
            TacKind::UNARYEXPR(var_op, operator, inner) => {
                let inner_new = match lookup_phys(&register_map, inner) {
                    Some(o) => o,
                    None => {
                        proof {
                            assert(!alloc_found(living@, tacs@[i], map_before(living@, tacs@, i), i));
                        }
                        return None;
                    },
                };
                HighOptimizer::reduce_register_number(living, &mut register_map, now_looking);
                let phys = lowest_free(&register_map);
                let var_new = Operand { kind: var_op.kind.duplicate(), virt: var_op.virt, phys };
                register_map.insert(var_op.virt, phys);
                ThreeAddressCode { kind: TacKind::UNARYEXPR(var_new, operator.duplicate(), inner_new) }
            },
            TacKind::EXPR(var_op, operator, left, right) => {
                let left_new = match lookup_phys(&register_map, left) {
                    Some(o) => o,
                    None => {
                        proof {
                            assert(!alloc_found(living@, tacs@[i], map_before(living@, tacs@, i), i));
                        }
                        return None;
                    },
                };
                HighOptimizer::reduce_register_number(living, &mut register_map, now_looking);
                let right_new = match lookup_phys(&register_map, right) {
                    Some(o) => o,
                    None => {
                        proof {
                            assert(!alloc_found(living@, tacs@[i], map_before(living@, tacs@, i), i));
                        }
                        return None;
                    },
                };
                HighOptimizer::reduce_register_number(living, &mut register_map, now_looking);
                let phys = lowest_free(&register_map);
                let var_new = Operand { kind: var_op.kind.duplicate(), virt: var_op.virt, phys };
                register_map.insert(var_op.virt, phys);
                ThreeAddressCode { kind: TacKind::EXPR(var_new, operator.duplicate(), left_new, right_new) }
            },
            TacKind::ASSIGN(var_op, src_op) => {
                let src_new = match lookup_phys(&register_map, src_op) {
                    Some(o) => o,
                    None => {
                        proof {
                            assert(!alloc_found(living@, tacs@[i], map_before(living@, tacs@, i), i));
                        }
                        return None;
                    },
                };
                ThreeAddressCode { kind: TacKind::ASSIGN(var_op.duplicate(), src_new) }
            },
            TacKind::RET(return_op) => {
                let op_new = match lookup_phys(&register_map, return_op) {
                    Some(o) => o,
                    None => {
                        proof {
                            assert(!alloc_found(living@, tacs@[i], map_before(living@, tacs@, i), i));
                        }
                        return None;
                    },
                };
                ThreeAddressCode { kind: TacKind::RET(op_new) }
            },
            TacKind::IFF(op, label) => {
                let op_new = match lookup_phys(&register_map, op) {
                    Some(o) => o,
                    None => {
                        proof {
                            assert(!alloc_found(living@, tacs@[i], map_before(living@, tacs@, i), i));
                        }
                        return None;
                    },
                };
                ThreeAddressCode { kind: TacKind::IFF(op_new, label.clone()) }
            },
            TacKind::GOTO(label) => ThreeAddressCode { kind: TacKind::GOTO(label.clone()) },
            TacKind::LABEL(label) => ThreeAddressCode { kind: TacKind::LABEL(label.clone()) },
        };
        HighOptimizer::reduce_register_number(living, &mut register_map, now_looking);
        proof {
            assert(allocated == alloc_tac(living@, t, m, i));
            assert(register_map@ == alloc_map(living@, t, m, i));
            assert(map_before(living@, tacs@, i + 1) == alloc_map(living@, t, m, i));
        }
        if available_registers <= register_map.len() {
            exceeded = true;
        }
        out.push(allocated);
        now_looking = now_looking + 1;
    }
    Some((out, exceeded))
}

impl HighOptimizer {
    /// Allocates physical registers in every block of every function (see
    /// `block_allocated`). Returns whether some block at some point holds
    /// `available_registers` registers or more, which the caller reports.
    pub fn register_allocation_for_virtual_registers(&mut self, available_registers: usize) -> (exceeded: bool)
        requires
            functions_spill_free(old(self).functions@),
        ensures
            final(self).functions@.len() == old(self).functions@.len(),
            forall|f: int|
                0 <= f < old(self).functions@.len() ==> #[trigger] function_allocated(
                    old(self).functions@[f],
                    final(self).functions@[f],
                ),
            exceeded == functions_exceed(old(self).functions@, available_registers as nat),
    {
        let ghost start = self.functions@;
        let functions_number = self.functions.len();
        let mut exceeded = false;
        let mut func_idx: usize = 0;
        while func_idx < functions_number
            invariant
                functions_number == start.len(),
                self.functions@.len() == functions_number,
                0 <= func_idx <= functions_number,
                functions_spill_free(start),
                forall|f: int| func_idx <= f < functions_number ==> #[trigger] self.functions@[f] == start[f],
                forall|f: int| 0 <= f < func_idx ==> #[trigger] function_allocated(start[f], self.functions@[f]),
                exceeded == functions_exceed(start.take(func_idx as int), available_registers as nat),
            decreases functions_number - func_idx,
        {
            let mut func = IRFunction::new(String::new());
            std::mem::swap(&mut func, &mut self.functions[func_idx]);
            proof {
                assert forall|b: int| 0 <= b < func.blocks@.len() implies no_spill(
                    (#[trigger] func.blocks@[b]).living@,
                    func.blocks@[b].tacs@,
                ) by {
                    assert(start[func_idx as int].blocks@[b] == func.blocks@[b]);
                }
            }
            let ghost before = func;
            let e = self.register_allocation_for_func(&mut func, available_registers);
            std::mem::swap(&mut func, &mut self.functions[func_idx]);
            proof {
                let t0 = start.take(func_idx as int);
                let t1 = start.take(func_idx + 1);
                assert(t1 =~= t0.push(before));
                if functions_exceed(t1, available_registers as nat) {
                    let (f, b) = choose|f: int, b: int|
                        0 <= f < t1.len() && 0 <= b < t1[f].blocks@.len() && regs_exceeded(
                            (#[trigger] t1[f].blocks@[b]).living@,
                            t1[f].blocks@[b].tacs@,
                            available_registers as nat,
                        );
                    if f < func_idx {
                        assert(t0[f].blocks@[b] == t1[f].blocks@[b]);
                    }
                }
                if exceeded {
                    let (f, b) = choose|f: int, b: int|
                        0 <= f < t0.len() && 0 <= b < t0[f].blocks@.len() && regs_exceeded(
                            (#[trigger] t0[f].blocks@[b]).living@,
                            t0[f].blocks@[b].tacs@,
                            available_registers as nat,
                        );
                    assert(t1[f].blocks@[b] == t0[f].blocks@[b]);
                }
                if e {
                    let b = choose|b: int|
                        0 <= b < before.blocks@.len() && regs_exceeded(
                            (#[trigger] before.blocks@[b]).living@,
                            before.blocks@[b].tacs@,
                            available_registers as nat,
                        );
                    assert(t1[func_idx as int].blocks@[b] == before.blocks@[b]);
                }
            }
            exceeded = exceeded || e;
            func_idx = func_idx + 1;
        }
        assert(start.take(functions_number as int) =~= start);
        exceeded
    }

    /// Allocates physical registers in every block of `func`. Returns whether
    /// some block at some point holds `avreg` registers or more.
    pub fn register_allocation_for_func(&mut self, func: &mut IRFunction, avreg: usize) -> (exceeded: bool)
        requires
            forall|b: int| 0 <= b < old(func).blocks@.len() ==> no_spill(
                (#[trigger] old(func).blocks@[b]).living@,
                old(func).blocks@[b].tacs@,
            ),
        ensures
            *final(self) == *old(self),
            function_allocated(*old(func), *final(func)),
            exceeded == exists|b: int|
                0 <= b < old(func).blocks@.len() && regs_exceeded(
                    (#[trigger] old(func).blocks@[b]).living@,
                    old(func).blocks@[b].tacs@,
                    avreg as nat,
                ),
    {
        let ghost orig = func.blocks@;
        let mut blocks: Vec<BasicBlock> = Vec::new();
        std::mem::swap(&mut blocks, &mut func.blocks);
        let mut regalloced_blocks: Vec<BasicBlock> = Vec::new();
        let mut exceeded = false;
        let n = blocks.len();
        let mut i: usize = 0;
        while i < n
            invariant
                n == orig.len(),
                0 <= i <= n,
                blocks@ == orig.skip(i as int),
                regalloced_blocks@.len() == i,
                forall|b: int| 0 <= b < orig.len() ==> no_spill((#[trigger] orig[b]).living@, orig[b].tacs@),
                forall|b: int| 0 <= b < i ==> #[trigger] block_allocated(orig[b], regalloced_blocks@[b]),
                exceeded == exists|b: int|
                    0 <= b < i && regs_exceeded((#[trigger] orig[b]).living@, orig[b].tacs@, avreg as nat),
                *self == *old(self),
            decreases n - i,
        {
            assert(blocks@[0] == orig[i as int]);
            let block = blocks.remove(0);
            let (regalloced_block, e) = self.register_allocation_for_bb(block, avreg);
            regalloced_blocks.push(regalloced_block);
            proof {
                assert(blocks@ =~= orig.skip(i + 1));
            }
            exceeded = exceeded || e;
            i = i + 1;
        }
        func.blocks = regalloced_blocks;
        exceeded
    }

    /// Allocates physical registers in one block (see `block_allocated`).
    /// Returns the block and whether at some point it holds
    /// `available_registers` registers or more.
    pub fn register_allocation_for_bb(&mut self, block: BasicBlock, available_registers: usize) -> (r: (BasicBlock, bool))
        requires
            no_spill(block.living@, block.tacs@),
        ensures
            *final(self) == *old(self),
            block_allocated(block, r.0),
            r.1 == regs_exceeded(block.living@, block.tacs@, available_registers as nat),
    {
        match allocate_tacs(&block.living, &block.tacs, available_registers) {
            Some((tacs, exceeded)) => {
                let mut block = block;
                block.tacs = tacs;
                (block, exceeded)
            },
            None => (block, false),
        }
    }

    /// Whether every block of every function can be allocated without
    /// spilling a register.
    pub fn spill_free(&self) -> (b: bool)
        ensures
            b == functions_spill_free(self.functions@),
    {
        let mut f: usize = 0;
        while f < self.functions.len()
            invariant
                0 <= f <= self.functions@.len(),
                forall|g: int, b: int|
                    0 <= g < f && 0 <= b < self.functions@[g].blocks@.len() ==> no_spill(
                        (#[trigger] self.functions@[g].blocks@[b]).living@,
                        self.functions@[g].blocks@[b].tacs@,
                    ),
            decreases self.functions@.len() - f,
        {
            let mut b: usize = 0;
            while b < self.functions[f].blocks.len()
                invariant
                    0 <= f < self.functions@.len(),
                    0 <= b <= self.functions@[f as int].blocks@.len(),
                    forall|g: int, c: int|
                        0 <= g < f && 0 <= c < self.functions@[g].blocks@.len() ==> no_spill(
                            (#[trigger] self.functions@[g].blocks@[c]).living@,
                            self.functions@[g].blocks@[c].tacs@,
                        ),
                    forall|c: int| 0 <= c < b ==> no_spill(
                        (#[trigger] self.functions@[f as int].blocks@[c]).living@,
                        self.functions@[f as int].blocks@[c].tacs@,
                    ),
                decreases self.functions@[f as int].blocks@.len() - b,
            {
                let block = &self.functions[f].blocks[b];
                if allocate_tacs(&block.living, &block.tacs, 0).is_none() {
                    return false;
                }
                b = b + 1;
            }
            f = f + 1;
        }
        true
    }

    /// Drops from the register map every register whose live range ended
    /// before instruction `now_looking` (see `reduced`).
    pub fn reduce_register_number(
        living: &BTreeMap<usize, (usize, usize)>,
        register_map: &mut BTreeMap<usize, usize>,
        now_looking: usize,
    )
        ensures
            final(register_map)@ == reduced(living@, old(register_map)@, now_looking as int),
    {
        let keys = map_keys(living);
        let ghost start = register_map@;
        let mut j: usize = 0;
        while j < keys.len()
            invariant
                keys@.to_set() == living@.dom(),
                0 <= j <= keys@.len(),
                register_map@ == Map::new(
                    |x: usize| start.contains_key(x) && !(keys@.take(j as int).contains(x) && living@[x].1 < now_looking),
                    |x: usize| start[x],
                ),
            decreases keys@.len() - j,
        {
            let virt_num = keys[j];
            assert(keys@.to_set().contains(virt_num));
            if register_map.contains_key(&virt_num) {
                let live_out = living.get(&virt_num).unwrap().1;
                if live_out < now_looking {
                    register_map.remove(&virt_num);
                }
            }
            proof {
                assert(keys@.take(j + 1) =~= keys@.take(j as int).push(virt_num));
                assert(keys@.take(j + 1)[j as int] == virt_num);
                assert forall|x: usize| x != virt_num implies #[trigger] keys@.take(j + 1).contains(x) == keys@.take(
                    j as int,
                ).contains(x) by {
                    if keys@.take(j + 1).contains(x) {
                        let p = choose|p: int| 0 <= p < j + 1 && #[trigger] keys@.take(j + 1)[p] == x;
                        assert(keys@.take(j as int)[p] == x);
                    }
                    if keys@.take(j as int).contains(x) {
                        let p = choose|p: int| 0 <= p < j && #[trigger] keys@.take(j as int)[p] == x;
                        assert(keys@.take(j + 1)[p] == x);
                    }
                }
                assert(register_map@ =~= Map::new(
                    |x: usize| start.contains_key(x) && !(keys@.take(j + 1).contains(x) && living@[x].1 < now_looking),
                    |x: usize| start[x],
                ));
            }
            j = j + 1;
        }
        proof {
            assert(keys@.take(keys@.len() as int) =~= keys@);
            assert forall|x: usize| living@.contains_key(x) implies #[trigger] keys@.contains(x) by {
                assert(keys@.to_set().contains(x));
            }
            assert(register_map@ =~= reduced(living@, start, now_looking as int));
        }
    }
}

} // verus!
