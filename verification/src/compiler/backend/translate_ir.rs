use vstd::prelude::*;

use crate::compiler::frontend::manager::Manager;
use crate::compiler::frontend::node::{duplicate_nodes, node_v, nodes_v, Function, Node, NodeKind, NodeKindV, NodeV};
use crate::compiler::frontend::variable::{table_get_exec, table_view, view_get, Variable};
use crate::compiler::ir::three_address_code::basicblock::BasicBlock;
use crate::compiler::ir::three_address_code::function::IRFunction;
use crate::compiler::ir::three_address_code::tac::{operand_v, tacs_v, OpeKindV, OperandV, TacV, ThreeAddressCode};
use crate::compiler::ir::three_address_code::tac_kind::{Operand, Operator};
use crate::fmt::{digits_of, push_usize};
use crate::text::push_str;

verus! {

/// What generation works on: the blocks so far (label and instructions),
/// the next virtual register and the next label number.
pub type GState = (Seq<(Seq<char>, Seq<TacV>)>, int, int);

/// The blocks of a function as values.
pub open spec fn blocks_v(bs: Seq<BasicBlock>) -> Seq<(Seq<char>, Seq<TacV>)> {
    bs.map_values(|b: BasicBlock| (b.label@, tacs_v(b.tacs@)))
}

/// The state with `t` appended to the last block.
pub open spec fn emit(st: GState, t: TacV) -> GState {
    let bs = st.0;
    (bs.update(bs.len() - 1, (bs.last().0, bs.last().1.push(t))), st.1, st.2)
}

/// The state with a new, empty block named `label` at the end.
pub open spec fn open_block(st: GState, label: Seq<char>) -> GState {
    (st.0.push((label, Seq::empty())), st.1, st.2)
}

/// The label of number `n`.
pub open spec fn num_label(n: int) -> Seq<char> {
    ".L"@ + digits_of(n as nat)
}

/// The label for a label of the source.
pub open spec fn user_label(l: Seq<char>) -> Seq<char> {
    ".L"@ + l
}

/// Virtual register `n`.
pub open spec fn reg_v(n: int) -> OperandV {
    OperandV { kind: OpeKindV::Reg, virt: n as usize, phys: 0 }
}

/// The invalid operand.
pub open spec fn invalid_v() -> OperandV {
    OperandV { kind: OpeKindV::Invalid, virt: 0, phys: 0 }
}

/// The state with the next virtual register taken; `None` when it would not fit `usize`.
pub open spec fn take_reg(st: GState) -> Option<GState> {
    if st.1 + 1 > usize::MAX {
        None
    } else {
        Some((st.0, st.1 + 1, st.2))
    }
}

/// The state with the next `k` label numbers taken; `None` when they would not fit `usize`.
pub open spec fn take_labels(st: GState, k: int) -> Option<GState> {
    if st.2 + k > usize::MAX {
        None
    } else {
        Some((st.0, st.1, st.2 + k))
    }
}

/// The code of an expression and the operand that holds its value; `None`
/// where a counter would overflow. A literal and a known variable need no
/// code; an unknown variable or a node that is no expression gives the
/// invalid operand. An assignment evaluates the right side first.
pub open spec fn gen_expr_s(n: NodeV, vars: Seq<(Seq<char>, Variable)>, st: GState) -> Option<(OperandV, GState)>
    decreases n,
{
    match n.kind {
        NodeKindV::Assign(l, r) => match gen_expr_s(*r, vars, st) {
            Some((ro, s1)) => match gen_expr_s(*l, vars, s1) {
                Some((lo, s2)) => Some((ro, emit(s2, TacV::Assign(lo, ro)))),
                None => None,
            },
            None => None,
        },
        NodeKindV::Negative(i) => match gen_expr_s(*i, vars, st) {
            Some((io, s1)) => match take_reg(s1) {
                Some(s2) => Some((reg_v(s1.1), emit(s2, TacV::UnaryExpr(reg_v(s1.1), Operator::MINUS, io)))),
                None => None,
            },
            None => None,
        },
        NodeKindV::Add(l, r) => match gen_expr_s(*l, vars, st) {
            Some((lo, s1)) => match gen_expr_s(*r, vars, s1) {
                Some((ro, s2)) => match take_reg(s2) {
                    Some(s3) => Some((reg_v(s2.1), emit(s3, TacV::Expr(reg_v(s2.1), Operator::PLUS, lo, ro)))),
                    None => None,
                },
                None => None,
            },
            None => None,
        },
        NodeKindV::Sub(l, r) => match gen_expr_s(*l, vars, st) {
            Some((lo, s1)) => match gen_expr_s(*r, vars, s1) {
                Some((ro, s2)) => match take_reg(s2) {
                    Some(s3) => Some((reg_v(s2.1), emit(s3, TacV::Expr(reg_v(s2.1), Operator::MINUS, lo, ro)))),
                    None => None,
                },
                None => None,
            },
            None => None,
        },
        NodeKindV::Mul(l, r) => match gen_expr_s(*l, vars, st) {
            Some((lo, s1)) => match gen_expr_s(*r, vars, s1) {
                Some((ro, s2)) => match take_reg(s2) {
                    Some(s3) => Some((reg_v(s2.1), emit(s3, TacV::Expr(reg_v(s2.1), Operator::ASTERISK, lo, ro)))),
                    None => None,
                },
                None => None,
            },
            None => None,
        },
        NodeKindV::Div(l, r) => match gen_expr_s(*l, vars, st) {
            Some((lo, s1)) => match gen_expr_s(*r, vars, s1) {
                Some((ro, s2)) => match take_reg(s2) {
                    Some(s3) => Some((reg_v(s2.1), emit(s3, TacV::Expr(reg_v(s2.1), Operator::SLASH, lo, ro)))),
                    None => None,
                },
                None => None,
            },
            None => None,
        },
        NodeKindV::Integer(v) => Some((OperandV { kind: OpeKindV::IntLit(v), virt: 0, phys: 0 }, st)),
        NodeKindV::Identifier(name) => match view_get(vars, name) {
            Some(var) => Some((OperandV { kind: OpeKindV::AutoVar(name, var.kind->LOCAL_0), virt: 0, phys: 0 }, st)),
            None => Some((invalid_v(), st)),
        },
        _ => Some((invalid_v(), st)),
    }
}

/// The code of a statement; `None` where a counter would overflow. A jump
/// ends its block and opens one named after its target; loops and
/// conditionals take fresh label numbers, open blocks at their labels and
/// jump on the condition being zero.
pub open spec fn gen_stmt_s(n: NodeV, vars: Seq<(Seq<char>, Variable)>, st: GState) -> Option<GState>
    decreases n, 1int,
{
    match n.kind {
        NodeKindV::Goto(l) => Some(open_block(emit(st, TacV::Goto(user_label(l))), user_label(l))),
        NodeKindV::Compound(stmts) => gen_stmts_s(stmts, vars, st),
        NodeKindV::Return(e) => match gen_expr_s(*e, vars, st) {
            Some((o, s1)) => Some(emit(s1, TacV::Ret(o))),
            None => None,
        },
        NodeKindV::For(cl, ex, ex2, body) => match gen_expr_s(*cl, vars, st) {
            Some((_, s1)) => match take_labels(s1, 2) {
                Some(s2) => {
                    let lp = num_label(s1.2);
                    let fin = num_label(s1.2 + 1);
                    let s3 = emit(open_block(s2, lp), TacV::Label(lp));
                    match gen_expr_s(*ex, vars, s3) {
                        Some((c, s4)) => match gen_stmt_s(*body, vars, emit(s4, TacV::Iff(c, fin))) {
                            Some(s6) => match gen_expr_s(*ex2, vars, s6) {
                                Some((_, s7)) => Some(emit(open_block(emit(s7, TacV::Goto(lp)), fin), TacV::Label(fin))),
                                None => None,
                            },
                            None => None,
                        },
                        None => None,
                    }
                },
                None => None,
            },
            None => None,
        },
        NodeKindV::DoWhile(body, c) => match take_labels(st, 2) {
            Some(s1) => {
                let lp = num_label(st.2);
                let fin = num_label(st.2 + 1);
                match gen_stmt_s(*body, vars, emit(open_block(s1, lp), TacV::Label(lp))) {
                    Some(s3) => match gen_expr_s(*c, vars, s3) {
                        Some((co, s4)) => Some(
                            emit(open_block(emit(emit(s4, TacV::Iff(co, fin)), TacV::Goto(lp)), fin), TacV::Label(fin)),
                        ),
                        None => None,
                    },
                    None => None,
                }
            },
            None => None,
        },
        NodeKindV::While(c, body) => match take_labels(st, 2) {
            Some(s1) => {
                let lp = num_label(st.2);
                let fin = num_label(st.2 + 1);
                match gen_expr_s(*c, vars, emit(open_block(s1, lp), TacV::Label(lp))) {
                    Some((co, s3)) => match gen_stmt_s(*body, vars, emit(s3, TacV::Iff(co, fin))) {
                        Some(s5) => Some(emit(open_block(emit(s5, TacV::Goto(lp)), fin), TacV::Label(fin))),
                        None => None,
                    },
                    None => None,
                }
            },
            None => None,
        },
        NodeKindV::If(c, body) => match gen_expr_s(*c, vars, st) {
            Some((co, s1)) => match take_labels(s1, 1) {
                Some(s2) => {
                    let fin = num_label(s1.2);
                    match gen_stmt_s(*body, vars, emit(s2, TacV::Iff(co, fin))) {
                        Some(s4) => Some(emit(open_block(s4, fin), TacV::Label(fin))),
                        None => None,
                    }
                },
                None => None,
            },
            None => None,
        },
        NodeKindV::IfElse(c, body, alt) => match gen_expr_s(*c, vars, st) {
            Some((co, s1)) => match take_labels(s1, 2) {
                Some(s2) => {
                    let fin = num_label(s1.2);
                    let els = num_label(s1.2 + 1);
                    match gen_stmt_s(*body, vars, emit(s2, TacV::Iff(co, els))) {
                        Some(s4) => match gen_stmt_s(*alt, vars, emit(open_block(emit(s4, TacV::Goto(fin)), els), TacV::Label(els))) {
                            Some(s7) => Some(emit(open_block(s7, fin), TacV::Label(fin))),
                            None => None,
                        },
                        None => None,
                    }
                },
                None => None,
            },
            None => None,
        },
        NodeKindV::Labeled(l, s) => gen_stmt_s(*s, vars, emit(st, TacV::Label(user_label(l)))),
        NodeKindV::ExprStmt(e) => match gen_expr_s(*e, vars, st) {
            Some((_, s1)) => Some(s1),
            None => None,
        },
        _ => Some(st),
    }
}

/// The code of a list of statements, in order.
pub open spec fn gen_stmts_s(s: Seq<NodeV>, vars: Seq<(Seq<char>, Variable)>, st: GState) -> Option<GState>
    decreases s, 0int,
{
    if s.len() == 0 {
        Some(st)
    } else {
        match gen_stmts_s(s.drop_last(), vars, st) {
            Some(s1) => gen_stmt_s(s.last(), vars, s1),
            None => None,
        }
    }
}

/// The state a function's code starts from: one empty block named `entry`.
pub open spec fn entry_state() -> GState {
    (seq![("entry"@, Seq::<TacV>::empty())], 0, 0)
}

/// The generation state of function `f` of a manager.
pub open spec fn gstate(m: Manager, f: int) -> GState {
    (blocks_v(m.ir_funcs@[f].blocks@), m.virt as int, m.label as int)
}

/// Generation can go on in function `f`: it exists, has a block, and the
/// current block is the last.
pub open spec fn gen_ok(m: Manager, f: int) -> bool {
    &&& 0 <= f < m.ir_funcs@.len()
    &&& m.ir_funcs@[f].blocks@.len() > 0
    &&& m.cur_bb == m.ir_funcs@[f].blocks@.len() - 1
}

/// A block that no analysis has touched yet: no live ranges and an empty graph.
pub open spec fn block_fresh(bb: BasicBlock) -> bool {
    bb.living@ == Map::<usize, (usize, usize)>::empty() && bb.cfg_inbb.wf(0)
}

/// Blocks that no analysis has touched yet.
pub open spec fn blocks_fresh(bs: Seq<BasicBlock>) -> bool {
    forall|b: int| 0 <= b < bs.len() ==> block_fresh(#[trigger] bs[b])
}

/// Generation in function `f` changes only that function's blocks and the counters.
pub open spec fn gen_frame(a: Manager, b: Manager, f: int) -> bool {
    &&& b.ir_funcs@.len() == a.ir_funcs@.len()
    &&& forall|g: int| 0 <= g < a.ir_funcs@.len() && g != f ==> #[trigger] b.ir_funcs@[g] == a.ir_funcs@[g]
    &&& b.ir_funcs@[f].name == a.ir_funcs@[f].name
    &&& b.ir_funcs@[f].frame_size == a.ir_funcs@[f].frame_size
    &&& b.ir_funcs@[f].blocks@.len() >= a.ir_funcs@[f].blocks@.len()
    &&& forall|k: int|
        0 <= k < a.ir_funcs@[f].blocks@.len() ==> (#[trigger] b.ir_funcs@[f].blocks@[k]).living == a.ir_funcs@[f].blocks@[k].living
            && b.ir_funcs@[f].blocks@[k].cfg_inbb == a.ir_funcs@[f].blocks@[k].cfg_inbb
    &&& forall|k: int|
        a.ir_funcs@[f].blocks@.len() <= k < b.ir_funcs@[f].blocks@.len() ==> block_fresh(
            #[trigger] b.ir_funcs@[f].blocks@[k],
        )
    &&& b.functions == a.functions
    &&& b.var_map == a.var_map
    &&& b.errors == a.errors
    &&& b.tokens == a.tokens
    &&& b.src_file == a.src_file
    &&& b.cur_token == a.cur_token
    &&& b.next_token == a.next_token
    &&& b.params == a.params
}

/// The code of a function's body, generated from the entry state.
pub open spec fn func_code(f: Function, vars: Seq<(Seq<char>, Variable)>) -> Option<GState> {
    gen_stmts_s(nodes_v(f.stmts@), vars, entry_state())
}

/// Every function's body can be generated without a counter overflowing.
pub open spec fn code_fits(fs: Seq<Function>, vars: Seq<(Seq<char>, Variable)>) -> bool {
    forall|k: int| 0 <= k < fs.len() ==> (#[trigger] func_code(fs[k], vars)) is Some
}

/// The functions of three-address code generated for `fs`: one per
/// function, in order, with its name, its frame size and the blocks of its
/// body.
pub open spec fn code_generated(ir: Seq<IRFunction>, fs: Seq<Function>, vars: Seq<(Seq<char>, Variable)>) -> bool {
    &&& ir.len() == fs.len()
    &&& forall|k: int| 0 <= k < fs.len() ==> {
        &&& (#[trigger] ir[k]).name == fs[k].name
        &&& ir[k].frame_size == fs[k].frame_size
        &&& blocks_v(ir[k].blocks@) == (func_code(fs[k], vars)->0).0
        &&& blocks_fresh(ir[k].blocks@)
    }
}

/// Labels made from different numbers differ, so the loops and
/// conditionals of a function never share a jump target.
pub proof fn lemma_num_label_injective(a: int, b: int)
    requires
        0 <= a,
        0 <= b,
        num_label(a) == num_label(b),
    ensures
        a == b,
{
    reveal_strlit(".L");
    assert(num_label(a).skip(2) =~= digits_of(a as nat));
    assert(num_label(b).skip(2) =~= digits_of(b as nat));
    crate::fmt::lemma_digits_injective(a as nat, b as nat);
}

/// A prefix of a list whose code can be generated can be generated.
pub proof fn lemma_gen_prefix(s: Seq<NodeV>, vars: Seq<(Seq<char>, Variable)>, st: GState, k: int)
    requires
        gen_stmts_s(s, vars, st) is Some,
        0 <= k <= s.len(),
    ensures
        gen_stmts_s(s.take(k), vars, st) is Some,
    decreases s.len() - k,
{
    if k == s.len() {
        assert(s.take(k) =~= s);
    } else {
        lemma_gen_prefix(s, vars, st, k + 1);
        assert(s.take(k + 1).drop_last() =~= s.take(k));
    }
}

/// The register an instruction writes, if it writes one.
pub open spec fn def_of(t: TacV) -> Seq<int> {
    match t {
        TacV::Expr(v, _, _, _) => if v.kind is Reg { seq![v.virt as int] } else { Seq::empty() },
        TacV::UnaryExpr(v, _, _) => if v.kind is Reg { seq![v.virt as int] } else { Seq::empty() },
        _ => Seq::empty(),
    }
}

/// The registers a list of instructions writes, in order.
pub open spec fn tacs_defs(ts: Seq<TacV>) -> Seq<int>
    decreases ts.len(),
{
    if ts.len() == 0 {
        Seq::empty()
    } else {
        tacs_defs(ts.drop_last()) + def_of(ts.last())
    }
}

/// The registers the blocks write, block after block.
pub open spec fn blocks_defs(bs: Seq<(Seq<char>, Seq<TacV>)>) -> Seq<int>
    decreases bs.len(),
{
    if bs.len() == 0 {
        Seq::empty()
    } else {
        blocks_defs(bs.drop_last()) + tacs_defs(bs.last().1)
    }
}

/// The registers written so far are `t0`, `t1`, ... up to the next one to
/// take, each once and in order, and there is a current block.
pub open spec fn defs_in_order(st: GState) -> bool {
    &&& st.0.len() > 0
    &&& 0 <= st.1
    &&& blocks_defs(st.0) == Seq::new(st.1 as nat, |i: int| i)
}

/// Appending an instruction appends the register it writes.
pub proof fn lemma_defs_emit(st: GState, t: TacV)
    requires
        st.0.len() > 0,
    ensures
        blocks_defs(emit(st, t).0) == blocks_defs(st.0) + def_of(t),
        emit(st, t).0.len() == st.0.len(),
        emit(st, t).1 == st.1,
{
    let bs = st.0;
    let nb = emit(st, t).0;
    assert(nb.drop_last() =~= bs.drop_last());
    assert(nb.last().1.drop_last() =~= bs.last().1);
    assert(blocks_defs(nb) =~= blocks_defs(bs) + def_of(t));
}

/// Opening a block writes no register.
pub proof fn lemma_defs_open(st: GState, l: Seq<char>)
    ensures
        blocks_defs(open_block(st, l).0) == blocks_defs(st.0),
        open_block(st, l).0.len() == st.0.len() + 1,
        open_block(st, l).1 == st.1,
{
    let nb = open_block(st, l).0;
    assert(nb.drop_last() =~= st.0);
    assert(tacs_defs(Seq::<TacV>::empty()) =~= Seq::<int>::empty());
    assert(blocks_defs(nb) =~= blocks_defs(st.0));
}

/// Taking a register and writing it keeps the registers in order.
pub proof fn lemma_defs_take_emit(s2: GState, s3: GState, t: TacV)
    requires
        defs_in_order(s2),
        take_reg(s2) == Some(s3),
        def_of(t) == seq![s2.1],
    ensures
        defs_in_order(emit(s3, t)),
{
    lemma_defs_emit(s3, t);
    assert(blocks_defs(emit(s3, t).0) =~= Seq::new((s2.1 + 1) as nat, |i: int| i));
}

/// Generating an expression keeps the registers in order.
pub proof fn lemma_expr_defs(n: NodeV, vars: Seq<(Seq<char>, Variable)>, st: GState)
    requires
        defs_in_order(st),
        gen_expr_s(n, vars, st) is Some,
    ensures
        defs_in_order((gen_expr_s(n, vars, st)->0).1),
    decreases n,
{
    match n.kind {
        NodeKindV::Assign(l, r) => {
            lemma_expr_defs(*r, vars, st);
            let (ro, s1) = gen_expr_s(*r, vars, st)->0;
            lemma_expr_defs(*l, vars, s1);
            let (lo, s2) = gen_expr_s(*l, vars, s1)->0;
            lemma_defs_emit(s2, TacV::Assign(lo, ro));
        },
        NodeKindV::Negative(i) => {
            lemma_expr_defs(*i, vars, st);
            let (io, s1) = gen_expr_s(*i, vars, st)->0;
            let s2 = take_reg(s1)->0;
            lemma_defs_take_emit(s1, s2, TacV::UnaryExpr(reg_v(s1.1), Operator::MINUS, io));
        },
        NodeKindV::Add(l, r) => {
            lemma_expr_defs(*l, vars, st);
            let (lo, s1) = gen_expr_s(*l, vars, st)->0;
            lemma_expr_defs(*r, vars, s1);
            let (ro, s2) = gen_expr_s(*r, vars, s1)->0;
            lemma_defs_take_emit(s2, take_reg(s2)->0, TacV::Expr(reg_v(s2.1), Operator::PLUS, lo, ro));
        },
        NodeKindV::Sub(l, r) => {
            lemma_expr_defs(*l, vars, st);
            let (lo, s1) = gen_expr_s(*l, vars, st)->0;
            lemma_expr_defs(*r, vars, s1);
            let (ro, s2) = gen_expr_s(*r, vars, s1)->0;
            lemma_defs_take_emit(s2, take_reg(s2)->0, TacV::Expr(reg_v(s2.1), Operator::MINUS, lo, ro));
        },
        NodeKindV::Mul(l, r) => {
            lemma_expr_defs(*l, vars, st);
            let (lo, s1) = gen_expr_s(*l, vars, st)->0;
            lemma_expr_defs(*r, vars, s1);
            let (ro, s2) = gen_expr_s(*r, vars, s1)->0;
            lemma_defs_take_emit(s2, take_reg(s2)->0, TacV::Expr(reg_v(s2.1), Operator::ASTERISK, lo, ro));
        },
        NodeKindV::Div(l, r) => {
            lemma_expr_defs(*l, vars, st);
            let (lo, s1) = gen_expr_s(*l, vars, st)->0;
            lemma_expr_defs(*r, vars, s1);
            let (ro, s2) = gen_expr_s(*r, vars, s1)->0;
            lemma_defs_take_emit(s2, take_reg(s2)->0, TacV::Expr(reg_v(s2.1), Operator::SLASH, lo, ro));
        },
        _ => {},
    }
}

/// Appending an instruction that writes no register keeps the registers in order.
pub proof fn lemma_defs_plain(st: GState, t: TacV)
    requires
        defs_in_order(st),
        def_of(t) == Seq::<int>::empty(),
    ensures
        defs_in_order(emit(st, t)),
{
    lemma_defs_emit(st, t);
    assert(blocks_defs(emit(st, t).0) =~= blocks_defs(st.0));
}

/// Opening a block keeps the registers in order.
pub proof fn lemma_defs_block(st: GState, l: Seq<char>)
    requires
        defs_in_order(st),
    ensures
        defs_in_order(open_block(st, l)),
{
    lemma_defs_open(st, l);
}

/// Generating a statement keeps the registers in order.
#[verifier::spinoff_prover]
pub proof fn lemma_stmt_defs(n: NodeV, vars: Seq<(Seq<char>, Variable)>, st: GState)
    requires
        defs_in_order(st),
        gen_stmt_s(n, vars, st) is Some,
    ensures
        defs_in_order(gen_stmt_s(n, vars, st)->0),
    decreases n, 1int,
{
    match n.kind {
        NodeKindV::Goto(l) => {
            let s1 = emit(st, TacV::Goto(user_label(l)));
            lemma_defs_plain(st, TacV::Goto(user_label(l)));
            lemma_defs_block(s1, user_label(l));
        },
        NodeKindV::Compound(stmts) => {
            lemma_stmts_defs(stmts, vars, st);
        },
        NodeKindV::Return(e) => {
            lemma_expr_defs(*e, vars, st);
            let (o, s1) = gen_expr_s(*e, vars, st)->0;
            lemma_defs_plain(s1, TacV::Ret(o));
        },
        NodeKindV::For(..) => lemma_for_defs(n, vars, st),
        NodeKindV::DoWhile(..) => lemma_do_while_defs(n, vars, st),
        NodeKindV::While(..) => lemma_while_defs(n, vars, st),
        NodeKindV::If(c, body) => {
            lemma_expr_defs(*c, vars, st);
            let (co, s1) = gen_expr_s(*c, vars, st)->0;
            let s2 = take_labels(s1, 1)->0;
            let fin = num_label(s1.2);
            lemma_defs_plain(s2, TacV::Iff(co, fin));
            lemma_stmt_defs(*body, vars, emit(s2, TacV::Iff(co, fin)));
            let s4 = gen_stmt_s(*body, vars, emit(s2, TacV::Iff(co, fin)))->0;
            lemma_defs_block(s4, fin);
            lemma_defs_plain(open_block(s4, fin), TacV::Label(fin));
        },
        NodeKindV::IfElse(..) => lemma_if_else_defs(n, vars, st),
        NodeKindV::Labeled(l, s) => {
            lemma_defs_plain(st, TacV::Label(user_label(l)));
            lemma_stmt_defs(*s, vars, emit(st, TacV::Label(user_label(l))));
        },
        NodeKindV::ExprStmt(e) => {
            lemma_expr_defs(*e, vars, st);
        },
        _ => {},
    }
}

/// Generating a `for` loop keeps the registers in order.
#[verifier::spinoff_prover]
pub proof fn lemma_for_defs(n: NodeV, vars: Seq<(Seq<char>, Variable)>, st: GState)
    requires
        defs_in_order(st),
        gen_stmt_s(n, vars, st) is Some,
        n.kind is For,
    ensures
        defs_in_order(gen_stmt_s(n, vars, st)->0),
    decreases n, 0int,
{
    match n.kind {
        NodeKindV::For(cl, ex, ex2, body) => {
            lemma_expr_defs(*cl, vars, st);
            let s1 = (gen_expr_s(*cl, vars, st)->0).1;
            let s2 = take_labels(s1, 2)->0;
            let lp = num_label(s1.2);
            let fin = num_label(s1.2 + 1);
            lemma_defs_block(s2, lp);
            lemma_defs_plain(open_block(s2, lp), TacV::Label(lp));
            let s3 = emit(open_block(s2, lp), TacV::Label(lp));
            lemma_expr_defs(*ex, vars, s3);
            let (c, s4) = gen_expr_s(*ex, vars, s3)->0;
            lemma_defs_plain(s4, TacV::Iff(c, fin));
            lemma_stmt_defs(*body, vars, emit(s4, TacV::Iff(c, fin)));
            let s6 = gen_stmt_s(*body, vars, emit(s4, TacV::Iff(c, fin)))->0;
            lemma_expr_defs(*ex2, vars, s6);
            let s7 = (gen_expr_s(*ex2, vars, s6)->0).1;
            lemma_defs_plain(s7, TacV::Goto(lp));
            lemma_defs_block(emit(s7, TacV::Goto(lp)), fin);
            lemma_defs_plain(open_block(emit(s7, TacV::Goto(lp)), fin), TacV::Label(fin));
        },
        _ => {},
    }
}

/// Generating a `do`-`while` loop keeps the registers in order.
#[verifier::spinoff_prover]
pub proof fn lemma_do_while_defs(n: NodeV, vars: Seq<(Seq<char>, Variable)>, st: GState)
    requires
        defs_in_order(st),
        gen_stmt_s(n, vars, st) is Some,
        n.kind is DoWhile,
    ensures
        defs_in_order(gen_stmt_s(n, vars, st)->0),
    decreases n, 0int,
{
    match n.kind {
        NodeKindV::DoWhile(body, c) => {
            let s1 = take_labels(st, 2)->0;
            let lp = num_label(st.2);
            let fin = num_label(st.2 + 1);
            lemma_defs_block(s1, lp);
            lemma_defs_plain(open_block(s1, lp), TacV::Label(lp));
            lemma_stmt_defs(*body, vars, emit(open_block(s1, lp), TacV::Label(lp)));
            let s3 = gen_stmt_s(*body, vars, emit(open_block(s1, lp), TacV::Label(lp)))->0;
            lemma_expr_defs(*c, vars, s3);
            let (co, s4) = gen_expr_s(*c, vars, s3)->0;
            lemma_defs_plain(s4, TacV::Iff(co, fin));
            lemma_defs_plain(emit(s4, TacV::Iff(co, fin)), TacV::Goto(lp));
            let s5 = emit(emit(s4, TacV::Iff(co, fin)), TacV::Goto(lp));
            lemma_defs_block(s5, fin);
            lemma_defs_plain(open_block(s5, fin), TacV::Label(fin));
        },
        _ => {},
    }
}

/// Generating a `while` loop keeps the registers in order.
#[verifier::spinoff_prover]
pub proof fn lemma_while_defs(n: NodeV, vars: Seq<(Seq<char>, Variable)>, st: GState)
    requires
        defs_in_order(st),
        gen_stmt_s(n, vars, st) is Some,
        n.kind is While,
    ensures
        defs_in_order(gen_stmt_s(n, vars, st)->0),
    decreases n, 0int,
{
    match n.kind {
        NodeKindV::While(c, body) => {
            let s1 = take_labels(st, 2)->0;
            let lp = num_label(st.2);
            let fin = num_label(st.2 + 1);
            lemma_defs_block(s1, lp);
            lemma_defs_plain(open_block(s1, lp), TacV::Label(lp));
            let s2 = emit(open_block(s1, lp), TacV::Label(lp));
            lemma_expr_defs(*c, vars, s2);
            let (co, s3) = gen_expr_s(*c, vars, s2)->0;
            lemma_defs_plain(s3, TacV::Iff(co, fin));
            lemma_stmt_defs(*body, vars, emit(s3, TacV::Iff(co, fin)));
            let s5 = gen_stmt_s(*body, vars, emit(s3, TacV::Iff(co, fin)))->0;
            lemma_defs_plain(s5, TacV::Goto(lp));
            lemma_defs_block(emit(s5, TacV::Goto(lp)), fin);
            lemma_defs_plain(open_block(emit(s5, TacV::Goto(lp)), fin), TacV::Label(fin));
        },
        _ => {},
    }
}

/// Generating an `if` with `else` keeps the registers in order.
#[verifier::spinoff_prover]
pub proof fn lemma_if_else_defs(n: NodeV, vars: Seq<(Seq<char>, Variable)>, st: GState)
    requires
        defs_in_order(st),
        gen_stmt_s(n, vars, st) is Some,
        n.kind is IfElse,
    ensures
        defs_in_order(gen_stmt_s(n, vars, st)->0),
    decreases n, 0int,
{
    match n.kind {
        NodeKindV::IfElse(c, body, alt) => {
            lemma_expr_defs(*c, vars, st);
            let (co, s1) = gen_expr_s(*c, vars, st)->0;
            let s2 = take_labels(s1, 2)->0;
            let fin = num_label(s1.2);
            let els = num_label(s1.2 + 1);
            lemma_defs_plain(s2, TacV::Iff(co, els));
            lemma_stmt_defs(*body, vars, emit(s2, TacV::Iff(co, els)));
            let s4 = gen_stmt_s(*body, vars, emit(s2, TacV::Iff(co, els)))->0;
            lemma_defs_plain(s4, TacV::Goto(fin));
            lemma_defs_block(emit(s4, TacV::Goto(fin)), els);
            lemma_defs_plain(open_block(emit(s4, TacV::Goto(fin)), els), TacV::Label(els));
            let s5 = emit(open_block(emit(s4, TacV::Goto(fin)), els), TacV::Label(els));
            lemma_stmt_defs(*alt, vars, s5);
            let s7 = gen_stmt_s(*alt, vars, s5)->0;
            lemma_defs_block(s7, fin);
            lemma_defs_plain(open_block(s7, fin), TacV::Label(fin));
        },
        _ => {},
    }
}

/// Generating a list of statements keeps the registers in order.
pub proof fn lemma_stmts_defs(s: Seq<NodeV>, vars: Seq<(Seq<char>, Variable)>, st: GState)
    requires
        defs_in_order(st),
        gen_stmts_s(s, vars, st) is Some,
    ensures
        defs_in_order(gen_stmts_s(s, vars, st)->0),
    decreases s, 0int,
{
    if s.len() > 0 {
        lemma_stmts_defs(s.drop_last(), vars, st);
        lemma_stmt_defs(s.last(), vars, gen_stmts_s(s.drop_last(), vars, st)->0);
    }
}

/// The code generated for a function writes each virtual register once,
/// numbering them in the order they are written: the i-th register written
/// is `t`i, and the next free number is the count of registers written.
pub proof fn lemma_registers_in_order(f: Function, vars: Seq<(Seq<char>, Variable)>)
    requires
        func_code(f, vars) is Some,
    ensures
        blocks_defs((func_code(f, vars)->0).0) == Seq::new((func_code(f, vars)->0).1 as nat, |i: int| i),
{
    let st = entry_state();
    assert(st.0.len() == 1);
    assert(st.0.drop_last() =~= Seq::<(Seq<char>, Seq<TacV>)>::empty());
    assert(st.0.last().1 =~= Seq::<TacV>::empty());
    assert(tacs_defs(Seq::<TacV>::empty()) =~= Seq::<int>::empty());
    assert(blocks_defs(Seq::<(Seq<char>, Seq<TacV>)>::empty()) =~= Seq::<int>::empty());
    assert(blocks_defs(st.0) =~= Seq::new(0, |i: int| i));
    lemma_stmts_defs(nodes_v(f.stmts@), vars, st);
}

/// In the code generated for every function of a program, each function
/// writes its virtual registers once each and in order of their numbers.
pub proof fn lemma_generated_registers_in_order(
    ir: Seq<IRFunction>,
    fs: Seq<Function>,
    vars: Seq<(Seq<char>, Variable)>,
    k: int,
)
    requires
        code_fits(fs, vars),
        code_generated(ir, fs, vars),
        0 <= k < fs.len(),
    ensures
        forall|i: int|
            0 <= i < blocks_defs(blocks_v(ir[k].blocks@)).len() ==> #[trigger] blocks_defs(blocks_v(ir[k].blocks@))[i]
                == i,
{
    assert(func_code(fs[k], vars) is Some);
    lemma_registers_in_order(fs[k], vars);
    let n = (func_code(fs[k], vars)->0).1 as nat;
    assert(blocks_defs(blocks_v(ir[k].blocks@)) == Seq::new(n, |i: int| i));
}

impl NodeKind {
    /// The operator of an arithmetic node.
    pub fn to_operator(&self) -> (o: Option<Operator>)
        ensures
            o == (match *self {
                NodeKind::ADD(_, _) => Some(Operator::PLUS),
                NodeKind::SUB(_, _) => Some(Operator::MINUS),
                NodeKind::MUL(_, _) => Some(Operator::ASTERISK),
                NodeKind::DIV(_, _) => Some(Operator::SLASH),
                NodeKind::NEGATIVE(_) => Some(Operator::MINUS),
                _ => None,
            }),
    {
        match self {
            Self::ADD(_left, _right) => Some(Operator::PLUS),
            Self::SUB(_left, _right) => Some(Operator::MINUS),
            Self::MUL(_left, _right) => Some(Operator::ASTERISK),
            Self::DIV(_left, _right) => Some(Operator::SLASH),
            Self::NEGATIVE(_left) => Some(Operator::MINUS),
            _ => None,
        }
    }
}

/// The label of number `n`.
pub fn make_label(n: usize) -> (s: String)
    ensures
        s@ == num_label(n as int),
{
    let mut s = String::new();
    push_str(&mut s, ".L");
    push_usize(&mut s, n);
    s
}

/// The label for a label of the source.
pub fn make_user_label(l: &String) -> (s: String)
    ensures
        s@ == user_label(l@),
{
    let mut s = String::new();
    push_str(&mut s, ".L");
    push_str(&mut s, l.as_str());
    s
}

impl Manager {
    /// Appends an instruction to the current block of function `func_idx`.
    pub fn add_ir_to_current_bb(&mut self, func_idx: usize, ir: ThreeAddressCode)
        requires
            gen_ok(*old(self), func_idx as int),
        ensures
            gen_ok(*final(self), func_idx as int),
            gen_frame(*old(self), *final(self), func_idx as int),
            gstate(*final(self), func_idx as int) == emit(gstate(*old(self), func_idx as int), crate::compiler::ir::three_address_code::tac::tac_v(ir)),
            final(self).cur_bb == old(self).cur_bb,
    {
        let ghost f = func_idx as int;
        let ghost bs = self.ir_funcs@[f].blocks@;
        let ghost tv = crate::compiler::ir::three_address_code::tac::tac_v(ir);
        self.ir_funcs[func_idx].blocks[self.cur_bb].tacs.push(ir);
        proof {
            let nb = self.ir_funcs@[f].blocks@;
            assert(nb =~= bs.update(bs.len() - 1, nb[bs.len() - 1]));
            assert(tacs_v(nb[bs.len() - 1].tacs@) =~= tacs_v(bs[bs.len() - 1].tacs@).push(tv));
            assert(blocks_v(nb) =~= blocks_v(bs).update(bs.len() - 1, (blocks_v(bs).last().0, blocks_v(bs).last().1.push(tv))));
        }
    }

    /// Opens a new block named `label` in function `func_idx` and makes it current.
    pub fn open_new_block(&mut self, func_idx: usize, label: String)
        requires
            gen_ok(*old(self), func_idx as int),
        ensures
            gen_ok(*final(self), func_idx as int),
            gen_frame(*old(self), *final(self), func_idx as int),
            gstate(*final(self), func_idx as int) == open_block(gstate(*old(self), func_idx as int), label@),
    {
        let ghost f = func_idx as int;
        let ghost bs = self.ir_funcs@[f].blocks@;
        let bb = BasicBlock::new(label);
        let ghost b = bb;
        self.ir_funcs[func_idx].blocks.push(bb);
        self.cur_bb = self.ir_funcs[func_idx].blocks.len() - 1;
        proof {
            assert(tacs_v(b.tacs@) =~= Seq::empty());
            assert(blocks_v(self.ir_funcs@[f].blocks@) =~= blocks_v(bs).push((label@, Seq::empty())));
        }
    }

    /// Takes the next virtual register.
    pub fn use_current_virt_reg(&mut self) -> (o: Operand)
        requires
            old(self).virt + 1 <= usize::MAX,
        ensures
            operand_v(o) == reg_v(old(self).virt as int),
            final(self).virt == old(self).virt + 1,
            final(self).label == old(self).label,
            final(self).cur_bb == old(self).cur_bb,
            final(self).ir_funcs == old(self).ir_funcs,
            final(self).functions == old(self).functions,
            final(self).var_map == old(self).var_map,
            final(self).errors == old(self).errors,
            final(self).tokens == old(self).tokens,
            final(self).src_file == old(self).src_file,
            final(self).cur_token == old(self).cur_token,
            final(self).next_token == old(self).next_token,
            final(self).params == old(self).params,
    {
        let current_reg = self.cur_virt_reg();
        self.virt = self.virt + 1;
        current_reg
    }

    /// Takes the next label number.
    pub fn use_current_label(&mut self) -> (n: usize)
        requires
            old(self).label + 1 <= usize::MAX,
        ensures
            n == old(self).label,
            final(self).label == old(self).label + 1,
            final(self).virt == old(self).virt,
            final(self).cur_bb == old(self).cur_bb,
            final(self).ir_funcs == old(self).ir_funcs,
            final(self).functions == old(self).functions,
            final(self).var_map == old(self).var_map,
            final(self).errors == old(self).errors,
            final(self).tokens == old(self).tokens,
            final(self).src_file == old(self).src_file,
            final(self).cur_token == old(self).cur_token,
            final(self).next_token == old(self).next_token,
            final(self).params == old(self).params,
    {
        let current_label = self.label;
        self.label = self.label + 1;
        current_label
    }

    /// The next virtual register, not yet taken.
    pub fn cur_virt_reg(&mut self) -> (o: Operand)
        ensures
            operand_v(o) == reg_v(old(self).virt as int),
            *final(self) == *old(self),
    {
        Operand::new_virtreg(self.virt)
    }

    /// Starts generating a function: block 0, counters at 0.
    pub fn init_info_for_genir(&mut self)
        ensures
            final(self).cur_bb == 0,
            final(self).virt == 0,
            final(self).label == 0,
            final(self).ir_funcs == old(self).ir_funcs,
            final(self).functions == old(self).functions,
            final(self).var_map == old(self).var_map,
            final(self).errors == old(self).errors,
            final(self).tokens == old(self).tokens,
            final(self).src_file == old(self).src_file,
            final(self).cur_token == old(self).cur_token,
            final(self).next_token == old(self).next_token,
            final(self).params == old(self).params,
    {
        self.cur_bb = 0;
        self.virt = 0;
        self.label = 0;
    }

    /// Adds a function named `name` with frame size `frame_size` whose only
    /// block is `bb`.
    pub fn add_new_ir_func(&mut self, name: String, frame_size: usize, bb: BasicBlock)
        ensures
            final(self).ir_funcs@ == old(self).ir_funcs@.push(IRFunction { name, blocks: final(self).ir_funcs@.last().blocks, frame_size }),
            final(self).ir_funcs@.last().blocks@ == seq![bb],
            final(self).functions == old(self).functions,
            final(self).var_map == old(self).var_map,
            final(self).errors == old(self).errors,
            final(self).tokens == old(self).tokens,
            final(self).cur_bb == old(self).cur_bb,
            final(self).virt == old(self).virt,
            final(self).label == old(self).label,
            final(self).src_file == old(self).src_file,
            final(self).cur_token == old(self).cur_token,
            final(self).next_token == old(self).next_token,
            final(self).params == old(self).params,
    {
        let mut ir_func = IRFunction::new(name);
        ir_func.blocks.push(bb);
        ir_func.frame_size = frame_size;
        self.ir_funcs.push(ir_func);
    }
}


/// The view of the first `k` nodes of a list is the first `k` of its view.
pub proof fn lemma_nodes_v_take(s: Seq<Node>, k: int)
    requires
        0 <= k <= s.len(),
    ensures
        nodes_v(s.take(k)) == nodes_v(s).take(k),
{
    crate::compiler::frontend::node::lemma_nodes_v_len(s);
    crate::compiler::frontend::node::lemma_nodes_v_len(s.take(k));
    assert(nodes_v(s.take(k)) =~= nodes_v(s).take(k));
}

impl Manager {
    /// Generates the code of an expression into the current block of
    /// function `func_idx` (see `gen_expr_s`) and returns the operand that
    /// holds its value.
    #[verifier::spinoff_prover]
    #[verifier::rlimit(60)]
    pub fn gen_expr(&mut self, func_idx: usize, n: Node) -> (o: Operand)
        requires
            gen_ok(*old(self), func_idx as int),
            gen_expr_s(node_v(n), table_view(old(self).var_map@), gstate(*old(self), func_idx as int)) is Some,
        ensures
            gen_ok(*final(self), func_idx as int),
            gen_frame(*old(self), *final(self), func_idx as int),
            gen_expr_s(node_v(n), table_view(old(self).var_map@), gstate(*old(self), func_idx as int)) == Some(
                (operand_v(o), gstate(*final(self), func_idx as int)),
            ),
        decreases n,
    {
        let op = n.kind.to_operator();
        match n.kind {
            NodeKind::ASSIGN(lv, rv) => {
                let right_op = self.gen_expr(func_idx, *rv);
                let left_op = self.gen_expr(func_idx, *lv);
                let dup = right_op.duplicate();
                self.add_ir_to_current_bb(func_idx, ThreeAddressCode::new_assign_code(left_op, dup));
                right_op
            },
            NodeKind::NEGATIVE(inner) => {
                let inner_op = self.gen_expr(func_idx, *inner);
                let variable_reg = self.use_current_virt_reg();
                let dst = variable_reg.duplicate();
                self.add_ir_to_current_bb(func_idx, ThreeAddressCode::new_unop_code(dst, op.unwrap(), inner_op));
                variable_reg
            },
            NodeKind::ADD(left, right)
            | NodeKind::SUB(left, right)
            | NodeKind::MUL(left, right)
            | NodeKind::DIV(left, right) => {
                let left_op = self.gen_expr(func_idx, *left);
                let right_op = self.gen_expr(func_idx, *right);
                let variable_reg = self.use_current_virt_reg();
                let dst = variable_reg.duplicate();
                self.add_ir_to_current_bb(
                    func_idx,
                    ThreeAddressCode::new_binop_code(dst, op.unwrap(), left_op, right_op),
                );
                variable_reg
            },
            NodeKind::INTEGER(val) => Operand::new_int_literal(val),
            NodeKind::IDENTIFIER(name) => {
                match table_get_exec(&self.var_map, name.as_str()) {
                    Some(var) => {
                        let offset = var.get_local_offset();
                        Operand::new_auto_var(name, offset)
                    },
                    None => Operand::new_invalid(),
                }
            },
            _ => Operand::new_invalid(),
        }
    }
}

impl Manager {
    /// Generates the code of a statement into function `func_idx` (see
    /// `gen_stmt_s`).
    #[verifier::spinoff_prover]
    pub fn gen_stmt(&mut self, func_idx: usize, stmt: Node)
        requires
            gen_ok(*old(self), func_idx as int),
            gen_stmt_s(node_v(stmt), table_view(old(self).var_map@), gstate(*old(self), func_idx as int)) is Some,
        ensures
            gen_ok(*final(self), func_idx as int),
            gen_frame(*old(self), *final(self), func_idx as int),
            gen_stmt_s(node_v(stmt), table_view(old(self).var_map@), gstate(*old(self), func_idx as int)) == Some(
                gstate(*final(self), func_idx as int),
            ),
        decreases stmt, 1int,
    {
        match &stmt.kind {
            NodeKind::FORSTMT(..) => self.gen_for(func_idx, stmt),
            NodeKind::DOWHILESTMT(..) => self.gen_do_while(func_idx, stmt),
            NodeKind::WHILESTMT(..) => self.gen_while(func_idx, stmt),
            NodeKind::IFSTMT(..) => self.gen_if(func_idx, stmt),
            NodeKind::IFELSESTMT(..) => self.gen_if_else(func_idx, stmt),
            _ => self.gen_simple_stmt(func_idx, stmt),
        }
    }

    /// Generates the code of a statement that holds no loop or conditional
    /// at its top.
    #[verifier::spinoff_prover]
    fn gen_simple_stmt(&mut self, func_idx: usize, stmt: Node)
        requires
            gen_ok(*old(self), func_idx as int),
            gen_stmt_s(node_v(stmt), table_view(old(self).var_map@), gstate(*old(self), func_idx as int)) is Some,
            !(stmt.kind is FORSTMT || stmt.kind is DOWHILESTMT || stmt.kind is WHILESTMT || stmt.kind is IFSTMT
                || stmt.kind is IFELSESTMT),
        ensures
            gen_ok(*final(self), func_idx as int),
            gen_frame(*old(self), *final(self), func_idx as int),
            gen_stmt_s(node_v(stmt), table_view(old(self).var_map@), gstate(*old(self), func_idx as int)) == Some(
                gstate(*final(self), func_idx as int),
            ),
        decreases stmt, 0int,
    {
        match stmt.kind {
            NodeKind::GOTOSTMT(label_name) => {
                let succ_label = make_user_label(&label_name);
                let target = succ_label.clone();
                self.add_ir_to_current_bb(func_idx, ThreeAddressCode::new_goto(target));
                self.open_new_block(func_idx, succ_label);
            },
            NodeKind::COMPOUNDSTMT(stmts) => {
                self.gen_compound(func_idx, stmts);
            },
            NodeKind::RETURNSTMT(child) => {
                let return_operand = self.gen_expr(func_idx, *child);
                self.add_ir_to_current_bb(func_idx, ThreeAddressCode::new_return(return_operand));
            },
            NodeKind::LABELEDSTMT(label_name, any_stmt) => {
                let ir_label = make_user_label(&label_name);
                self.add_ir_to_current_bb(func_idx, ThreeAddressCode::new_label(ir_label));
                self.gen_stmt(func_idx, *any_stmt);
            },
            NodeKind::EXPRSTMT(child) => {
                let _value = self.gen_expr(func_idx, *child);
            },
            _ => {},
        }
    }

    /// Generates the code of a `for` loop.
    #[verifier::spinoff_prover]
    #[verifier::rlimit(60)]
    fn gen_for(&mut self, func_idx: usize, stmt: Node)
        requires
            gen_ok(*old(self), func_idx as int),
            gen_stmt_s(node_v(stmt), table_view(old(self).var_map@), gstate(*old(self), func_idx as int)) is Some,
            stmt.kind is FORSTMT,
        ensures
            gen_ok(*final(self), func_idx as int),
            gen_frame(*old(self), *final(self), func_idx as int),
            gen_stmt_s(node_v(stmt), table_view(old(self).var_map@), gstate(*old(self), func_idx as int)) == Some(
                gstate(*final(self), func_idx as int),
            ),
        decreases stmt, 0int,
    {
        match stmt.kind {
            NodeKind::FORSTMT(cl, ex, ex2, body) => {
                let _init = self.gen_expr(func_idx, *cl);
                let loop_label = make_label(self.use_current_label());
                let fin_label = make_label(self.use_current_label());
                self.open_new_block(func_idx, loop_label.clone());
                self.add_ir_to_current_bb(func_idx, ThreeAddressCode::new_label(loop_label.clone()));
                let cond_op = self.gen_expr(func_idx, *ex);
                self.add_ir_to_current_bb(func_idx, ThreeAddressCode::new_iff(cond_op, fin_label.clone()));
                self.gen_stmt(func_idx, *body);
                let _step = self.gen_expr(func_idx, *ex2);
                self.add_ir_to_current_bb(func_idx, ThreeAddressCode::new_goto(loop_label));
                self.open_new_block(func_idx, fin_label.clone());
                self.add_ir_to_current_bb(func_idx, ThreeAddressCode::new_label(fin_label));
            },
            _ => {},
        }
    }

    /// Generates the code of a `do`-`while` loop.
    #[verifier::spinoff_prover]
    #[verifier::rlimit(60)]
    fn gen_do_while(&mut self, func_idx: usize, stmt: Node)
        requires
            gen_ok(*old(self), func_idx as int),
            gen_stmt_s(node_v(stmt), table_view(old(self).var_map@), gstate(*old(self), func_idx as int)) is Some,
            stmt.kind is DOWHILESTMT,
        ensures
            gen_ok(*final(self), func_idx as int),
            gen_frame(*old(self), *final(self), func_idx as int),
            gen_stmt_s(node_v(stmt), table_view(old(self).var_map@), gstate(*old(self), func_idx as int)) == Some(
                gstate(*final(self), func_idx as int),
            ),
        decreases stmt, 0int,
    {
        match stmt.kind {
            NodeKind::DOWHILESTMT(body, cond_expr) => {
                let loop_label = make_label(self.use_current_label());
                let fin_label = make_label(self.use_current_label());
                self.open_new_block(func_idx, loop_label.clone());
                self.add_ir_to_current_bb(func_idx, ThreeAddressCode::new_label(loop_label.clone()));
                self.gen_stmt(func_idx, *body);
                let cond_op = self.gen_expr(func_idx, *cond_expr);
                self.add_ir_to_current_bb(func_idx, ThreeAddressCode::new_iff(cond_op, fin_label.clone()));
                self.add_ir_to_current_bb(func_idx, ThreeAddressCode::new_goto(loop_label));
                self.open_new_block(func_idx, fin_label.clone());
                self.add_ir_to_current_bb(func_idx, ThreeAddressCode::new_label(fin_label));
            },
            _ => {},
        }
    }

    /// Generates the code of a `while` loop.
    #[verifier::spinoff_prover]
    #[verifier::rlimit(60)]
    fn gen_while(&mut self, func_idx: usize, stmt: Node)
        requires
            gen_ok(*old(self), func_idx as int),
            gen_stmt_s(node_v(stmt), table_view(old(self).var_map@), gstate(*old(self), func_idx as int)) is Some,
            stmt.kind is WHILESTMT,
        ensures
            gen_ok(*final(self), func_idx as int),
            gen_frame(*old(self), *final(self), func_idx as int),
            gen_stmt_s(node_v(stmt), table_view(old(self).var_map@), gstate(*old(self), func_idx as int)) == Some(
                gstate(*final(self), func_idx as int),
            ),
        decreases stmt, 0int,
    {
        match stmt.kind {
            NodeKind::WHILESTMT(cond_expr, body) => {
                let loop_label = make_label(self.use_current_label());
                let fin_label = make_label(self.use_current_label());
                self.open_new_block(func_idx, loop_label.clone());
                self.add_ir_to_current_bb(func_idx, ThreeAddressCode::new_label(loop_label.clone()));
                let cond_op = self.gen_expr(func_idx, *cond_expr);
                self.add_ir_to_current_bb(func_idx, ThreeAddressCode::new_iff(cond_op, fin_label.clone()));
                self.gen_stmt(func_idx, *body);
                self.add_ir_to_current_bb(func_idx, ThreeAddressCode::new_goto(loop_label));
                self.open_new_block(func_idx, fin_label.clone());
                self.add_ir_to_current_bb(func_idx, ThreeAddressCode::new_label(fin_label));
            },
            _ => {},
        }
    }

    /// Generates the code of an `if` without `else`.
    #[verifier::spinoff_prover]
    #[verifier::rlimit(60)]
    fn gen_if(&mut self, func_idx: usize, stmt: Node)
        requires
            gen_ok(*old(self), func_idx as int),
            gen_stmt_s(node_v(stmt), table_view(old(self).var_map@), gstate(*old(self), func_idx as int)) is Some,
            stmt.kind is IFSTMT,
        ensures
            gen_ok(*final(self), func_idx as int),
            gen_frame(*old(self), *final(self), func_idx as int),
            gen_stmt_s(node_v(stmt), table_view(old(self).var_map@), gstate(*old(self), func_idx as int)) == Some(
                gstate(*final(self), func_idx as int),
            ),
        decreases stmt, 0int,
    {
        match stmt.kind {
            NodeKind::IFSTMT(cond_expr, any_stmt) => {
                let cond_op = self.gen_expr(func_idx, *cond_expr);
                let lnum = self.use_current_label();
                let fin_label = make_label(lnum);
                self.add_ir_to_current_bb(func_idx, ThreeAddressCode::new_iff(cond_op, fin_label.clone()));
                self.gen_stmt(func_idx, *any_stmt);
                self.open_new_block(func_idx, fin_label.clone());
                self.add_ir_to_current_bb(func_idx, ThreeAddressCode::new_label(fin_label));
            },
            _ => {},
        }
    }

    /// Generates the code of an `if` with `else`.
    #[verifier::spinoff_prover]
    #[verifier::rlimit(60)]
    fn gen_if_else(&mut self, func_idx: usize, stmt: Node)
        requires
            gen_ok(*old(self), func_idx as int),
            gen_stmt_s(node_v(stmt), table_view(old(self).var_map@), gstate(*old(self), func_idx as int)) is Some,
            stmt.kind is IFELSESTMT,
        ensures
            gen_ok(*final(self), func_idx as int),
            gen_frame(*old(self), *final(self), func_idx as int),
            gen_stmt_s(node_v(stmt), table_view(old(self).var_map@), gstate(*old(self), func_idx as int)) == Some(
                gstate(*final(self), func_idx as int),
            ),
        decreases stmt, 0int,
    {
        match stmt.kind {
            NodeKind::IFELSESTMT(cond_expr, body, alt_stmt) => {
                let cond_op = self.gen_expr(func_idx, *cond_expr);
                let lnum = self.use_current_label();
                let fin_label = make_label(lnum);
                let lnum2 = self.use_current_label();
                let else_label = make_label(lnum2);
                self.add_ir_to_current_bb(func_idx, ThreeAddressCode::new_iff(cond_op, else_label.clone()));
                self.gen_stmt(func_idx, *body);
                self.add_ir_to_current_bb(func_idx, ThreeAddressCode::new_goto(fin_label.clone()));
                self.open_new_block(func_idx, else_label.clone());
                self.add_ir_to_current_bb(func_idx, ThreeAddressCode::new_label(else_label));
                self.gen_stmt(func_idx, *alt_stmt);
                self.open_new_block(func_idx, fin_label.clone());
                self.add_ir_to_current_bb(func_idx, ThreeAddressCode::new_label(fin_label));
            },
            _ => {},
        }
    }

    /// Generates the code of a list of statements, in order.
    pub fn gen_compound(&mut self, func_idx: usize, stmts: Vec<Node>)
        requires
            gen_ok(*old(self), func_idx as int),
            gen_stmts_s(nodes_v(stmts@), table_view(old(self).var_map@), gstate(*old(self), func_idx as int)) is Some,
        ensures
            gen_ok(*final(self), func_idx as int),
            gen_frame(*old(self), *final(self), func_idx as int),
            gen_stmts_s(nodes_v(stmts@), table_view(old(self).var_map@), gstate(*old(self), func_idx as int)) == Some(
                gstate(*final(self), func_idx as int),
            ),
        decreases stmts, 0int,
    {
        let ghost orig = stmts@;
        let ghost f = func_idx as int;
        let ghost vars = table_view(self.var_map@);
        let ghost st0 = gstate(*self, f);
        let mut rest = stmts;
        let n = rest.len();
        let mut i: usize = 0;
        proof {
            assert(orig.take(0) =~= Seq::<Node>::empty());
            assert(nodes_v(orig.take(0)) =~= Seq::<NodeV>::empty());
        }
        while i < n
            invariant
                n == orig.len(),
                orig == stmts@,
                0 <= i <= n,
                rest@ == orig.skip(i as int),
                f == func_idx as int,
                vars == table_view(old(self).var_map@),
                st0 == gstate(*old(self), f),
                gen_ok(*old(self), f),
                gen_ok(*self, f),
                gen_frame(*old(self), *self, f),
                gen_stmts_s(nodes_v(orig), vars, st0) is Some,
                gen_stmts_s(nodes_v(orig.take(i as int)), vars, st0) == Some(gstate(*self, f)),
            decreases n - i,
        {
            assert(rest@[0] == orig[i as int]);
            let stmt = rest.remove(0);
            assert(decreases_to!(stmts => stmt)) by {
                assert(stmts@[i as int] == stmt);
            }
            proof {
                crate::compiler::frontend::node::lemma_nodes_v_len(orig);
                lemma_gen_prefix(nodes_v(orig), vars, st0, i + 1);
                lemma_nodes_v_take(orig, i + 1);
                assert(orig.take(i + 1) =~= orig.take(i as int).push(orig[i as int]));
                crate::compiler::frontend::node::lemma_nodes_v_push(orig.take(i as int), orig[i as int]);
                assert(nodes_v(orig.take(i + 1)).drop_last() == nodes_v(orig.take(i as int)));
            }
            self.gen_stmt(func_idx, stmt);
            proof {
                assert(rest@ =~= orig.skip(i + 1));
            }
            i = i + 1;
        }
        assert(orig.take(n as int) =~= orig);
    }
}


impl Manager {
    /// Generates three-address code for every function, in order: each
    /// gets a function of its name and frame size whose code starts in a
    /// block named `entry`, with counters started afresh.
    pub fn generate_three_address_code(&mut self)
        requires
            old(self).ir_funcs@.len() == 0,
            code_fits(old(self).functions@, table_view(old(self).var_map@)),
        ensures
            code_generated(final(self).ir_funcs@, old(self).functions@, table_view(old(self).var_map@)),
            old(self).functions@.len() > 0 ==> (final(self).virt as int, final(self).label as int) == (
                (func_code(old(self).functions@.last(), table_view(old(self).var_map@))->0).1,
                (func_code(old(self).functions@.last(), table_view(old(self).var_map@))->0).2,
            ),
            old(self).functions@.len() == 0 ==> final(self).virt == old(self).virt && final(self).label == old(
                self,
            ).label && final(self).cur_bb == old(self).cur_bb,
            old(self).functions@.len() > 0 ==> final(self).cur_bb == final(self).ir_funcs@.last().blocks@.len() - 1,
            final(self).functions == old(self).functions,
            final(self).var_map == old(self).var_map,
            final(self).errors == old(self).errors,
            final(self).tokens == old(self).tokens,
            final(self).src_file == old(self).src_file,
            final(self).cur_token == old(self).cur_token,
            final(self).next_token == old(self).next_token,
            final(self).params == old(self).params,
    {
        let ghost fs = self.functions@;
        let ghost vars = table_view(self.var_map@);
        let n = self.functions.len();
        let mut idx: usize = 0;
        while idx < n
            invariant
                n == fs.len(),
                0 <= idx <= n,
                fs == self.functions@,
                fs == old(self).functions@,
                self.functions == old(self).functions,
                vars == table_view(self.var_map@),
                vars == table_view(old(self).var_map@),
                self.var_map == old(self).var_map,
                self.errors == old(self).errors,
                self.tokens == old(self).tokens,
                self.src_file == old(self).src_file,
                self.cur_token == old(self).cur_token,
                self.next_token == old(self).next_token,
                self.params == old(self).params,
                idx == 0 ==> self.virt == old(self).virt && self.label == old(self).label && self.cur_bb == old(self).cur_bb,
                idx > 0 ==> self.ir_funcs@.len() == idx && self.cur_bb == self.ir_funcs@.last().blocks@.len() - 1,
                code_fits(fs, vars),
                code_generated(self.ir_funcs@, fs.take(idx as int), vars),
                idx > 0 ==> (self.virt as int, self.label as int) == (
                    (func_code(fs[idx - 1], vars)->0).1,
                    (func_code(fs[idx - 1], vars)->0).2,
                ),
            decreases n - idx,
        {
            let name = self.functions[idx].name.clone();
            let frame_size = self.functions[idx].frame_size;
            let entry_bb = BasicBlock::new(String::from_str("entry"));
            let ghost bb = entry_bb;
            let ghost before = self.ir_funcs@;
            self.add_new_ir_func(name, frame_size, entry_bb);
            self.init_info_for_genir();
            let stmts = duplicate_nodes(&self.functions[idx].stmts);
            proof {
                assert(func_code(fs[idx as int], vars) is Some);
                assert(tacs_v(bb.tacs@) =~= Seq::<TacV>::empty());
                assert(blocks_v(self.ir_funcs@[idx as int].blocks@) =~= entry_state().0);
                assert(gstate(*self, idx as int) == entry_state());
            }
            self.gen_compound(idx, stmts);
            proof {
                let ir = self.ir_funcs@;
                let ft = fs.take(idx + 1);
                assert forall|k: int| 0 <= k < ft.len() implies {
                    &&& (#[trigger] ir[k]).name == ft[k].name
                    &&& ir[k].frame_size == ft[k].frame_size
                    &&& blocks_v(ir[k].blocks@) == (func_code(ft[k], vars)->0).0
                } by {
                    if k < idx {
                        assert(ir[k] == before[k]);
                        assert(fs.take(idx as int)[k] == ft[k]);
                    }
                }
            }
            idx = idx + 1;
        }
        proof {
            assert(fs.take(n as int) =~= fs);
        }
    }
}

} // verus!
