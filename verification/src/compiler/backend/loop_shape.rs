//! The shape of the code generated for loops and conditionals: a loop
//! block that starts at the loop label and a jump back to it before the exit
//! block; conditional tests that leave for the right labels.
use vstd::prelude::*;

use crate::compiler::backend::translate_ir::{
    emit, gen_expr_s, gen_stmt_s, gen_stmts_s, num_label, open_block, reg_v, take_labels, take_reg, user_label, GState,
};
use crate::compiler::frontend::node::{NodeKindV, NodeV};
use crate::compiler::frontend::variable::Variable;
use crate::compiler::ir::three_address_code::tac::TacV;
use crate::compiler::ir::three_address_code::tac_kind::Operator;

verus! {

/// `b` keeps every block of `a`: the same labels, and each block's
/// instructions as a prefix.
pub open spec fn extends(a: GState, b: GState) -> bool {
    &&& a.0.len() <= b.0.len()
    &&& forall|i: int| 0 <= i < a.0.len() ==> (#[trigger] b.0[i]).0 == a.0[i].0 && a.0[i].1.len() <= b.0[i].1.len()
    &&& forall|i: int, j: int| 0 <= i < a.0.len() && 0 <= j < a.0[i].1.len() ==> #[trigger] b.0[i].1[j] == a.0[i].1[j]
}

/// Keeping blocks is transitive.
pub proof fn lemma_extends_trans(a: GState, b: GState, c: GState)
    requires
        extends(a, b),
        extends(b, c),
    ensures
        extends(a, c),
{
    assert forall|i: int, j: int| 0 <= i < a.0.len() && 0 <= j < a.0[i].1.len() implies #[trigger] c.0[i].1[j] == a.0[i].1[j] by {
        assert(b.0[i].1[j] == a.0[i].1[j]);
        assert(c.0[i].1[j] == b.0[i].1[j]);
    }
}

/// Appending an instruction keeps every block.
pub proof fn lemma_extends_emit(a: GState, t: TacV)
    requires
        a.0.len() > 0,
    ensures
        extends(a, emit(a, t)),
        emit(a, t).0.len() == a.0.len(),
        emit(a, t).1 == a.1,
        emit(a, t).2 == a.2,
{
}

/// Opening a block keeps every block.
pub proof fn lemma_extends_open(a: GState, l: Seq<char>)
    ensures
        extends(a, open_block(a, l)),
        open_block(a, l).0.len() == a.0.len() + 1,
        open_block(a, l).0.last() == (l, Seq::<TacV>::empty()),
        open_block(a, l).1 == a.1,
        open_block(a, l).2 == a.2,
{
}

/// Nothing is kept from no state but itself.
pub proof fn lemma_extends_refl(a: GState)
    ensures
        extends(a, a),
{
}

/// The code of an expression only appends to the current block and takes
/// no label number.
pub proof fn lemma_expr_extends(n: NodeV, vars: Seq<(Seq<char>, Variable)>, st: GState)
    requires
        st.0.len() > 0,
        gen_expr_s(n, vars, st) is Some,
    ensures
        extends(st, (gen_expr_s(n, vars, st)->0).1),
        (gen_expr_s(n, vars, st)->0).1.0.len() == st.0.len(),
        (gen_expr_s(n, vars, st)->0).1.2 == st.2,
    decreases n,
{
    match n.kind {
        NodeKindV::Assign(l, r) => {
            lemma_expr_extends(*r, vars, st);
            let (ro, s1) = gen_expr_s(*r, vars, st)->0;
            lemma_expr_extends(*l, vars, s1);
            let (lo, s2) = gen_expr_s(*l, vars, s1)->0;
            lemma_extends_emit(s2, TacV::Assign(lo, ro));
            lemma_extends_trans(st, s1, s2);
            lemma_extends_trans(st, s2, emit(s2, TacV::Assign(lo, ro)));
        },
        NodeKindV::Negative(i) => {
            lemma_expr_extends(*i, vars, st);
            let (io, s1) = gen_expr_s(*i, vars, st)->0;
            let s2 = take_reg(s1)->0;
            let t = TacV::UnaryExpr(reg_v(s1.1), Operator::MINUS, io);
            lemma_extends_emit(s2, t);
            lemma_extends_trans(st, s1, emit(s2, t));
        },
        NodeKindV::Add(l, r) => {
            lemma_expr_extends(*l, vars, st);
            let (lo, s1) = gen_expr_s(*l, vars, st)->0;
            lemma_expr_extends(*r, vars, s1);
            let (ro, s2) = gen_expr_s(*r, vars, s1)->0;
            let s3 = take_reg(s2)->0;
            let t = TacV::Expr(reg_v(s2.1), Operator::PLUS, lo, ro);
            lemma_extends_emit(s3, t);
            lemma_extends_trans(st, s1, s2);
            lemma_extends_trans(st, s2, emit(s3, t));
        },
        NodeKindV::Sub(l, r) => {
            lemma_expr_extends(*l, vars, st);
            let (lo, s1) = gen_expr_s(*l, vars, st)->0;
            lemma_expr_extends(*r, vars, s1);
            let (ro, s2) = gen_expr_s(*r, vars, s1)->0;
            let s3 = take_reg(s2)->0;
            let t = TacV::Expr(reg_v(s2.1), Operator::MINUS, lo, ro);
            lemma_extends_emit(s3, t);
            lemma_extends_trans(st, s1, s2);
            lemma_extends_trans(st, s2, emit(s3, t));
        },
        NodeKindV::Mul(l, r) => {
            lemma_expr_extends(*l, vars, st);
            let (lo, s1) = gen_expr_s(*l, vars, st)->0;
            lemma_expr_extends(*r, vars, s1);
            let (ro, s2) = gen_expr_s(*r, vars, s1)->0;
            let s3 = take_reg(s2)->0;
            let t = TacV::Expr(reg_v(s2.1), Operator::ASTERISK, lo, ro);
            lemma_extends_emit(s3, t);
            lemma_extends_trans(st, s1, s2);
            lemma_extends_trans(st, s2, emit(s3, t));
        },
        NodeKindV::Div(l, r) => {
            lemma_expr_extends(*l, vars, st);
            let (lo, s1) = gen_expr_s(*l, vars, st)->0;
            lemma_expr_extends(*r, vars, s1);
            let (ro, s2) = gen_expr_s(*r, vars, s1)->0;
            let s3 = take_reg(s2)->0;
            let t = TacV::Expr(reg_v(s2.1), Operator::SLASH, lo, ro);
            lemma_extends_emit(s3, t);
            lemma_extends_trans(st, s1, s2);
            lemma_extends_trans(st, s2, emit(s3, t));
        },
        _ => {
            lemma_extends_refl(st);
        },
    }
}

/// The code of a statement keeps every block it starts from.
pub proof fn lemma_stmt_extends(n: NodeV, vars: Seq<(Seq<char>, Variable)>, st: GState)
    requires
        st.0.len() > 0,
        gen_stmt_s(n, vars, st) is Some,
    ensures
        extends(st, gen_stmt_s(n, vars, st)->0),
    decreases n, 1int,
{
    match n.kind {
        NodeKindV::Goto(l) => {
            let s1 = emit(st, TacV::Goto(user_label(l)));
            lemma_extends_emit(st, TacV::Goto(user_label(l)));
            lemma_extends_open(s1, user_label(l));
            lemma_extends_trans(st, s1, open_block(s1, user_label(l)));
        },
        NodeKindV::Compound(stmts) => {
            lemma_stmts_extends(stmts, vars, st);
        },
        NodeKindV::Return(e) => {
            lemma_expr_extends(*e, vars, st);
            let (o, s1) = gen_expr_s(*e, vars, st)->0;
            lemma_extends_emit(s1, TacV::Ret(o));
            lemma_extends_trans(st, s1, emit(s1, TacV::Ret(o)));
        },
        NodeKindV::Labeled(l, inner) => {
            let s1 = emit(st, TacV::Label(user_label(l)));
            lemma_extends_emit(st, TacV::Label(user_label(l)));
            lemma_stmt_extends(*inner, vars, s1);
            lemma_extends_trans(st, s1, gen_stmt_s(*inner, vars, s1)->0);
        },
        NodeKindV::ExprStmt(e) => {
            lemma_expr_extends(*e, vars, st);
        },
        NodeKindV::If(c, body) => {
            lemma_expr_extends(*c, vars, st);
            let (co, s1) = gen_expr_s(*c, vars, st)->0;
            let s2 = take_labels(s1, 1)->0;
            let fin = num_label(s1.2);
            let s3 = emit(s2, TacV::Iff(co, fin));
            lemma_extends_emit(s2, TacV::Iff(co, fin));
            lemma_extends_trans(st, s1, s3);
            lemma_stmt_extends(*body, vars, s3);
            let s4 = gen_stmt_s(*body, vars, s3)->0;
            lemma_extends_trans(st, s3, s4);
            lemma_extends_open(s4, fin);
            lemma_extends_emit(open_block(s4, fin), TacV::Label(fin));
            lemma_extends_trans(st, s4, open_block(s4, fin));
            lemma_extends_trans(st, open_block(s4, fin), emit(open_block(s4, fin), TacV::Label(fin)));
        },
        NodeKindV::For(..) => lemma_for_shape(n, vars, st),
        NodeKindV::DoWhile(..) => lemma_do_while_shape(n, vars, st),
        NodeKindV::While(..) => lemma_while_shape(n, vars, st),
        NodeKindV::IfElse(..) => lemma_if_else_extends(n, vars, st),
        _ => {
            lemma_extends_refl(st);
        },
    }
}

/// The code of a list of statements keeps every block it starts from.
pub proof fn lemma_stmts_extends(s: Seq<NodeV>, vars: Seq<(Seq<char>, Variable)>, st: GState)
    requires
        st.0.len() > 0,
        gen_stmts_s(s, vars, st) is Some,
    ensures
        extends(st, gen_stmts_s(s, vars, st)->0),
    decreases s, 0int,
{
    if s.len() == 0 {
        lemma_extends_refl(st);
    } else {
        lemma_stmts_extends(s.drop_last(), vars, st);
        let s1 = gen_stmts_s(s.drop_last(), vars, st)->0;
        lemma_stmt_extends(s.last(), vars, s1);
        lemma_extends_trans(st, s1, gen_stmt_s(s.last(), vars, s1)->0);
    }
}

/// A conditional with an `else` keeps every block it starts from.
#[verifier::spinoff_prover]
pub proof fn lemma_if_else_extends(n: NodeV, vars: Seq<(Seq<char>, Variable)>, st: GState)
    requires
        st.0.len() > 0,
        gen_stmt_s(n, vars, st) is Some,
        n.kind is IfElse,
    ensures
        extends(st, gen_stmt_s(n, vars, st)->0),
    decreases n, 0int,
{
    match n.kind {
        NodeKindV::IfElse(c, body, alt) => {
            lemma_expr_extends(*c, vars, st);
            let (co, s1) = gen_expr_s(*c, vars, st)->0;
            let s2 = take_labels(s1, 2)->0;
            let fin = num_label(s1.2);
            let els = num_label(s1.2 + 1);
            let s3 = emit(s2, TacV::Iff(co, els));
            lemma_extends_emit(s2, TacV::Iff(co, els));
            lemma_extends_trans(st, s1, s3);
            lemma_stmt_extends(*body, vars, s3);
            let s4 = gen_stmt_s(*body, vars, s3)->0;
            lemma_extends_trans(st, s3, s4);
            let s5 = emit(s4, TacV::Goto(fin));
            lemma_extends_emit(s4, TacV::Goto(fin));
            lemma_extends_trans(st, s4, s5);
            lemma_extends_open(s5, els);
            lemma_extends_trans(st, s5, open_block(s5, els));
            let s6 = emit(open_block(s5, els), TacV::Label(els));
            lemma_extends_emit(open_block(s5, els), TacV::Label(els));
            lemma_extends_trans(st, open_block(s5, els), s6);
            lemma_stmt_extends(*alt, vars, s6);
            let s7 = gen_stmt_s(*alt, vars, s6)->0;
            lemma_extends_trans(st, s6, s7);
            lemma_extends_open(s7, fin);
            lemma_extends_trans(st, s7, open_block(s7, fin));
            lemma_extends_emit(open_block(s7, fin), TacV::Label(fin));
            lemma_extends_trans(st, open_block(s7, fin), emit(open_block(s7, fin), TacV::Label(fin)));
        },
        _ => {},
    }
}

/// The loop label of a loop generated from `st`, and its exit label.
pub open spec fn loop_label(st: GState) -> Seq<char> {
    num_label(st.2)
}

/// The exit label of a loop generated from `st`.
pub open spec fn exit_label(st: GState) -> Seq<char> {
    num_label(st.2 + 1)
}

/// Where a loop's body starts: the two label numbers taken, the loop block
/// opened and its label placed.
pub open spec fn loop_start(st: GState) -> GState {
    emit(open_block(take_labels(st, 2)->0, loop_label(st)), TacV::Label(loop_label(st)))
}

/// `t` leaves for label `l` when its operand is zero.
pub open spec fn exit_test(t: TacV, l: Seq<char>) -> bool {
    t matches TacV::Iff(_, m) && m == l
}

/// The shape of a loop's code generated from `st` into `s`: the first block
/// it opens is the loop block, named after the loop label and starting with
/// it; the last block is the exit block, holding just the exit label; and the
/// block before the exit ends with a jump back to the loop label.
pub open spec fn loop_shaped(st: GState, s: GState) -> bool {
    let k = st.0.len() as int;
    let lp = loop_label(st);
    let fin = exit_label(st);
    &&& extends(st, s)
    &&& s.0.len() >= k + 2
    &&& s.0[k].0 == lp
    &&& s.0[k].1.len() > 0
    &&& s.0[k].1[0] == TacV::Label(lp)
    &&& s.0.last() == (fin, seq![TacV::Label(fin)])
    &&& s.0[s.0.len() - 2].1.len() > 0
    &&& s.0[s.0.len() - 2].1.last() == TacV::Goto(lp)
}

/// The code of a `do`-`while` loop has the loop shape, and its back jump
/// comes right after the test that leaves the loop for the exit label.
#[verifier::spinoff_prover]
pub proof fn lemma_do_while_shape(n: NodeV, vars: Seq<(Seq<char>, Variable)>, st: GState)
    requires
        st.0.len() > 0,
        gen_stmt_s(n, vars, st) is Some,
        n.kind is DoWhile,
    ensures
        extends(st, gen_stmt_s(n, vars, st)->0),
        loop_shaped(st, gen_stmt_s(n, vars, st)->0),
        ({
            let s = gen_stmt_s(n, vars, st)->0;
            let last = s.0[s.0.len() - 2].1;
            &&& last.len() >= 2
            &&& exit_test(last[last.len() - 2], exit_label(st))
        }),
        n.kind matches NodeKindV::DoWhile(body, _) ==> extends(
            gen_stmt_s(*body, vars, loop_start(st))->0,
            gen_stmt_s(n, vars, st)->0,
        ),
        n.kind matches NodeKindV::DoWhile(body, c) ==> ({
            let s = gen_stmt_s(n, vars, st)->0;
            let last = s.0[s.0.len() - 2].1;
            last[last.len() - 2] == TacV::Iff(
                (gen_expr_s(*c, vars, gen_stmt_s(*body, vars, loop_start(st))->0)->0).0,
                exit_label(st),
            )
        }),
    decreases n, 0int,
{
    match n.kind {
        NodeKindV::DoWhile(body, c) => {
            let k = st.0.len() as int;
            let s1 = take_labels(st, 2)->0;
            let lp = num_label(st.2);
            let fin = num_label(st.2 + 1);
            assert(extends(st, s1));
            let sa = open_block(s1, lp);
            lemma_extends_open(s1, lp);
            let sb = emit(sa, TacV::Label(lp));
            lemma_extends_emit(sa, TacV::Label(lp));
            lemma_extends_trans(st, s1, sa);
            lemma_extends_trans(st, sa, sb);
            assert(sb.0[k] == (lp, seq![TacV::Label(lp)]));
            lemma_stmt_extends(*body, vars, sb);
            let s3 = gen_stmt_s(*body, vars, sb)->0;
            lemma_extends_trans(st, sb, s3);
            lemma_expr_extends(*c, vars, s3);
            let (co, s4) = gen_expr_s(*c, vars, s3)->0;
            lemma_extends_trans(st, s3, s4);
            let s5 = emit(s4, TacV::Iff(co, fin));
            lemma_extends_emit(s4, TacV::Iff(co, fin));
            lemma_extends_trans(st, s4, s5);
            let s6 = emit(s5, TacV::Goto(lp));
            lemma_extends_emit(s5, TacV::Goto(lp));
            lemma_extends_trans(st, s5, s6);
            let s7 = open_block(s6, fin);
            lemma_extends_open(s6, fin);
            lemma_extends_trans(st, s6, s7);
            let s8 = emit(s7, TacV::Label(fin));
            lemma_extends_emit(s7, TacV::Label(fin));
            lemma_extends_trans(st, s7, s8);
            assert(s8 == gen_stmt_s(n, vars, st)->0);
            assert(extends(s3, s8)) by {
                lemma_extends_trans(s3, s4, s5);
                lemma_extends_trans(s3, s5, s6);
                lemma_extends_trans(s3, s6, s7);
                lemma_extends_trans(s3, s7, s8);
            }
            assert(s3.0[k].0 == lp && s3.0[k].1[0] == TacV::Label(lp));
            assert(s8.0[k].0 == lp && s8.0[k].1[0] == TacV::Label(lp)) by {
                assert(extends(sb, s8)) by {
                    lemma_extends_trans(sb, s3, s4);
                    lemma_extends_trans(sb, s4, s5);
                    lemma_extends_trans(sb, s5, s6);
                    lemma_extends_trans(sb, s6, s7);
                    lemma_extends_trans(sb, s7, s8);
                }
            }
            assert(s8.0[s8.0.len() - 2] == s6.0.last());
            assert(s8.0.last().1 =~= seq![TacV::Label(fin)]);
            let last = s6.0.last().1;
            assert(last == s4.0.last().1.push(TacV::Iff(co, fin)).push(TacV::Goto(lp)));
        },
        _ => {},
    }
}

/// The code of a `while` loop has the loop shape, and its loop block tests
/// the condition and leaves for the exit label.
#[verifier::spinoff_prover]
pub proof fn lemma_while_shape(n: NodeV, vars: Seq<(Seq<char>, Variable)>, st: GState)
    requires
        st.0.len() > 0,
        gen_stmt_s(n, vars, st) is Some,
        n.kind is While,
    ensures
        extends(st, gen_stmt_s(n, vars, st)->0),
        loop_shaped(st, gen_stmt_s(n, vars, st)->0),
        exists|j: int|
            0 <= j < (gen_stmt_s(n, vars, st)->0).0[st.0.len() as int].1.len() && exit_test(
                #[trigger] (gen_stmt_s(n, vars, st)->0).0[st.0.len() as int].1[j],
                exit_label(st),
            ),
        n.kind matches NodeKindV::While(c, body) ==> extends(
            gen_stmt_s(
                *body,
                vars,
                emit((gen_expr_s(*c, vars, loop_start(st))->0).1, TacV::Iff((gen_expr_s(*c, vars, loop_start(st))->0).0, exit_label(st))),
            )->0,
            gen_stmt_s(n, vars, st)->0,
        ),
        n.kind matches NodeKindV::While(c, _) ==> exists|j: int|
            0 <= j < (gen_stmt_s(n, vars, st)->0).0[st.0.len() as int].1.len() && #[trigger] (gen_stmt_s(
                n,
                vars,
                st,
            )->0).0[st.0.len() as int].1[j] == TacV::Iff((gen_expr_s(*c, vars, loop_start(st))->0).0, exit_label(st)),
    decreases n, 0int,
{
    match n.kind {
        NodeKindV::While(c, body) => {
            let k = st.0.len() as int;
            let s1 = take_labels(st, 2)->0;
            let lp = num_label(st.2);
            let fin = num_label(st.2 + 1);
            assert(extends(st, s1));
            let sa = open_block(s1, lp);
            lemma_extends_open(s1, lp);
            let sb = emit(sa, TacV::Label(lp));
            lemma_extends_emit(sa, TacV::Label(lp));
            lemma_extends_trans(st, s1, sa);
            lemma_extends_trans(st, sa, sb);
            assert(sb.0[k] == (lp, seq![TacV::Label(lp)]));
            lemma_expr_extends(*c, vars, sb);
            let (co, s3) = gen_expr_s(*c, vars, sb)->0;
            lemma_extends_trans(st, sb, s3);
            let s4 = emit(s3, TacV::Iff(co, fin));
            lemma_extends_emit(s3, TacV::Iff(co, fin));
            lemma_extends_trans(st, s3, s4);
            lemma_extends_trans(sb, s3, s4);
            let j = s3.0[k].1.len() as int;
            assert(s4.0[k].1[j] == TacV::Iff(co, fin));
            lemma_stmt_extends(*body, vars, s4);
            let s5 = gen_stmt_s(*body, vars, s4)->0;
            lemma_extends_trans(st, s4, s5);
            let s6 = emit(s5, TacV::Goto(lp));
            lemma_extends_emit(s5, TacV::Goto(lp));
            lemma_extends_trans(st, s5, s6);
            let s7 = open_block(s6, fin);
            lemma_extends_open(s6, fin);
            lemma_extends_trans(st, s6, s7);
            let s8 = emit(s7, TacV::Label(fin));
            lemma_extends_emit(s7, TacV::Label(fin));
            lemma_extends_trans(st, s7, s8);
            assert(s8 == gen_stmt_s(n, vars, st)->0);
            assert(extends(s4, s8)) by {
                lemma_extends_trans(s4, s5, s6);
                lemma_extends_trans(s4, s6, s7);
                lemma_extends_trans(s4, s7, s8);
            }
            assert(s8.0[k].1[j] == TacV::Iff(co, fin));
            assert(s8.0[k].0 == lp && s8.0[k].1[0] == TacV::Label(lp)) by {
                lemma_extends_trans(sb, s4, s8);
            }
            assert(extends(s5, s8)) by {
                lemma_extends_trans(s5, s6, s7);
                lemma_extends_trans(s5, s7, s8);
            }
            assert(s8.0[s8.0.len() - 2] == s6.0.last());
            assert(s8.0.last().1 =~= seq![TacV::Label(fin)]);
        },
        _ => {},
    }
}

/// The code of a `for` loop has the loop shape, after the code of its first
/// clause, and its loop block tests the condition and leaves for the exit
/// label.
#[verifier::spinoff_prover]
#[verifier::rlimit(30)]
pub proof fn lemma_for_shape(n: NodeV, vars: Seq<(Seq<char>, Variable)>, st: GState)
    requires
        st.0.len() > 0,
        gen_stmt_s(n, vars, st) is Some,
        n.kind is For,
    ensures
        extends(st, gen_stmt_s(n, vars, st)->0),
        loop_shaped(st, gen_stmt_s(n, vars, st)->0),
        exists|j: int|
            0 <= j < (gen_stmt_s(n, vars, st)->0).0[st.0.len() as int].1.len() && exit_test(
                #[trigger] (gen_stmt_s(n, vars, st)->0).0[st.0.len() as int].1[j],
                exit_label(st),
            ),
        n.kind matches NodeKindV::For(cl, ex, ex2, body) ==> ({
            let s3 = gen_expr_s(*ex, vars, loop_start((gen_expr_s(*cl, vars, st)->0).1))->0;
            let s5 = gen_stmt_s(*body, vars, emit(s3.1, TacV::Iff(s3.0, exit_label(st))))->0;
            &&& extends(s5, gen_stmt_s(n, vars, st)->0)
            &&& extends((gen_expr_s(*ex2, vars, s5)->0).1, gen_stmt_s(n, vars, st)->0)
        }),
        n.kind matches NodeKindV::For(cl, ex, _, _) ==> exists|j: int|
            0 <= j < (gen_stmt_s(n, vars, st)->0).0[st.0.len() as int].1.len() && #[trigger] (gen_stmt_s(
                n,
                vars,
                st,
            )->0).0[st.0.len() as int].1[j] == TacV::Iff(
                (gen_expr_s(*ex, vars, loop_start((gen_expr_s(*cl, vars, st)->0).1))->0).0,
                exit_label(st),
            ),
    decreases n, 0int,
{
    match n.kind {
        NodeKindV::For(cl, ex, ex2, body) => {
            let k = st.0.len() as int;
            lemma_expr_extends(*cl, vars, st);
            let s0 = (gen_expr_s(*cl, vars, st)->0).1;
            let s1 = take_labels(s0, 2)->0;
            let lp = num_label(s0.2);
            let fin = num_label(s0.2 + 1);
            assert(extends(s0, s1));
            lemma_extends_trans(st, s0, s1);
            let sa = open_block(s1, lp);
            lemma_extends_open(s1, lp);
            let sb = emit(sa, TacV::Label(lp));
            lemma_extends_emit(sa, TacV::Label(lp));
            lemma_extends_trans(st, s1, sa);
            lemma_extends_trans(st, sa, sb);
            assert(sb.0[k] == (lp, seq![TacV::Label(lp)]));
            lemma_expr_extends(*ex, vars, sb);
            let (co, s3) = gen_expr_s(*ex, vars, sb)->0;
            lemma_extends_trans(st, sb, s3);
            let s4 = emit(s3, TacV::Iff(co, fin));
            lemma_extends_emit(s3, TacV::Iff(co, fin));
            lemma_extends_trans(st, s3, s4);
            lemma_extends_trans(sb, s3, s4);
            let j = s3.0[k].1.len() as int;
            assert(s4.0[k].1[j] == TacV::Iff(co, fin));
            lemma_stmt_extends(*body, vars, s4);
            let s5 = gen_stmt_s(*body, vars, s4)->0;
            lemma_extends_trans(st, s4, s5);
            lemma_expr_extends(*ex2, vars, s5);
            let s6a = (gen_expr_s(*ex2, vars, s5)->0).1;
            lemma_extends_trans(st, s5, s6a);
            let s6 = emit(s6a, TacV::Goto(lp));
            lemma_extends_emit(s6a, TacV::Goto(lp));
            lemma_extends_trans(st, s6a, s6);
            let s7 = open_block(s6, fin);
            lemma_extends_open(s6, fin);
            lemma_extends_trans(st, s6, s7);
            let s8 = emit(s7, TacV::Label(fin));
            lemma_extends_emit(s7, TacV::Label(fin));
            lemma_extends_trans(st, s7, s8);
            assert(s8 == gen_stmt_s(n, vars, st)->0);
            assert(extends(s4, s8)) by {
                lemma_extends_trans(s4, s5, s6a);
                lemma_extends_trans(s4, s6a, s6);
                lemma_extends_trans(s4, s6, s7);
                lemma_extends_trans(s4, s7, s8);
            }
            assert(s8.0[k].1[j] == TacV::Iff(co, fin));
            assert(s8.0[k].0 == lp && s8.0[k].1[0] == TacV::Label(lp)) by {
                lemma_extends_trans(sb, s4, s8);
            }
            assert(extends(s6a, s8)) by {
                lemma_extends_trans(s6a, s6, s7);
                lemma_extends_trans(s6a, s7, s8);
            }
            assert(extends(s5, s8)) by {
                lemma_extends_trans(s5, s6a, s8);
            }
            assert(s8.0[s8.0.len() - 2] == s6.0.last());
            assert(s8.0.last().1 =~= seq![TacV::Label(fin)]);
        },
        _ => {},
    }
}

/// Every loop jumps back: the code of a `while`, `do`-`while` or `for`
/// loop opens a loop block that starts at the loop label, and the block
/// before its exit block ends with a jump back to that label.
pub proof fn lemma_loops_jump_back(n: NodeV, vars: Seq<(Seq<char>, Variable)>, st: GState)
    requires
        st.0.len() > 0,
        gen_stmt_s(n, vars, st) is Some,
        n.kind is While || n.kind is DoWhile || n.kind is For,
    ensures
        loop_shaped(st, gen_stmt_s(n, vars, st)->0),
{
    if n.kind is While {
        lemma_while_shape(n, vars, st);
    } else if n.kind is DoWhile {
        lemma_do_while_shape(n, vars, st);
    } else {
        lemma_for_shape(n, vars, st);
    }
}

/// The code of a conditional without `else`: the current block ends the
/// condition's code with a test that leaves for the end label, the body's
/// code follows, and the last block is the end block holding just the end
/// label.
#[verifier::spinoff_prover]
pub proof fn lemma_if_shape(n: NodeV, vars: Seq<(Seq<char>, Variable)>, st: GState)
    requires
        st.0.len() > 0,
        gen_stmt_s(n, vars, st) is Some,
        n.kind is If,
    ensures
        n.kind matches NodeKindV::If(c, body) && ({
            let (co, s1) = gen_expr_s(*c, vars, st)->0;
            let fin = num_label(st.2);
            let s3 = emit((s1.0, s1.1, s1.2 + 1), TacV::Iff(co, fin));
            let s = gen_stmt_s(n, vars, st)->0;
            &&& s.0.len() >= st.0.len() + 1
            &&& s.0[st.0.len() - 1].1.len() > s1.0[st.0.len() - 1].1.len()
            &&& s.0[st.0.len() - 1].1[s1.0[st.0.len() - 1].1.len() as int] == TacV::Iff(co, fin)
            &&& extends(gen_stmt_s(*body, vars, s3)->0, s)
            &&& s.0.last() == (fin, seq![TacV::Label(fin)])
        }),
{
    match n.kind {
        NodeKindV::If(c, body) => {
            let k = st.0.len() - 1;
            lemma_expr_extends(*c, vars, st);
            let (co, s1) = gen_expr_s(*c, vars, st)->0;
            let s2 = take_labels(s1, 1)->0;
            let fin = num_label(s1.2);
            let s3 = emit(s2, TacV::Iff(co, fin));
            lemma_extends_emit(s2, TacV::Iff(co, fin));
            assert(s3.0[k].1[s1.0[k].1.len() as int] == TacV::Iff(co, fin));
            lemma_stmt_extends(*body, vars, s3);
            let s4 = gen_stmt_s(*body, vars, s3)->0;
            lemma_extends_open(s4, fin);
            lemma_extends_emit(open_block(s4, fin), TacV::Label(fin));
            let s6 = emit(open_block(s4, fin), TacV::Label(fin));
            lemma_extends_trans(s4, open_block(s4, fin), s6);
            lemma_extends_trans(s3, s4, s6);
            assert(s6 == gen_stmt_s(n, vars, st)->0);
            assert(s6.0.last().1 =~= seq![TacV::Label(fin)]);
        },
        _ => {},
    }
}

/// The code of a conditional with `else`: the current block ends the
/// condition's code with a test that leaves for the `else` label; the
/// then-branch's code follows and ends with a jump to the end label; the
/// block after it is the `else` block, starting at the `else` label; and the
/// last block is the end block holding just the end label.
#[verifier::spinoff_prover]
#[verifier::rlimit(30)]
pub proof fn lemma_if_else_shape(n: NodeV, vars: Seq<(Seq<char>, Variable)>, st: GState)
    requires
        st.0.len() > 0,
        gen_stmt_s(n, vars, st) is Some,
        n.kind is IfElse,
    ensures
        n.kind matches NodeKindV::IfElse(c, body, _) && ({
            let (co, s1) = gen_expr_s(*c, vars, st)->0;
            let fin = num_label(st.2);
            let els = num_label(st.2 + 1);
            let s3 = emit((s1.0, s1.1, s1.2 + 2), TacV::Iff(co, els));
            let s4 = gen_stmt_s(*body, vars, s3)->0;
            let s = gen_stmt_s(n, vars, st)->0;
            let e = s4.0.len() as int;
            &&& s.0[st.0.len() - 1].1.len() > s1.0[st.0.len() - 1].1.len()
            &&& s.0[st.0.len() - 1].1[s1.0[st.0.len() - 1].1.len() as int] == TacV::Iff(co, els)
            &&& extends(s4, s)
            &&& s.0.len() >= e + 2
            &&& s.0[e - 1].1.len() > s4.0[e - 1].1.len()
            &&& s.0[e - 1].1[s4.0[e - 1].1.len() as int] == TacV::Goto(fin)
            &&& s.0[e].0 == els
            &&& s.0[e].1.len() > 0
            &&& s.0[e].1[0] == TacV::Label(els)
            &&& s.0.last() == (fin, seq![TacV::Label(fin)])
        }),
{
    match n.kind {
        NodeKindV::IfElse(c, body, alt) => {
            let k = st.0.len() - 1;
            lemma_expr_extends(*c, vars, st);
            let (co, s1) = gen_expr_s(*c, vars, st)->0;
            let s2 = take_labels(s1, 2)->0;
            let fin = num_label(s1.2);
            let els = num_label(s1.2 + 1);
            let s3 = emit(s2, TacV::Iff(co, els));
            lemma_extends_emit(s2, TacV::Iff(co, els));
            assert(s3.0[k].1[s1.0[k].1.len() as int] == TacV::Iff(co, els));
            lemma_stmt_extends(*body, vars, s3);
            let s4 = gen_stmt_s(*body, vars, s3)->0;
            let e = s4.0.len() as int;
            let s5 = emit(s4, TacV::Goto(fin));
            lemma_extends_emit(s4, TacV::Goto(fin));
            assert(s5.0[e - 1].1[s4.0[e - 1].1.len() as int] == TacV::Goto(fin));
            let sa = open_block(s5, els);
            lemma_extends_open(s5, els);
            let s6 = emit(sa, TacV::Label(els));
            lemma_extends_emit(sa, TacV::Label(els));
            assert(s6.0[e] == (els, seq![TacV::Label(els)]));
            lemma_stmt_extends(*alt, vars, s6);
            let s7 = gen_stmt_s(*alt, vars, s6)->0;
            let sb = open_block(s7, fin);
            lemma_extends_open(s7, fin);
            let s8 = emit(sb, TacV::Label(fin));
            lemma_extends_emit(sb, TacV::Label(fin));
            lemma_extends_trans(s6, s7, sb);
            lemma_extends_trans(s6, sb, s8);
            lemma_extends_trans(sa, s6, s8);
            lemma_extends_trans(s5, sa, s8);
            lemma_extends_trans(s4, s5, s8);
            lemma_extends_trans(s3, s4, s8);
            assert(s8 == gen_stmt_s(n, vars, st)->0);
            assert(s8.0.last().1 =~= seq![TacV::Label(fin)]);
        },
        _ => {},
    }
}

} // verus!
