//! How many virtual registers and label numbers the code of a function
//! takes, and a check that they fit the counters.
use vstd::prelude::*;

use crate::compiler::backend::translate_ir::{
    code_fits, emit, entry_state, func_code, gen_expr_s, gen_stmt_s, gen_stmts_s, num_label, open_block, user_label, GState,
};
use crate::compiler::ir::three_address_code::tac::TacV;
use crate::compiler::frontend::manager::Manager;
use crate::compiler::frontend::node::{lemma_nodes_v_len, node_v, nodes_v, Node, NodeKind, NodeKindV, NodeV};
use crate::compiler::frontend::variable::table_view;
use crate::compiler::frontend::variable::Variable;

verus! {

/// The virtual registers the code of an expression takes: one for each
/// negation and each arithmetic operation.
pub open spec fn expr_regs(n: NodeV) -> int
    decreases n,
{
    match n.kind {
        NodeKindV::Assign(l, r) => expr_regs(*r) + expr_regs(*l),
        NodeKindV::Negative(i) => expr_regs(*i) + 1,
        NodeKindV::Add(l, r) => expr_regs(*l) + expr_regs(*r) + 1,
        NodeKindV::Sub(l, r) => expr_regs(*l) + expr_regs(*r) + 1,
        NodeKindV::Mul(l, r) => expr_regs(*l) + expr_regs(*r) + 1,
        NodeKindV::Div(l, r) => expr_regs(*l) + expr_regs(*r) + 1,
        _ => 0,
    }
}

/// The virtual registers and label numbers the code of a statement takes:
/// two label numbers for each loop and each conditional with an `else`,
/// one for each conditional without.
pub open spec fn stmt_needs(n: NodeV) -> (int, int)
    decreases n, 1int,
{
    match n.kind {
        NodeKindV::Compound(stmts) => stmts_needs(stmts),
        NodeKindV::Return(e) => (expr_regs(*e), 0),
        NodeKindV::For(cl, ex, ex2, body) => (
            expr_regs(*cl) + expr_regs(*ex) + stmt_needs(*body).0 + expr_regs(*ex2),
            2 + stmt_needs(*body).1,
        ),
        NodeKindV::DoWhile(body, c) => (stmt_needs(*body).0 + expr_regs(*c), 2 + stmt_needs(*body).1),
        NodeKindV::While(c, body) => (expr_regs(*c) + stmt_needs(*body).0, 2 + stmt_needs(*body).1),
        NodeKindV::If(c, body) => (expr_regs(*c) + stmt_needs(*body).0, 1 + stmt_needs(*body).1),
        NodeKindV::IfElse(c, body, alt) => (
            expr_regs(*c) + stmt_needs(*body).0 + stmt_needs(*alt).0,
            2 + stmt_needs(*body).1 + stmt_needs(*alt).1,
        ),
        NodeKindV::Labeled(_, s) => stmt_needs(*s),
        NodeKindV::ExprStmt(e) => (expr_regs(*e), 0),
        _ => (0, 0),
    }
}

/// The virtual registers and label numbers the code of a list of
/// statements takes.
pub open spec fn stmts_needs(s: Seq<NodeV>) -> (int, int)
    decreases s, 0int,
{
    if s.len() == 0 {
        (0, 0)
    } else {
        let a = stmts_needs(s.drop_last());
        let b = stmt_needs(s.last());
        (a.0 + b.0, a.1 + b.1)
    }
}

/// The code of an expression can be generated exactly when the registers
/// it takes fit the counter, and it moves the counter by that many.
pub proof fn lemma_expr_regs(n: NodeV, vars: Seq<(Seq<char>, Variable)>, st: GState)
    requires
        0 <= st.1 <= usize::MAX,
    ensures
        expr_regs(n) >= 0,
        gen_expr_s(n, vars, st) is Some <==> st.1 + expr_regs(n) <= usize::MAX,
        gen_expr_s(n, vars, st) matches Some((_, s)) ==> s.1 == st.1 + expr_regs(n) && s.2 == st.2,
    decreases n,
{
    match n.kind {
        NodeKindV::Assign(l, r) => {
            lemma_expr_regs(*r, vars, st);
            if let Some((_, s1)) = gen_expr_s(*r, vars, st) {
                lemma_expr_regs(*l, vars, s1);
            } else {
                lemma_expr_regs(*l, vars, st);
            }
        },
        NodeKindV::Negative(i) => {
            lemma_expr_regs(*i, vars, st);
        },
        NodeKindV::Add(l, r) => {
            lemma_expr_regs(*l, vars, st);
            if let Some((_, s1)) = gen_expr_s(*l, vars, st) {
                lemma_expr_regs(*r, vars, s1);
            } else {
                lemma_expr_regs(*r, vars, st);
            }
        },
        NodeKindV::Sub(l, r) => {
            lemma_expr_regs(*l, vars, st);
            if let Some((_, s1)) = gen_expr_s(*l, vars, st) {
                lemma_expr_regs(*r, vars, s1);
            } else {
                lemma_expr_regs(*r, vars, st);
            }
        },
        NodeKindV::Mul(l, r) => {
            lemma_expr_regs(*l, vars, st);
            if let Some((_, s1)) = gen_expr_s(*l, vars, st) {
                lemma_expr_regs(*r, vars, s1);
            } else {
                lemma_expr_regs(*r, vars, st);
            }
        },
        NodeKindV::Div(l, r) => {
            lemma_expr_regs(*l, vars, st);
            if let Some((_, s1)) = gen_expr_s(*l, vars, st) {
                lemma_expr_regs(*r, vars, s1);
            } else {
                lemma_expr_regs(*r, vars, st);
            }
        },
        _ => {},
    }
}

/// The code of a statement can be generated exactly when the registers and
/// label numbers it takes fit the counters, and it moves each counter by
/// that many.
#[verifier::spinoff_prover]
#[verifier::rlimit(60)]
pub proof fn lemma_stmt_needs(n: NodeV, vars: Seq<(Seq<char>, Variable)>, st: GState)
    requires
        0 <= st.1 <= usize::MAX,
        0 <= st.2 <= usize::MAX,
    ensures
        stmt_needs(n).0 >= 0,
        stmt_needs(n).1 >= 0,
        gen_stmt_s(n, vars, st) is Some <==> (st.1 + stmt_needs(n).0 <= usize::MAX && st.2 + stmt_needs(n).1 <= usize::MAX),
        gen_stmt_s(n, vars, st) matches Some(s) ==> s.1 == st.1 + stmt_needs(n).0 && s.2 == st.2 + stmt_needs(n).1,
    decreases n, 1int,
{
    match n.kind {
        NodeKindV::Compound(stmts) => {
            lemma_stmts_needs(stmts, vars, st);
        },
        NodeKindV::Return(e) => {
            lemma_expr_regs(*e, vars, st);
        },
        NodeKindV::ExprStmt(e) => {
            lemma_expr_regs(*e, vars, st);
        },
        NodeKindV::Labeled(l, inner) => {
            lemma_stmt_needs(*inner, vars, emit(st, TacV::Label(user_label(l))));
        },
        NodeKindV::For(cl, ex, ex2, body) => {
            lemma_expr_regs(*cl, vars, st);
            lemma_expr_regs(*ex, vars, st);
            lemma_expr_regs(*ex2, vars, st);
            lemma_stmt_needs(*body, vars, st);
            if let Some((_, s1)) = gen_expr_s(*cl, vars, st) {
                if s1.2 + 2 <= usize::MAX {
                    let s2: GState = (s1.0, s1.1, s1.2 + 2);
                    let lp = num_label(s1.2);
                    let fin = num_label(s1.2 + 1);
                    let s3 = emit(open_block(s2, lp), TacV::Label(lp));
                    lemma_expr_regs(*ex, vars, s3);
                    if let Some((c, s4)) = gen_expr_s(*ex, vars, s3) {
                        let s5 = emit(s4, TacV::Iff(c, fin));
                        lemma_stmt_needs(*body, vars, s5);
                        if let Some(s6) = gen_stmt_s(*body, vars, s5) {
                            lemma_expr_regs(*ex2, vars, s6);
                        }
                    }
                }
            }
        },
        NodeKindV::DoWhile(body, c) => {
            lemma_expr_regs(*c, vars, st);
            lemma_stmt_needs(*body, vars, st);
            if st.2 + 2 <= usize::MAX {
                let s1: GState = (st.0, st.1, st.2 + 2);
                let lp = num_label(st.2);
                let s2 = emit(open_block(s1, lp), TacV::Label(lp));
                lemma_stmt_needs(*body, vars, s2);
                if let Some(s3) = gen_stmt_s(*body, vars, s2) {
                    lemma_expr_regs(*c, vars, s3);
                }
            }
        },
        NodeKindV::While(c, body) => {
            lemma_expr_regs(*c, vars, st);
            lemma_stmt_needs(*body, vars, st);
            if st.2 + 2 <= usize::MAX {
                let s1: GState = (st.0, st.1, st.2 + 2);
                let lp = num_label(st.2);
                let fin = num_label(st.2 + 1);
                let s2 = emit(open_block(s1, lp), TacV::Label(lp));
                lemma_expr_regs(*c, vars, s2);
                if let Some((co, s3)) = gen_expr_s(*c, vars, s2) {
                    lemma_stmt_needs(*body, vars, emit(s3, TacV::Iff(co, fin)));
                }
            }
        },
        NodeKindV::If(c, body) => {
            lemma_expr_regs(*c, vars, st);
            lemma_stmt_needs(*body, vars, st);
            if let Some((co, s1)) = gen_expr_s(*c, vars, st) {
                if s1.2 + 1 <= usize::MAX {
                    let s2: GState = (s1.0, s1.1, s1.2 + 1);
                    let fin = num_label(s1.2);
                    lemma_stmt_needs(*body, vars, emit(s2, TacV::Iff(co, fin)));
                }
            }
        },
        NodeKindV::IfElse(c, body, alt) => {
            lemma_expr_regs(*c, vars, st);
            lemma_stmt_needs(*body, vars, st);
            lemma_stmt_needs(*alt, vars, st);
            if let Some((co, s1)) = gen_expr_s(*c, vars, st) {
                if s1.2 + 2 <= usize::MAX {
                    let s2: GState = (s1.0, s1.1, s1.2 + 2);
                    let fin = num_label(s1.2);
                    let els = num_label(s1.2 + 1);
                    lemma_stmt_needs(*body, vars, emit(s2, TacV::Iff(co, els)));
                    if let Some(s4) = gen_stmt_s(*body, vars, emit(s2, TacV::Iff(co, els))) {
                        lemma_stmt_needs(*alt, vars, emit(open_block(emit(s4, TacV::Goto(fin)), els), TacV::Label(els)));
                    }
                }
            }
        },
        _ => {},
    }
}

/// The code of a list of statements can be generated exactly when the
/// registers and label numbers it takes fit the counters, and it moves each
/// counter by that many.
pub proof fn lemma_stmts_needs(s: Seq<NodeV>, vars: Seq<(Seq<char>, Variable)>, st: GState)
    requires
        0 <= st.1 <= usize::MAX,
        0 <= st.2 <= usize::MAX,
    ensures
        stmts_needs(s).0 >= 0,
        stmts_needs(s).1 >= 0,
        gen_stmts_s(s, vars, st) is Some <==> (st.1 + stmts_needs(s).0 <= usize::MAX && st.2 + stmts_needs(s).1 <= usize::MAX),
        gen_stmts_s(s, vars, st) matches Some(r) ==> r.1 == st.1 + stmts_needs(s).0 && r.2 == st.2 + stmts_needs(s).1,
    decreases s, 0int,
{
    if s.len() > 0 {
        lemma_stmts_needs(s.drop_last(), vars, st);
        lemma_stmt_needs(s.last(), vars, st);
        if let Some(s1) = gen_stmts_s(s.drop_last(), vars, st) {
            lemma_stmt_needs(s.last(), vars, s1);
        }
    }
}

/// `x + y + c`, where `a` and `b` hold `x` and `y` or are `None` when they
/// are more than `usize` holds; `None` when the sum is.
fn add_needs(a: Option<usize>, b: Option<usize>, c: usize, Ghost(x): Ghost<int>, Ghost(y): Ghost<int>) -> (r: Option<usize>)
    requires
        x >= 0,
        y >= 0,
        match a {
            Some(v) => v == x,
            None => x > usize::MAX,
        },
        match b {
            Some(v) => v == y,
            None => y > usize::MAX,
        },
    ensures
        match r {
            Some(v) => v == x + y + c,
            None => x + y + c > usize::MAX,
        },
{
    match (a, b) {
        (Some(u), Some(v)) => match u.checked_add(v) {
            Some(w) => w.checked_add(c),
            None => None,
        },
        _ => None,
    }
}

/// The registers the code of an expression takes (see `expr_regs`);
/// `None` when that is more than `usize` holds.
pub fn expr_regs_of(n: &Node) -> (r: Option<usize>)
    ensures
        match r {
            Some(v) => v == expr_regs(node_v(*n)),
            None => expr_regs(node_v(*n)) > usize::MAX,
        },
    decreases n,
{
    proof {
        lemma_expr_regs(node_v(*n), Seq::empty(), (Seq::empty(), 0, 0));
    }
    match &n.kind {
        NodeKind::ASSIGN(l, r) => {
            proof {
                lemma_expr_regs(node_v(**l), Seq::empty(), (Seq::empty(), 0, 0));
                lemma_expr_regs(node_v(**r), Seq::empty(), (Seq::empty(), 0, 0));
            }
            add_needs(expr_regs_of(&**r), expr_regs_of(&**l), 0, Ghost(expr_regs(node_v(**r))), Ghost(expr_regs(node_v(**l))))
        },
        NodeKind::NEGATIVE(i) => {
            proof {
                lemma_expr_regs(node_v(**i), Seq::empty(), (Seq::empty(), 0, 0));
            }
            add_needs(expr_regs_of(&**i), Some(0), 1, Ghost(expr_regs(node_v(**i))), Ghost(0))
        },
        NodeKind::ADD(l, r) | NodeKind::SUB(l, r) | NodeKind::MUL(l, r) | NodeKind::DIV(l, r) => {
            proof {
                lemma_expr_regs(node_v(**l), Seq::empty(), (Seq::empty(), 0, 0));
                lemma_expr_regs(node_v(**r), Seq::empty(), (Seq::empty(), 0, 0));
            }
            add_needs(expr_regs_of(&**l), expr_regs_of(&**r), 1, Ghost(expr_regs(node_v(**l))), Ghost(expr_regs(node_v(**r))))
        },
        _ => Some(0),
    }
}

/// `o` holds `x`, or is `None` when `x` is more than `usize` holds.
pub open spec fn holds_count(o: Option<usize>, x: int) -> bool {
    match o {
        Some(v) => v == x,
        None => x > usize::MAX,
    }
}

/// The registers and label numbers the code of a statement takes (see
/// `stmt_needs`), each `None` when it is more than `usize` holds.
#[verifier::spinoff_prover]
#[verifier::rlimit(60)]
pub fn stmt_needs_of(n: &Node) -> (r: (Option<usize>, Option<usize>))
    ensures
        holds_count(r.0, stmt_needs(node_v(*n)).0),
        holds_count(r.1, stmt_needs(node_v(*n)).1),
    decreases n,
{
    let ghost z: GState = (Seq::empty(), 0, 0);
    let ghost e = Seq::<(Seq<char>, Variable)>::empty();
    match &n.kind {
        NodeKind::COMPOUNDSTMT(v) => stmts_needs_of(v),
        NodeKind::RETURNSTMT(x) | NodeKind::EXPRSTMT(x) => (expr_regs_of(&**x), Some(0)),
        NodeKind::LABELEDSTMT(_, x) => stmt_needs_of(&**x),
        NodeKind::FORSTMT(a, b, c, body) => {
            proof {
                lemma_expr_regs(node_v(**a), e, z);
                lemma_expr_regs(node_v(**b), e, z);
                lemma_expr_regs(node_v(**c), e, z);
                lemma_stmt_needs(node_v(**body), e, z);
            }
            let (br, bl) = stmt_needs_of(&**body);
            let ghost (ra, rb, rc) = (expr_regs(node_v(**a)), expr_regs(node_v(**b)), expr_regs(node_v(**c)));
            let ghost (bn0, bn1) = stmt_needs(node_v(**body));
            let first = add_needs(expr_regs_of(&**a), expr_regs_of(&**b), 0, Ghost(ra), Ghost(rb));
            let second = add_needs(br, expr_regs_of(&**c), 0, Ghost(bn0), Ghost(rc));
            let regs = add_needs(first, second, 0, Ghost(ra + rb), Ghost(bn0 + rc));
            (regs, add_needs(Some(2), bl, 0, Ghost(2), Ghost(bn1)))
        },
        NodeKind::DOWHILESTMT(body, c) => {
            proof {
                lemma_expr_regs(node_v(**c), e, z);
                lemma_stmt_needs(node_v(**body), e, z);
            }
            let (br, bl) = stmt_needs_of(&**body);
            let ghost (bn0, bn1) = stmt_needs(node_v(**body));
            (
                add_needs(br, expr_regs_of(&**c), 0, Ghost(bn0), Ghost(expr_regs(node_v(**c)))),
                add_needs(Some(2), bl, 0, Ghost(2), Ghost(bn1)),
            )
        },
        NodeKind::WHILESTMT(c, body) => {
            proof {
                lemma_expr_regs(node_v(**c), e, z);
                lemma_stmt_needs(node_v(**body), e, z);
            }
            let (br, bl) = stmt_needs_of(&**body);
            let ghost (bn0, bn1) = stmt_needs(node_v(**body));
            (
                add_needs(expr_regs_of(&**c), br, 0, Ghost(expr_regs(node_v(**c))), Ghost(bn0)),
                add_needs(Some(2), bl, 0, Ghost(2), Ghost(bn1)),
            )
        },
        NodeKind::IFSTMT(c, body) => {
            proof {
                lemma_expr_regs(node_v(**c), e, z);
                lemma_stmt_needs(node_v(**body), e, z);
            }
            let (br, bl) = stmt_needs_of(&**body);
            let ghost (bn0, bn1) = stmt_needs(node_v(**body));
            (
                add_needs(expr_regs_of(&**c), br, 0, Ghost(expr_regs(node_v(**c))), Ghost(bn0)),
                add_needs(Some(1), bl, 0, Ghost(1), Ghost(bn1)),
            )
        },
        NodeKind::IFELSESTMT(c, body, alt) => {
            proof {
                lemma_expr_regs(node_v(**c), e, z);
                lemma_stmt_needs(node_v(**body), e, z);
                lemma_stmt_needs(node_v(**alt), e, z);
            }
            let (br, bl) = stmt_needs_of(&**body);
            let (ar, al) = stmt_needs_of(&**alt);
            let ghost (bn0, bn1) = stmt_needs(node_v(**body));
            let ghost (an0, an1) = stmt_needs(node_v(**alt));
            let ghost rc = expr_regs(node_v(**c));
            let first = add_needs(expr_regs_of(&**c), br, 0, Ghost(rc), Ghost(bn0));
            let labels = add_needs(Some(2), bl, 0, Ghost(2), Ghost(bn1));
            (add_needs(first, ar, 0, Ghost(rc + bn0), Ghost(an0)), add_needs(labels, al, 0, Ghost(2 + bn1), Ghost(an1)))
        },
        _ => (Some(0), Some(0)),
    }
}

/// The registers and label numbers the code of a list of statements takes
/// (see `stmts_needs`), each `None` when it is more than `usize` holds.
pub fn stmts_needs_of(v: &Vec<Node>) -> (r: (Option<usize>, Option<usize>))
    ensures
        holds_count(r.0, stmts_needs(nodes_v(v@)).0),
        holds_count(r.1, stmts_needs(nodes_v(v@)).1),
    decreases v,
{
    let ghost sv = nodes_v(v@);
    proof {
        lemma_nodes_v_len(v@);
        assert(sv.take(0) =~= Seq::<NodeV>::empty());
    }
    let mut regs: Option<usize> = Some(0);
    let mut labels: Option<usize> = Some(0);
    let mut i: usize = 0;
    while i < v.len()
        invariant
            0 <= i <= v@.len(),
            sv == nodes_v(v@),
            sv.len() == v@.len(),
            forall|j: int| 0 <= j < v@.len() ==> #[trigger] sv[j] == node_v(v@[j]),
            holds_count(regs, stmts_needs(sv.take(i as int)).0),
            holds_count(labels, stmts_needs(sv.take(i as int)).1),
        decreases v@.len() - i,
    {
        assert(decreases_to!(v => v@[i as int]));
        let (a, b) = stmt_needs_of(&v[i]);
        let ghost before = stmts_needs(sv.take(i as int));
        let ghost here = stmt_needs(sv[i as int]);
        proof {
            lemma_stmts_needs(sv.take(i as int), Seq::empty(), (Seq::empty(), 0, 0));
            lemma_stmt_needs(sv[i as int], Seq::empty(), (Seq::empty(), 0, 0));
            assert(sv.take(i + 1).drop_last() =~= sv.take(i as int));
            assert(sv.take(i + 1).last() == sv[i as int]);
        }
        regs = add_needs(regs, a, 0, Ghost(before.0), Ghost(here.0));
        labels = add_needs(labels, b, 0, Ghost(before.1), Ghost(here.1));
        i = i + 1;
    }
    proof {
        assert(sv.take(i as int) =~= sv);
    }
    (regs, labels)
}

impl Manager {
    /// Whether the code of every function can be generated without a
    /// counter overflowing (see `code_fits`), as generating it needs.
    pub fn code_fits_check(&self) -> (b: bool)
        ensures
            b == code_fits(self.functions@, table_view(self.var_map@)),
    {
        let ghost vars = table_view(self.var_map@);
        let mut k: usize = 0;
        while k < self.functions.len()
            invariant
                0 <= k <= self.functions@.len(),
                vars == table_view(self.var_map@),
                forall|g: int| 0 <= g < k ==> (#[trigger] func_code(self.functions@[g], vars)) is Some,
            decreases self.functions@.len() - k,
        {
            let (a, b) = stmts_needs_of(&self.functions[k].stmts);
            proof {
                lemma_stmts_needs(nodes_v(self.functions@[k as int].stmts@), vars, entry_state());
            }
            match (a, b) {
                (Some(_), Some(_)) => {},
                _ => {
                    assert(!(func_code(self.functions@[k as int], vars) is Some));
                    return false;
                },
            }
            k = k + 1;
        }
        true
    }
}

} // verus!
