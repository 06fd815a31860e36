use vstd::prelude::*;

use crate::compiler::frontend::manager::Manager;
use crate::compiler::frontend::node::{lemma_nodes_v_push, node_v, nodes_v, Function, Node, NodeKind, NodeKindV, NodeV};
use crate::compiler::frontend::token::Position;
use crate::compiler::frontend::types::Type;
use crate::compiler::frontend::variable::{table_duplicate, table_get_exec, table_view, view_get, Variable};
use crate::error::{Error, ErrorKind, ErrorMsg};

verus! {

/// The names and return types of the functions.
pub open spec fn sigs_of(fs: Seq<Function>) -> Seq<(Seq<char>, Type)> {
    fs.map_values(|f: Function| (f.name@, f.return_type))
}

/// The return type of the first function named `name`.
pub open spec fn sig_lookup(sigs: Seq<(Seq<char>, Type)>, name: Seq<char>) -> Option<Type>
    decreases sigs.len(),
{
    if sigs.len() == 0 {
        None
    } else if sigs[0].0 == name {
        Some(sigs[0].1)
    } else {
        sig_lookup(sigs.drop_first(), name)
    }
}

/// The type error reported at `pos`.
pub open spec fn type_error(msg: ErrorMsg, pos: Position) -> Error {
    Error { kind: ErrorKind::Type, message: msg, position: pos }
}

/// The unknown type.
pub open spec fn unknown() -> Type {
    Type { kind: crate::compiler::frontend::types::TypeKind::UNKNOWN, byte_size: 4 }
}

/// The name of the callee of a call: an identifier's name, or empty.
pub open spec fn callee_name(n: NodeV) -> Seq<char> {
    match n.kind {
        NodeKindV::Identifier(name) => name,
        _ => Seq::empty(),
    }
}

/// Typing a binary expression whose operands were typed `lt` and `rt`:
/// equal types give the node that type; otherwise an error at the left
/// operand and the unknown type.
pub open spec fn sem_binary(n: NodeV, kind: NodeKindV, left: NodeV, lt: Type, rt: Type, errs: Seq<Error>) -> (NodeV, Type, Seq<Error>) {
    if lt == rt {
        (NodeV { position: n.position, kind, ctype: lt }, rt, errs)
    } else {
        (
            NodeV { position: n.position, kind, ctype: n.ctype },
            unknown(),
            errs.push(type_error(ErrorMsg::MustBeSameTypeInBinaryOperation, left.position)),
        )
    }
}

/// What typing does to an expression: the expression with types filled
/// in, its type, and the errors it reports. A call takes the return type of
/// the function it names, a literal is an `int`, a variable has its
/// declared type, an assignment or a binary expression takes the type of
/// its operands when they agree and is an error otherwise, a negation takes
/// the type of its operand; anything else is an error.
pub open spec fn sem_expr(n: NodeV, vars: Seq<(Seq<char>, Variable)>, sigs: Seq<(Seq<char>, Type)>) -> (NodeV, Type, Seq<Error>)
    decreases n,
{
    match n.kind {
        NodeKindV::Call(callee, _) => (n, match sig_lookup(sigs, callee_name(*callee)) {
            Some(t) => t,
            None => unknown(),
        }, Seq::empty()),
        NodeKindV::Integer(_) => {
            let t = Type { kind: crate::compiler::frontend::types::TypeKind::INTEGER, byte_size: 8 };
            (NodeV { position: n.position, kind: n.kind, ctype: t }, t, Seq::empty())
        },
        NodeKindV::Identifier(name) => (n, match view_get(vars, name) {
            Some(v) => v.ctype,
            None => unknown(),
        }, Seq::empty()),
        NodeKindV::Assign(l, r) => {
            let (l2, lt, e1) = sem_expr(*l, vars, sigs);
            let (r2, rt, e2) = sem_expr(*r, vars, sigs);
            sem_binary(n, NodeKindV::Assign(Box::new(l2), Box::new(r2)), l2, lt, rt, e1 + e2)
        },
        NodeKindV::Negative(inner) => {
            let (i2, t, e) = sem_expr(*inner, vars, sigs);
            (NodeV { position: n.position, kind: NodeKindV::Negative(Box::new(i2)), ctype: t }, t, e)
        },
        NodeKindV::Add(l, r) => {
            let (l2, lt, e1) = sem_expr(*l, vars, sigs);
            let (r2, rt, e2) = sem_expr(*r, vars, sigs);
            sem_binary(n, NodeKindV::Add(Box::new(l2), Box::new(r2)), l2, lt, rt, e1 + e2)
        },
        NodeKindV::Sub(l, r) => {
            let (l2, lt, e1) = sem_expr(*l, vars, sigs);
            let (r2, rt, e2) = sem_expr(*r, vars, sigs);
            sem_binary(n, NodeKindV::Sub(Box::new(l2), Box::new(r2)), l2, lt, rt, e1 + e2)
        },
        NodeKindV::Mul(l, r) => {
            let (l2, lt, e1) = sem_expr(*l, vars, sigs);
            let (r2, rt, e2) = sem_expr(*r, vars, sigs);
            sem_binary(n, NodeKindV::Mul(Box::new(l2), Box::new(r2)), l2, lt, rt, e1 + e2)
        },
        NodeKindV::Div(l, r) => {
            let (l2, lt, e1) = sem_expr(*l, vars, sigs);
            let (r2, rt, e2) = sem_expr(*r, vars, sigs);
            sem_binary(n, NodeKindV::Div(Box::new(l2), Box::new(r2)), l2, lt, rt, e1 + e2)
        },
        _ => (n, unknown(), seq![type_error(ErrorMsg::InvalidNodeCantHaveType, n.position)]),
    }
}

/// What typing does to a statement: the statement with its expressions
/// typed, and the errors reported. Jumps and declarations have nothing to
/// type; a node that is no statement is an error.
pub open spec fn sem_stmt(n: NodeV, vars: Seq<(Seq<char>, Variable)>, sigs: Seq<(Seq<char>, Type)>) -> (NodeV, Seq<Error>)
    decreases n, 1int,
{
    let same = |kind: NodeKindV| NodeV { position: n.position, kind, ctype: n.ctype };
    match n.kind {
        NodeKindV::Return(e) => {
            let (e2, _, er) = sem_expr(*e, vars, sigs);
            (same(NodeKindV::Return(Box::new(e2))), er)
        },
        NodeKindV::Labeled(l, s) => {
            let (s2, er) = sem_stmt(*s, vars, sigs);
            (same(NodeKindV::Labeled(l, Box::new(s2))), er)
        },
        NodeKindV::Compound(stmts) => {
            let (s2, er) = sem_stmts(stmts, vars, sigs);
            (same(NodeKindV::Compound(s2)), er)
        },
        NodeKindV::ExprStmt(e) => {
            let (e2, _, er) = sem_expr(*e, vars, sigs);
            (same(NodeKindV::ExprStmt(Box::new(e2))), er)
        },
        NodeKindV::If(c, s) => {
            let (c2, _, e1) = sem_expr(*c, vars, sigs);
            let (s2, e2) = sem_stmt(*s, vars, sigs);
            (same(NodeKindV::If(Box::new(c2), Box::new(s2))), e1 + e2)
        },
        NodeKindV::While(c, s) => {
            let (c2, _, e1) = sem_expr(*c, vars, sigs);
            let (s2, e2) = sem_stmt(*s, vars, sigs);
            (same(NodeKindV::While(Box::new(c2), Box::new(s2))), e1 + e2)
        },
        NodeKindV::DoWhile(s, c) => {
            let (s2, e1) = sem_stmt(*s, vars, sigs);
            let (c2, _, e2) = sem_expr(*c, vars, sigs);
            (same(NodeKindV::DoWhile(Box::new(s2), Box::new(c2))), e1 + e2)
        },
        NodeKindV::For(a, b, c, s) => {
            let (a2, _, e1) = sem_expr(*a, vars, sigs);
            let (b2, _, e2) = sem_expr(*b, vars, sigs);
            let (c2, _, e3) = sem_expr(*c, vars, sigs);
            let (s2, e4) = sem_stmt(*s, vars, sigs);
            (same(NodeKindV::For(Box::new(a2), Box::new(b2), Box::new(c2), Box::new(s2))), e1 + e2 + e3 + e4)
        },
        NodeKindV::IfElse(c, s, a) => {
            let (c2, _, e1) = sem_expr(*c, vars, sigs);
            let (s2, e2) = sem_stmt(*s, vars, sigs);
            let (a2, e3) = sem_stmt(*a, vars, sigs);
            (same(NodeKindV::IfElse(Box::new(c2), Box::new(s2), Box::new(a2))), e1 + e2 + e3)
        },
        NodeKindV::Goto(_) => (n, Seq::empty()),
        NodeKindV::Declaration(_, _) => (n, Seq::empty()),
        _ => (n, seq![type_error(ErrorMsg::InvalidNodeCantHaveType, n.position)]),
    }
}

/// Typing a list of statements, in order.
pub open spec fn sem_stmts(s: Seq<NodeV>, vars: Seq<(Seq<char>, Variable)>, sigs: Seq<(Seq<char>, Type)>) -> (Seq<NodeV>, Seq<Error>)
    decreases s, 0int,
{
    if s.len() == 0 {
        (Seq::empty(), Seq::empty())
    } else {
        let (rest, e1) = sem_stmts(s.drop_last(), vars, sigs);
        let (last, e2) = sem_stmt(s.last(), vars, sigs);
        (rest.push(last), e1 + e2)
    }
}

/// Typing changes only the functions and the reported errors.
pub open spec fn sema_frame(a: Manager, b: Manager) -> bool {
    &&& b.src_file == a.src_file
    &&& b.tokens == a.tokens
    &&& b.cur_token == a.cur_token
    &&& b.next_token == a.next_token
    &&& b.params == a.params
    &&& b.ir_funcs == a.ir_funcs
    &&& b.cur_bb == a.cur_bb
    &&& b.virt == a.virt
    &&& b.label == a.label
}

/// The errors that typing the first `k` functions reports, in order.
pub open spec fn sema_errors(fs: Seq<Function>, sigs: Seq<(Seq<char>, Type)>, k: int) -> Seq<Error>
    decreases k,
{
    if k <= 0 {
        Seq::empty()
    } else {
        sema_errors(fs, sigs, k - 1) + sem_stmts(nodes_v(fs[k - 1].stmts@), table_view(fs[k - 1].local_map@), sigs).1
    }
}

impl Manager {
    /// Types every function's statements (see `sem_stmts`) with the
    /// function's locals in scope; the errors are reported in order.
    pub fn semantics(&mut self)
        ensures
            final(self).functions@.len() == old(self).functions@.len(),
            forall|f: int|
                #![trigger final(self).functions@[f]]
                0 <= f < old(self).functions@.len() ==> {
                    let of = old(self).functions@[f];
                    let nf = final(self).functions@[f];
                    &&& nf.name == of.name
                    &&& nf.def_position == of.def_position
                    &&& nf.frame_size == of.frame_size
                    &&& nf.return_type == of.return_type
                    &&& nf.local_map == of.local_map
                    &&& nf.params == of.params
                    &&& nodes_v(nf.stmts@) == sem_stmts(nodes_v(of.stmts@), table_view(of.local_map@), sigs_of(old(self).functions@)).0
                },
            final(self).errors@ == old(self).errors@ + sema_errors(
                old(self).functions@,
                sigs_of(old(self).functions@),
                old(self).functions@.len() as int,
            ),
            old(self).functions@.len() > 0 ==> final(self).var_map@.len() == 0,
            old(self).functions@.len() == 0 ==> final(self).var_map == old(self).var_map,
            sema_frame(*old(self), *final(self)),
    {
        let ghost fs0 = self.functions@;
        let ghost sigs = sigs_of(fs0);
        let functions_number = self.functions.len();
        let mut func_idx: usize = 0;
        while func_idx < functions_number
            invariant
                functions_number == fs0.len(),
                self.functions@.len() == functions_number,
                0 <= func_idx <= functions_number,
                sigs == sigs_of(fs0),
                sigs_of(self.functions@) == sigs,
                sema_frame(*old(self), *self),
                fs0 == old(self).functions@,
                func_idx > 0 ==> self.var_map@.len() == 0,
                func_idx == 0 ==> self.var_map == old(self).var_map,
                forall|f: int| func_idx <= f < functions_number ==> #[trigger] self.functions@[f] == fs0[f],
                forall|f: int|
                    #![trigger self.functions@[f]]
                    0 <= f < func_idx ==> {
                        let of = fs0[f];
                        let nf = self.functions@[f];
                        &&& nf.name == of.name
                        &&& nf.def_position == of.def_position
                        &&& nf.frame_size == of.frame_size
                        &&& nf.return_type == of.return_type
                        &&& nf.local_map == of.local_map
                        &&& nf.params == of.params
                        &&& nodes_v(nf.stmts@) == sem_stmts(nodes_v(of.stmts@), table_view(of.local_map@), sigs).0
                    },
                self.errors@ == old(self).errors@ + sema_errors(fs0, sigs, func_idx as int),
            decreases functions_number - func_idx,
        {
            self.var_map = table_duplicate(&self.functions[func_idx].local_map);
            let mut stmts: Vec<Node> = Vec::new();
            std::mem::swap(&mut stmts, &mut self.functions[func_idx].stmts);
            proof {
                assert(sigs_of(self.functions@) =~= sigs);
            }
            let ghost before = self.errors@;
            let ghost k0 = func_idx as int;
            assert(stmts@ == fs0[k0].stmts@);
            assert(table_view(self.var_map@) == table_view(fs0[k0].local_map@));
            let walked = self.walk_function(stmts);
            assert(self.errors@ =~= before + self.errors@.skip(before.len() as int));
            let mut put_back = walked;
            std::mem::swap(&mut put_back, &mut self.functions[func_idx].stmts);
            self.var_map.clear();
            proof {
                assert(sigs_of(self.functions@) =~= sigs);
                let k = func_idx as int;
                assert(sema_errors(fs0, sigs, k + 1) == sema_errors(fs0, sigs, k) + sem_stmts(
                    nodes_v(fs0[k].stmts@),
                    table_view(fs0[k].local_map@),
                    sigs,
                ).1);
                assert(self.errors@ =~= old(self).errors@ + sema_errors(fs0, sigs, k + 1));
            }
            func_idx = func_idx + 1;
        }
    }

    /// Types a function's statements in order (see `sem_stmts`).
    pub fn walk_function(&mut self, stmts: Vec<Node>) -> (r: Vec<Node>)
        ensures
            sem_stmts(nodes_v(stmts@), table_view(old(self).var_map@), sigs_of(old(self).functions@)) == (
                nodes_v(r@),
                final(self).errors@.skip(old(self).errors@.len() as int),
            ),
            final(self).errors@.take(old(self).errors@.len() as int) == old(self).errors@,
            final(self).errors@.len() >= old(self).errors@.len(),
            sema_frame(*old(self), *final(self)),
            final(self).functions == old(self).functions,
            final(self).var_map == old(self).var_map,
    {
        let ghost orig = stmts@;
        let ghost vars = table_view(self.var_map@);
        let ghost sigs = sigs_of(self.functions@);
        let ghost e0 = self.errors@;
        let mut rest = stmts;
        let mut statements: Vec<Node> = Vec::new();
        let n = rest.len();
        let mut i: usize = 0;
        while i < n
            invariant
                n == orig.len(),
                0 <= i <= n,
                rest@ == orig.skip(i as int),
                vars == table_view(self.var_map@),
                sigs == sigs_of(self.functions@),
                e0 == old(self).errors@,
                sema_frame(*old(self), *self),
                self.functions == old(self).functions,
                self.var_map == old(self).var_map,
                self.errors@.take(e0.len() as int) == e0,
                self.errors@.len() >= e0.len(),
                sem_stmts(nodes_v(orig.take(i as int)), vars, sigs) == (nodes_v(statements@), self.errors@.skip(e0.len() as int)),
            decreases n - i,
        {
            assert(rest@[0] == orig[i as int]);
            let stmt = rest.remove(0);
            let ghost sv = node_v(stmt);
            let ghost before_errs = self.errors@;
            let walked = self.walk_statement(stmt);
            proof {
                lemma_nodes_v_push(statements@, walked);
                assert(orig.take(i + 1) =~= orig.take(i as int).push(orig[i as int]));
                lemma_nodes_v_push(orig.take(i as int), orig[i as int]);
                assert(nodes_v(orig.take(i + 1)).drop_last() == nodes_v(orig.take(i as int)));
                assert(self.errors@.skip(e0.len() as int) =~= before_errs.skip(e0.len() as int) + self.errors@.skip(
                    before_errs.len() as int,
                ));
                assert(self.errors@.take(e0.len() as int) =~= e0);
            }
            statements.push(walked);
            proof {
                assert(rest@ =~= orig.skip(i + 1));
            }
            i = i + 1;
        }
        assert(orig.take(n as int) =~= orig);
        statements
    }

    /// Types a statement (see `sem_stmt`).
    #[verifier::spinoff_prover]
    #[verifier::rlimit(80)]
    pub fn walk_statement(&mut self, stmt: Node) -> (r: Node)
        ensures
            sem_stmt(node_v(stmt), table_view(old(self).var_map@), sigs_of(old(self).functions@)) == (
                node_v(r),
                final(self).errors@.skip(old(self).errors@.len() as int),
            ),
            final(self).errors@.take(old(self).errors@.len() as int) == old(self).errors@,
            final(self).errors@.len() >= old(self).errors@.len(),
            sema_frame(*old(self), *final(self)),
            final(self).functions == old(self).functions,
            final(self).var_map == old(self).var_map,
        decreases stmt, 1int,
    {
        let ghost sv = node_v(stmt);
        let ghost e0 = self.errors@;
        let Node { position, kind, ctype } = stmt;
        match kind {
            NodeKind::RETURNSTMT(return_expr) => {
                let (e, _t) = self.walk_expression(*return_expr);
                Node { position, kind: NodeKind::RETURNSTMT(Box::new(e)), ctype }
            },
            NodeKind::LABELEDSTMT(label_name, any_stmt) => {
                let s = self.walk_statement(*any_stmt);
                Node { position, kind: NodeKind::LABELEDSTMT(label_name, Box::new(s)), ctype }
            },
            NodeKind::COMPOUNDSTMT(stmts) => {
                let ghost orig = stmts@;
                let walked = self.walk_compound(stmts);
                Node { position, kind: NodeKind::COMPOUNDSTMT(walked), ctype }
            },
            NodeKind::EXPRSTMT(expr) => {
                let (e, _t) = self.walk_expression(*expr);
                Node { position, kind: NodeKind::EXPRSTMT(Box::new(e)), ctype }
            },
            NodeKind::IFSTMT(expr, any_stmt) => {
                let (e, _t) = self.walk_expression(*expr);
                let ghost mid = self.errors@;
                let s = self.walk_statement(*any_stmt);
                proof {
                    assert(self.errors@.skip(e0.len() as int) =~= mid.skip(e0.len() as int) + self.errors@.skip(mid.len() as int));
                    assert(self.errors@.take(e0.len() as int) =~= e0);
                }
                Node { position, kind: NodeKind::IFSTMT(Box::new(e), Box::new(s)), ctype }
            },
            NodeKind::WHILESTMT(expr, any_stmt) => {
                let (e, _t) = self.walk_expression(*expr);
                let ghost mid = self.errors@;
                let s = self.walk_statement(*any_stmt);
                proof {
                    assert(self.errors@.skip(e0.len() as int) =~= mid.skip(e0.len() as int) + self.errors@.skip(mid.len() as int));
                    assert(self.errors@.take(e0.len() as int) =~= e0);
                }
                Node { position, kind: NodeKind::WHILESTMT(Box::new(e), Box::new(s)), ctype }
            },
            NodeKind::DOWHILESTMT(any_stmt, expr) => {
                let s = self.walk_statement(*any_stmt);
                let ghost mid = self.errors@;
                let (e, _t) = self.walk_expression(*expr);
                proof {
                    assert(self.errors@.skip(e0.len() as int) =~= mid.skip(e0.len() as int) + self.errors@.skip(mid.len() as int));
                    assert(self.errors@.take(e0.len() as int) =~= e0);
                }
                Node { position, kind: NodeKind::DOWHILESTMT(Box::new(s), Box::new(e)), ctype }
            },
            NodeKind::FORSTMT(cl, ex, ex2, any_stmt) => {
                let (a, _t1) = self.walk_expression(*cl);
                let ghost m1 = self.errors@;
                let (b, _t2) = self.walk_expression(*ex);
                let ghost m2 = self.errors@;
                let (c, _t3) = self.walk_expression(*ex2);
                let ghost m3 = self.errors@;
                let s = self.walk_statement(*any_stmt);
                proof {
                    assert(self.errors@.skip(e0.len() as int) =~= m1.skip(e0.len() as int) + m2.skip(m1.len() as int) + m3.skip(
                        m2.len() as int,
                    ) + self.errors@.skip(m3.len() as int));
                    assert(self.errors@.take(e0.len() as int) =~= e0);
                }
                Node { position, kind: NodeKind::FORSTMT(Box::new(a), Box::new(b), Box::new(c), Box::new(s)), ctype }
            },
            NodeKind::IFELSESTMT(expr, any_stmt, alt) => {
                let (e, _t) = self.walk_expression(*expr);
                let ghost m1 = self.errors@;
                let s = self.walk_statement(*any_stmt);
                let ghost m2 = self.errors@;
                let a = self.walk_statement(*alt);
                proof {
                    assert(self.errors@.skip(e0.len() as int) =~= m1.skip(e0.len() as int) + m2.skip(m1.len() as int) + self.errors@.skip(
                        m2.len() as int,
                    ));
                    assert(self.errors@.take(e0.len() as int) =~= e0);
                }
                Node { position, kind: NodeKind::IFELSESTMT(Box::new(e), Box::new(s), Box::new(a)), ctype }
            },
            NodeKind::GOTOSTMT(label_name) => Node { position, kind: NodeKind::GOTOSTMT(label_name), ctype },
            NodeKind::DECLARATION(name, ty) => Node { position, kind: NodeKind::DECLARATION(name, ty), ctype },
            other => {
                self.output_invalid_node_type_error(position);
                proof {
                    assert(self.errors@.skip(e0.len() as int) =~= seq![type_error(ErrorMsg::InvalidNodeCantHaveType, position)]);
                    assert(self.errors@.take(e0.len() as int) =~= e0);
                }
                Node { position, kind: other, ctype }
            },
        }
    }

    /// Types the statements of a compound statement in order.
    pub fn walk_compound(&mut self, stmts: Vec<Node>) -> (r: Vec<Node>)
        ensures
            sem_stmts(nodes_v(stmts@), table_view(old(self).var_map@), sigs_of(old(self).functions@)) == (
                nodes_v(r@),
                final(self).errors@.skip(old(self).errors@.len() as int),
            ),
            final(self).errors@.take(old(self).errors@.len() as int) == old(self).errors@,
            final(self).errors@.len() >= old(self).errors@.len(),
            sema_frame(*old(self), *final(self)),
            final(self).functions == old(self).functions,
            final(self).var_map == old(self).var_map,
        decreases stmts, 0int,
    {
        let ghost orig = stmts@;
        let ghost vars = table_view(self.var_map@);
        let ghost sigs = sigs_of(self.functions@);
        let ghost e0 = self.errors@;
        let mut rest = stmts;
        let mut out: Vec<Node> = Vec::new();
        let n = rest.len();
        let mut i: usize = 0;
        while i < n
            invariant
                n == orig.len(),
                orig == stmts@,
                0 <= i <= n,
                rest@ == orig.skip(i as int),
                vars == table_view(self.var_map@),
                sigs == sigs_of(self.functions@),
                e0 == old(self).errors@,
                sema_frame(*old(self), *self),
                self.functions == old(self).functions,
                self.var_map == old(self).var_map,
                self.errors@.take(e0.len() as int) == e0,
                self.errors@.len() >= e0.len(),
                sem_stmts(nodes_v(orig.take(i as int)), vars, sigs) == (nodes_v(out@), self.errors@.skip(e0.len() as int)),
            decreases n - i,
        {
            assert(rest@[0] == orig[i as int]);
            let stmt = rest.remove(0);
            let ghost before_errs = self.errors@;
            assert(decreases_to!(stmts => stmt)) by {
                assert(stmts@[i as int] == stmt);
            }
            let walked = self.walk_statement(stmt);
            proof {
                lemma_nodes_v_push(out@, walked);
                assert(orig.take(i + 1) =~= orig.take(i as int).push(orig[i as int]));
                lemma_nodes_v_push(orig.take(i as int), orig[i as int]);
                assert(nodes_v(orig.take(i + 1)).drop_last() == nodes_v(orig.take(i as int)));
                assert(self.errors@.skip(e0.len() as int) =~= before_errs.skip(e0.len() as int) + self.errors@.skip(
                    before_errs.len() as int,
                ));
                assert(self.errors@.take(e0.len() as int) =~= e0);
            }
            out.push(walked);
            proof {
                assert(rest@ =~= orig.skip(i + 1));
            }
            i = i + 1;
        }
        assert(orig.take(n as int) =~= orig);
        out
    }

    /// Types an expression (see `sem_expr`): the expression with types
    /// filled in and its type.
    #[verifier::spinoff_prover]
    #[verifier::rlimit(80)]
    pub fn walk_expression(&mut self, n: Node) -> (r: (Node, Type))
        ensures
            sem_expr(node_v(n), table_view(old(self).var_map@), sigs_of(old(self).functions@)) == (
                node_v(r.0),
                r.1,
                final(self).errors@.skip(old(self).errors@.len() as int),
            ),
            final(self).errors@.take(old(self).errors@.len() as int) == old(self).errors@,
            final(self).errors@.len() >= old(self).errors@.len(),
            sema_frame(*old(self), *final(self)),
            final(self).functions == old(self).functions,
            final(self).var_map == old(self).var_map,
        decreases n,
    {
        let ghost e0 = self.errors@;
        let Node { position, kind, ctype } = n;
        match kind {
            NodeKind::CALL(ident, args) => {
                let name = ident.ident_name();
                assert(callee_name(node_v(*ident)) == name@);
                let t = self.find_return_type(name.as_str());
                assert(self.errors@ =~= e0 + Seq::<Error>::empty());
                (Node { position, kind: NodeKind::CALL(ident, args), ctype }, t)
            },
            NodeKind::INTEGER(val) => {
                let t = Type::new_integer();
                let ty = t.duplicate();
                (Node { position, kind: NodeKind::INTEGER(val), ctype: ty }, t)
            },
            NodeKind::IDENTIFIER(name) => {
                let t = match table_get_exec(&self.var_map, name.as_str()) {
                    Some(var) => var.ctype,
                    None => Type::new_unknown(),
                };
                (Node { position, kind: NodeKind::IDENTIFIER(name), ctype }, t)
            },
            NodeKind::ASSIGN(lv, rv) => {
                let (l2, left_type) = self.walk_expression(*lv);
                let ghost m1 = self.errors@;
                let (r2, right_type) = self.walk_expression(*rv);
                let ghost m2 = self.errors@;
                let left_pos = l2.position;
                let r = self.combine_types(position, ctype, NodeKind::ASSIGN(Box::new(l2), Box::new(r2)), left_pos, left_type, right_type);
                proof {
                    assert(m2.skip(e0.len() as int) =~= m1.skip(e0.len() as int) + m2.skip(m1.len() as int));
                    assert(self.errors@.skip(e0.len() as int) =~= m2.skip(e0.len() as int) + self.errors@.skip(m2.len() as int));
                    assert(self.errors@.take(e0.len() as int) =~= e0);
                }
                r
            },
            NodeKind::NEGATIVE(inner) => {
                let (i2, inner_type) = self.walk_expression(*inner);
                let ty = inner_type.duplicate();
                (Node { position, kind: NodeKind::NEGATIVE(Box::new(i2)), ctype: ty }, inner_type)
            },
            NodeKind::ADD(left, right) => {
                let (l2, left_type) = self.walk_expression(*left);
                let ghost m1 = self.errors@;
                let (r2, right_type) = self.walk_expression(*right);
                let ghost m2 = self.errors@;
                let left_pos = l2.position;
                let r = self.combine_types(position, ctype, NodeKind::ADD(Box::new(l2), Box::new(r2)), left_pos, left_type, right_type);
                proof {
                    assert(m2.skip(e0.len() as int) =~= m1.skip(e0.len() as int) + m2.skip(m1.len() as int));
                    assert(self.errors@.skip(e0.len() as int) =~= m2.skip(e0.len() as int) + self.errors@.skip(m2.len() as int));
                    assert(self.errors@.take(e0.len() as int) =~= e0);
                }
                r
            },
            NodeKind::SUB(left, right) => {
                let (l2, left_type) = self.walk_expression(*left);
                let ghost m1 = self.errors@;
                let (r2, right_type) = self.walk_expression(*right);
                let ghost m2 = self.errors@;
                let left_pos = l2.position;
                let r = self.combine_types(position, ctype, NodeKind::SUB(Box::new(l2), Box::new(r2)), left_pos, left_type, right_type);
                proof {
                    assert(m2.skip(e0.len() as int) =~= m1.skip(e0.len() as int) + m2.skip(m1.len() as int));
                    assert(self.errors@.skip(e0.len() as int) =~= m2.skip(e0.len() as int) + self.errors@.skip(m2.len() as int));
                    assert(self.errors@.take(e0.len() as int) =~= e0);
                }
                r
            },
            NodeKind::MUL(left, right) => {
                let (l2, left_type) = self.walk_expression(*left);
                let ghost m1 = self.errors@;
                let (r2, right_type) = self.walk_expression(*right);
                let ghost m2 = self.errors@;
                let left_pos = l2.position;
                let r = self.combine_types(position, ctype, NodeKind::MUL(Box::new(l2), Box::new(r2)), left_pos, left_type, right_type);
                proof {
                    assert(m2.skip(e0.len() as int) =~= m1.skip(e0.len() as int) + m2.skip(m1.len() as int));
                    assert(self.errors@.skip(e0.len() as int) =~= m2.skip(e0.len() as int) + self.errors@.skip(m2.len() as int));
                    assert(self.errors@.take(e0.len() as int) =~= e0);
                }
                r
            },
            NodeKind::DIV(left, right) => {
                let (l2, left_type) = self.walk_expression(*left);
                let ghost m1 = self.errors@;
                let (r2, right_type) = self.walk_expression(*right);
                let ghost m2 = self.errors@;
                let left_pos = l2.position;
                let r = self.combine_types(position, ctype, NodeKind::DIV(Box::new(l2), Box::new(r2)), left_pos, left_type, right_type);
                proof {
                    assert(m2.skip(e0.len() as int) =~= m1.skip(e0.len() as int) + m2.skip(m1.len() as int));
                    assert(self.errors@.skip(e0.len() as int) =~= m2.skip(e0.len() as int) + self.errors@.skip(m2.len() as int));
                    assert(self.errors@.take(e0.len() as int) =~= e0);
                }
                r
            },
            other => {
                self.output_invalid_node_type_error(position);
                proof {
                    assert(self.errors@.skip(e0.len() as int) =~= seq![type_error(ErrorMsg::InvalidNodeCantHaveType, position)]);
                    assert(self.errors@.take(e0.len() as int) =~= e0);
                }
                (Node { position, kind: other, ctype }, Type::new_unknown())
            },
        }
    }

    /// Finishes typing an assignment or a binary expression whose operands
    /// were typed `left_type` and `right_type` (see `sem_binary`).
    fn combine_types(
        &mut self,
        position: Position,
        ctype: Type,
        kind: NodeKind,
        left_pos: Position,
        left_type: Type,
        right_type: Type,
    ) -> (r: (Node, Type))
        ensures
            ({
                let k = node_v(Node { position, kind, ctype }).kind;
                if left_type == right_type {
                    &&& node_v(r.0) == NodeV { position, kind: k, ctype: left_type }
                    &&& r.1 == right_type
                    &&& final(self).errors@ == old(self).errors@
                } else {
                    &&& node_v(r.0) == NodeV { position, kind: k, ctype }
                    &&& r.1 == unknown()
                    &&& final(self).errors@ == old(self).errors@.push(
                        type_error(ErrorMsg::MustBeSameTypeInBinaryOperation, left_pos),
                    )
                }
            }),
            sema_frame(*old(self), *final(self)),
            final(self).functions == old(self).functions,
            final(self).var_map == old(self).var_map,
    {
        if left_type.same_type(&right_type) {
            (Node { position, kind, ctype: left_type }, right_type)
        } else {
            self.output_type_difference_error(left_pos);
            (Node { position, kind, ctype }, Type::new_unknown())
        }
    }

    /// The return type of the first function named `name`; the unknown
    /// type when there is none.
    pub fn find_return_type(&mut self, name: &str) -> (t: Type)
        ensures
            t == (match sig_lookup(sigs_of(old(self).functions@), name@) {
                Some(t) => t,
                None => unknown(),
            }),
            *final(self) == *old(self),
    {
        let ghost sigs = sigs_of(self.functions@);
        let mut i: usize = 0;
        assert(sigs.skip(0) =~= sigs);
        while i < self.functions.len()
            invariant
                0 <= i <= self.functions@.len(),
                *self == *old(self),
                sigs == sigs_of(self.functions@),
                sig_lookup(sigs, name@) == sig_lookup(sigs.skip(i as int), name@),
            decreases self.functions@.len() - i,
        {
            assert(sigs.skip(i as int).drop_first() =~= sigs.skip(i + 1));
            if crate::text::str_eq(self.functions[i].name.as_str(), name) {
                return self.functions[i].return_type.duplicate();
            }
            i = i + 1;
        }
        Type::new_unknown()
    }

    /// Reports that the operands of a binary expression differ in type.
    pub fn output_type_difference_error(&mut self, position: Position)
        ensures
            final(self).errors@ == old(self).errors@.push(type_error(ErrorMsg::MustBeSameTypeInBinaryOperation, position)),
            sema_frame(*old(self), *final(self)),
            final(self).functions == old(self).functions,
            final(self).var_map == old(self).var_map,
    {
        let err = Error::new(ErrorKind::Type, position, ErrorMsg::MustBeSameTypeInBinaryOperation);
        self.errors.push(err);
    }

    /// Reports a node that cannot have a type.
    pub fn output_invalid_node_type_error(&mut self, position: Position)
        ensures
            final(self).errors@ == old(self).errors@.push(type_error(ErrorMsg::InvalidNodeCantHaveType, position)),
            sema_frame(*old(self), *final(self)),
            final(self).functions == old(self).functions,
            final(self).var_map == old(self).var_map,
    {
        let err = Error::new(ErrorKind::Type, position, ErrorMsg::InvalidNodeCantHaveType);
        self.errors.push(err);
    }
}

} // verus!
