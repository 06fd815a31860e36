use vstd::prelude::*;

use crate::compiler::frontend::manager::Manager;
use crate::compiler::frontend::node::{lemma_nodes_v_len, node_v, nodes_v, Function, Node, NodeKind, NodeKindV, NodeV};
use crate::compiler::frontend::types::Type;
use crate::compiler::frontend::variable::{
    lemma_view_get_at, lemma_view_insert_at, sort_by_name, table_duplicate, table_find, table_sorted_by_name, table_view, view_get, view_insert, VarKind,
    Variable,
};

verus! {

/// The parameters with stack offsets given in the order they are listed, each the running
/// sum of the sizes so far, starting after `off`; and the final sum.
pub open spec fn assign_params(ps: Seq<(Seq<char>, Variable)>, off: int) -> (Seq<(Seq<char>, Variable)>, int)
    decreases ps.len(),
{
    if ps.len() == 0 {
        (ps, off)
    } else {
        let off2 = off + ps[0].1.ctype.byte_size;
        let (rest, total) = assign_params(ps.drop_first(), off2);
        (seq![(ps[0].0, Variable { kind: VarKind::LOCAL(off2 as usize), ctype: ps[0].1.ctype })] + rest, total)
    }
}

/// The declaration a statement makes: a declaration, or a labeled one.
pub open spec fn decl_of(n: NodeV) -> Option<(Seq<char>, Type)> {
    match n.kind {
        NodeKindV::Declaration(name, ty) => Some((name, ty)),
        NodeKindV::Labeled(_, inner) => match inner.kind {
            NodeKindV::Declaration(name, ty) => Some((name, ty)),
            _ => None,
        },
        _ => None,
    }
}

/// The locals with stack offsets given in the order of the declarations
/// among `stmts`, each the running sum of the declared sizes so far,
/// starting after `off`; and the final sum. A declaration of a name not in
/// the table takes no room.
pub open spec fn assign_locals(stmts: Seq<NodeV>, vars: Seq<(Seq<char>, Variable)>, off: int) -> (Seq<(Seq<char>, Variable)>, int)
    decreases stmts.len(),
{
    if stmts.len() == 0 {
        (vars, off)
    } else {
        let (vars2, off2) = match decl_of(stmts[0]) {
            Some((name, ty)) => match view_get(vars, name) {
                Some(v) => {
                    let o = off + ty.byte_size;
                    (view_insert(vars, name, Variable { kind: VarKind::LOCAL(o as usize), ctype: v.ctype }), o)
                },
                None => (vars, off),
            },
            None => (vars, off),
        };
        assign_locals(stmts.drop_first(), vars2, off2)
    }
}

/// Running sums of sizes never go down.
pub proof fn lemma_assign_params_grows(ps: Seq<(Seq<char>, Variable)>, off: int)
    ensures
        assign_params(ps, off).1 >= off,
        assign_params(ps, off).0.len() == ps.len(),
    decreases ps.len(),
{
    if ps.len() > 0 {
        lemma_assign_params_grows(ps.drop_first(), off + ps[0].1.ctype.byte_size);
    }
}

/// Running sums of sizes never go down.
pub proof fn lemma_assign_locals_grows(stmts: Seq<NodeV>, vars: Seq<(Seq<char>, Variable)>, off: int)
    ensures
        assign_locals(stmts, vars, off).1 >= off,
    decreases stmts.len(),
{
    if stmts.len() > 0 {
        let (vars2, off2) = match decl_of(stmts[0]) {
            Some((name, ty)) => match view_get(vars, name) {
                Some(v) => {
                    let o = off + ty.byte_size;
                    (view_insert(vars, name, Variable { kind: VarKind::LOCAL(o as usize), ctype: v.ctype }), o)
                },
                None => (vars, off),
            },
            None => (vars, off),
        };
        lemma_assign_locals_grows(stmts.drop_first(), vars2, off2);
    }
}

/// The frame of a function fits `usize`: its parameters' and declared
/// locals' sizes add up to at most `usize::MAX`.
pub open spec fn frame_fits(f: Function) -> bool {
    let (_, p) = assign_params(sort_by_name(table_view(f.params@)), 0);
    assign_locals(nodes_v(f.stmts@), table_view(f.local_map@), p).1 <= usize::MAX
}

/// `after` is `before` with its frame laid out: parameters in name order,
/// then locals in declaration order, get stack offsets, and the frame size
/// is the total.
pub open spec fn frame_allocated(before: Function, after: Function) -> bool {
    let (ps, p) = assign_params(sort_by_name(table_view(before.params@)), 0);
    let (ls, total) = assign_locals(nodes_v(before.stmts@), table_view(before.local_map@), p);
    &&& after.name == before.name
    &&& after.def_position == before.def_position
    &&& after.stmts == before.stmts
    &&& after.return_type == before.return_type
    &&& table_view(after.params@) == ps
    &&& table_view(after.local_map@) == ls
    &&& after.frame_size == total
}

/// The declaration a node makes, read off the node itself.
pub proof fn lemma_decl_of(n: Node)
    ensures
        decl_of(node_v(n)) == (match n.kind {
            NodeKind::DECLARATION(name, ty) => Some((name@, ty)),
            NodeKind::LABELEDSTMT(_, inner) => match inner.kind {
                NodeKind::DECLARATION(name, ty) => Some((name@, ty)),
                _ => None,
            },
            _ => None,
        }),
{
    match n.kind {
        NodeKind::LABELEDSTMT(l, inner) => {
            assert(node_v(n).kind == NodeKindV::Labeled(l@, Box::new(node_v(*inner))));
            assert(node_v(*inner).kind == node_v(*inner).kind);
        },
        _ => {},
    }
}

/// Whether the frame of `func` fits `usize` (see `frame_fits`).
pub fn frame_fits_of(func: &Function) -> (b: bool)
    ensures
        b == frame_fits(*func),
{
    let params = table_sorted_by_name(&func.params);
    let ghost ps0 = table_view(params@);
    let ghost vs0 = table_view(func.local_map@);
    let ghost stmts_v = nodes_v(func.stmts@);
    proof {
        lemma_nodes_v_len(func.stmts@);
        assert(ps0.skip(0) =~= ps0);
    }
    let mut acc: usize = 0;
    let mut i: usize = 0;
    while i < params.len()
        invariant
            0 <= i <= params@.len(),
            ps0 == table_view(params@),
            ps0 == sort_by_name(table_view(func.params@)),
            vs0 == table_view(func.local_map@),
            stmts_v == nodes_v(func.stmts@),
            ps0.len() == params@.len(),
            assign_params(ps0, 0).1 == assign_params(ps0.skip(i as int), acc as int).1,
        decreases params@.len() - i,
    {
        let ghost s = ps0.skip(i as int);
        proof {
            assert(s[0] == ps0[i as int]);
            assert(s.drop_first() =~= ps0.skip(i + 1));
            assert(ps0[i as int].1 == params@[i as int].1);
        }
        let size = params[i].1.ctype.byte_size;
        if size > usize::MAX - acc {
            proof {
                lemma_assign_params_grows(ps0.skip(i + 1), acc + size);
                assert(assign_params(s, acc as int).1 == assign_params(s.drop_first(), acc + size).1);
                lemma_assign_locals_grows(stmts_v, vs0, assign_params(ps0, 0).1);
                assert(ps0 == sort_by_name(table_view(func.params@)));
            }
            return false;
        }
        acc = acc + size;
        i = i + 1;
    }
    proof {
        assert(ps0.skip(i as int) =~= Seq::empty());
        assert(stmts_v.skip(0) =~= stmts_v);
    }
    let ghost p = acc as int;
    let mut vars = table_duplicate(&func.local_map);
    let mut k: usize = 0;
    while k < func.stmts.len()
        invariant
            0 <= k <= func.stmts@.len(),
            stmts_v == nodes_v(func.stmts@),
            stmts_v.len() == func.stmts@.len(),
            forall|j: int| 0 <= j < func.stmts@.len() ==> #[trigger] stmts_v[j] == node_v(func.stmts@[j]),
            p == assign_params(ps0, 0).1,
            ps0 == sort_by_name(table_view(func.params@)),
            vs0 == table_view(func.local_map@),
            assign_locals(stmts_v, vs0, p).1 == assign_locals(stmts_v.skip(k as int), table_view(vars@), acc as int).1,
        decreases func.stmts@.len() - k,
    {
        let ghost tv = table_view(vars@);
        let ghost off = acc as int;
        proof {
            let s = stmts_v.skip(k as int);
            assert(s[0] == stmts_v[k as int]);
            assert(s.drop_first() =~= stmts_v.skip(k + 1));
        }
        let decl: Option<(&String, &Type)> = match &func.stmts[k].kind {
            NodeKind::DECLARATION(var_name, var_type) => Some((var_name, var_type)),
            NodeKind::LABELEDSTMT(_label, inner_st) => match &inner_st.kind {
                NodeKind::DECLARATION(var_name, var_type) => Some((var_name, var_type)),
                _ => None,
            },
            _ => None,
        };
        proof {
            lemma_decl_of(func.stmts@[k as int]);
            assert(decl_of(stmts_v[k as int]) == match decl {
                Some((n, t)) => Some((n@, *t)),
                None => None,
            });
        }
        if let Some((var_name, var_type)) = decl {
            match table_find(&vars, var_name.as_str()) {
                Some(idx) => {
                    proof {
                        assert forall|j: int| 0 <= j < idx implies (#[trigger] tv[j]).0 != var_name@ by {
                            assert(tv[j].0 == vars@[j].0@);
                        }
                        lemma_view_get_at(tv, var_name@, idx as int);
                        lemma_assign_locals_grows(
                            stmts_v.skip(k + 1),
                            view_insert(
                                tv,
                                var_name@,
                                Variable { kind: VarKind::LOCAL((off + var_type.byte_size) as usize), ctype: tv[idx as int].1.ctype },
                            ),
                            off + var_type.byte_size,
                        );
                    }
                    if var_type.byte_size > usize::MAX - acc {
                        proof {
                            assert(ps0 == sort_by_name(table_view(func.params@)));
                            assert(assign_locals(stmts_v, vs0, p).1 >= off + var_type.byte_size);
                        }
                        return false;
                    }
                    acc = acc + var_type.byte_size;
                    let name = vars[idx].0.clone();
                    let var = Variable { kind: VarKind::LOCAL(acc), ctype: vars[idx].1.ctype.duplicate() };
                    vars.set(idx, (name, var));
                    proof {
                        lemma_view_insert_at(tv, var_name@, var, idx as int);
                        assert(table_view(vars@) =~= tv.update(idx as int, (var_name@, var)));
                    }
                },
                None => {
                    proof {
                        assert forall|j: int| 0 <= j < tv.len() implies (#[trigger] tv[j]).0 != var_name@ by {
                            assert(tv[j].0 == vars@[j].0@);
                        }
                        crate::compiler::frontend::variable::lemma_view_get_none(tv, var_name@);
                    }
                },
            }
        }
        k = k + 1;
    }
    proof {
        assert(stmts_v.skip(k as int) =~= Seq::empty());
    }
    true
}

impl Manager {
    /// Whether the frame of every function fits `usize` (see `frame_fits`),
    /// as laying out the frames needs.
    pub fn frames_fit(&self) -> (b: bool)
        ensures
            b == forall|f: int| 0 <= f < self.functions@.len() ==> #[trigger] frame_fits(self.functions@[f]),
    {
        let mut f: usize = 0;
        while f < self.functions.len()
            invariant
                0 <= f <= self.functions@.len(),
                forall|g: int| 0 <= g < f ==> #[trigger] frame_fits(self.functions@[g]),
            decreases self.functions@.len() - f,
        {
            if !frame_fits_of(&self.functions[f]) {
                return false;
            }
            f = f + 1;
        }
        true
    }
}

impl Manager {
    /// Lays out the frame of every function (see `frame_allocated`).
    pub fn alloc_frame(&mut self)
        requires
            forall|f: int| 0 <= f < old(self).functions@.len() ==> #[trigger] frame_fits(old(self).functions@[f]),
        ensures
            final(self).functions@.len() == old(self).functions@.len(),
            forall|f: int|
                0 <= f < old(self).functions@.len() ==> #[trigger] frame_allocated(
                    old(self).functions@[f],
                    final(self).functions@[f],
                ),
            final(self).tokens == old(self).tokens,
            final(self).ir_funcs == old(self).ir_funcs,
            final(self).errors == old(self).errors,
            old(self).functions@.len() > 0 ==> final(self).var_map@.len() == 0 && final(self).params@.len() == 0,
            old(self).functions@.len() == 0 ==> final(self).var_map == old(self).var_map && final(self).params
                == old(self).params,
            final(self).src_file == old(self).src_file,
            final(self).cur_token == old(self).cur_token,
            final(self).next_token == old(self).next_token,
            final(self).cur_bb == old(self).cur_bb,
            final(self).virt == old(self).virt,
            final(self).label == old(self).label,
    {
        let ghost fs0 = self.functions@;
        let functions_number = self.functions.len();
        let mut func_idx: usize = 0;
        while func_idx < functions_number
            invariant
                functions_number == fs0.len(),
                fs0 == old(self).functions@,
                self.functions@.len() == functions_number,
                0 <= func_idx <= functions_number,
                forall|f: int| 0 <= f < functions_number ==> #[trigger] frame_fits(fs0[f]),
                forall|f: int| func_idx <= f < functions_number ==> #[trigger] self.functions@[f] == fs0[f],
                forall|f: int| 0 <= f < func_idx ==> #[trigger] frame_allocated(fs0[f], self.functions@[f]),
                self.tokens == old(self).tokens,
                self.ir_funcs == old(self).ir_funcs,
                self.errors == old(self).errors,
                func_idx > 0 ==> self.var_map@.len() == 0 && self.params@.len() == 0,
                func_idx == 0 ==> self.var_map == old(self).var_map && self.params == old(self).params,
                self.src_file == old(self).src_file,
                self.cur_token == old(self).cur_token,
                self.next_token == old(self).next_token,
                self.cur_bb == old(self).cur_bb,
                self.virt == old(self).virt,
                self.label == old(self).label,
            decreases functions_number - func_idx,
        {
            self.var_map = table_duplicate(&self.functions[func_idx].local_map);
            self.params = table_duplicate(&self.functions[func_idx].params);
            let mut func = Function::init(String::new(), (0, 0), Type::new_unknown());
            std::mem::swap(&mut func, &mut self.functions[func_idx]);
            let ghost before = func;
            assert(before == fs0[func_idx as int]);
            assert(frame_fits(before));
            assert(table_view(self.var_map@) == table_view(before.local_map@));
            assert(table_view(self.params@) == table_view(before.params@));
            self.alloc_frame_for_function(&mut func);
            func.local_map = table_duplicate(&self.var_map);
            func.params = table_duplicate(&self.params);
            std::mem::swap(&mut func, &mut self.functions[func_idx]);
            self.var_map.clear();
            self.params.clear();
            func_idx = func_idx + 1;
        }
    }

    /// Lays out one function's frame from the parameter and local tables:
    /// the parameters in name order (see `sort_by_name` and `assign_params`),
    /// then the locals (see `assign_locals`); the frame size is the total.
    pub fn alloc_frame_for_function(&mut self, func: &mut Function)
        requires
            assign_locals(
                nodes_v(old(func).stmts@),
                table_view(old(self).var_map@),
                assign_params(sort_by_name(table_view(old(self).params@)), 0).1,
            ).1 <= usize::MAX,
        ensures
            ({
                let (ps, p) = assign_params(sort_by_name(table_view(old(self).params@)), 0);
                let (ls, total) = assign_locals(nodes_v(old(func).stmts@), table_view(old(self).var_map@), p);
                &&& table_view(final(self).params@) == ps
                &&& table_view(final(self).var_map@) == ls
                &&& final(func).frame_size == total
            }),
            final(func).name == old(func).name,
            final(func).def_position == old(func).def_position,
            final(func).stmts == old(func).stmts,
            final(func).return_type == old(func).return_type,
            final(func).local_map == old(func).local_map,
            final(func).params == old(func).params,
            final(self).tokens == old(self).tokens,
            final(self).functions == old(self).functions,
            final(self).ir_funcs == old(self).ir_funcs,
            final(self).errors == old(self).errors,
            final(self).src_file == old(self).src_file,
            final(self).cur_token == old(self).cur_token,
            final(self).next_token == old(self).next_token,
            final(self).cur_bb == old(self).cur_bb,
            final(self).virt == old(self).virt,
            final(self).label == old(self).label,
    {
        self.params = table_sorted_by_name(&self.params);
        let ghost ps0 = table_view(self.params@);
        let ghost vs0 = table_view(self.var_map@);
        let ghost stmts_v = nodes_v(func.stmts@);
        proof {
            lemma_assign_params_grows(ps0, 0);
            lemma_nodes_v_len(func.stmts@);
        }
        let mut stack_offset: usize = 0;
        let mut i: usize = 0;
        proof {
            lemma_assign_locals_grows(stmts_v, vs0, assign_params(ps0, 0).1);
            assert(ps0.skip(0) =~= ps0);
            assert(table_view(self.params@).take(0) + assign_params(ps0, 0).0 =~= assign_params(ps0, 0).0);
        }
        while i < self.params.len()
            invariant
                0 <= i <= self.params@.len(),
                self.params@.len() == ps0.len(),
                ({
                    let (rest, total) = assign_params(ps0.skip(i as int), stack_offset as int);
                    &&& assign_params(ps0, 0) == (table_view(self.params@).take(i as int) + rest, total)
                    &&& table_view(self.params@).skip(i as int) == ps0.skip(i as int)
                }),
                assign_params(ps0, 0).1 <= usize::MAX,
                self.var_map == old(self).var_map,
                self.tokens == old(self).tokens,
                self.functions == old(self).functions,
                self.ir_funcs == old(self).ir_funcs,
                self.errors == old(self).errors,
                self.src_file == old(self).src_file,
                self.cur_token == old(self).cur_token,
                self.next_token == old(self).next_token,
                self.cur_bb == old(self).cur_bb,
                self.virt == old(self).virt,
                self.label == old(self).label,
            decreases self.params@.len() - i,
        {
            proof {
                let s = ps0.skip(i as int);
                assert(s[0] == ps0[i as int]);
                assert(s.drop_first() =~= ps0.skip(i + 1));
                lemma_assign_params_grows(ps0.skip(i + 1), stack_offset + ps0[i as int].1.ctype.byte_size);
                assert(table_view(self.params@)[i as int] == ps0[i as int]);
            }
            let ghost old_params = table_view(self.params@);
            stack_offset = stack_offset + self.params[i].1.ctype.byte_size;
            let name = self.params[i].0.clone();
            let var = Variable { kind: VarKind::LOCAL(stack_offset), ctype: self.params[i].1.ctype.duplicate() };
            self.params.set(i, (name, var));
            proof {
                assert(table_view(self.params@) =~= old_params.update(i as int, (ps0[i as int].0, var)));
                assert(table_view(self.params@).take(i + 1) =~= old_params.take(i as int).push((ps0[i as int].0, var)));
                assert(table_view(self.params@).skip(i + 1) =~= ps0.skip(i + 1));
                let (rest, total) = assign_params(ps0.skip(i + 1), stack_offset as int);
                assert(old_params.take(i as int) + (seq![(ps0[i as int].0, var)] + rest) =~= table_view(self.params@).take(i + 1) + rest);
            }
            i = i + 1;
        }
        proof {
            assert(table_view(self.params@).take(i as int) =~= table_view(self.params@));
            assert(ps0.skip(i as int) =~= Seq::empty());
        }
        let ghost p = stack_offset as int;
        let mut k: usize = 0;
        proof {
            assert(stmts_v.skip(0) =~= stmts_v);
        }
        while k < func.stmts.len()
            invariant
                0 <= k <= func.stmts@.len(),
                stmts_v == nodes_v(func.stmts@),
                stmts_v.len() == func.stmts@.len(),
                forall|j: int| 0 <= j < func.stmts@.len() ==> #[trigger] stmts_v[j] == node_v(func.stmts@[j]),
                func == old(func),
                assign_locals(stmts_v, vs0, p) == assign_locals(stmts_v.skip(k as int), table_view(self.var_map@), stack_offset as int),
                assign_locals(stmts_v, vs0, p).1 <= usize::MAX,
                table_view(self.params@) == assign_params(ps0, 0).0,
                self.tokens == old(self).tokens,
                self.functions == old(self).functions,
                self.ir_funcs == old(self).ir_funcs,
                self.errors == old(self).errors,
                self.src_file == old(self).src_file,
                self.cur_token == old(self).cur_token,
                self.next_token == old(self).next_token,
                self.cur_bb == old(self).cur_bb,
                self.virt == old(self).virt,
                self.label == old(self).label,
            decreases func.stmts@.len() - k,
        {
            let ghost vars = table_view(self.var_map@);
            let ghost off = stack_offset as int;
            proof {
                let s = stmts_v.skip(k as int);
                assert(s[0] == stmts_v[k as int]);
                assert(s.drop_first() =~= stmts_v.skip(k + 1));
            }
            let decl: Option<(&String, &Type)> = match &func.stmts[k].kind {
                NodeKind::DECLARATION(var_name, var_type) => Some((var_name, var_type)),
                NodeKind::LABELEDSTMT(_label, inner_st) => match &inner_st.kind {
                    NodeKind::DECLARATION(var_name, var_type) => Some((var_name, var_type)),
                    _ => None,
                },
                _ => None,
            };
            proof {
                lemma_decl_of(func.stmts@[k as int]);
                assert(decl_of(stmts_v[k as int]) == match decl {
                    Some((n, t)) => Some((n@, *t)),
                    None => None,
                });
            }
            if let Some((var_name, var_type)) = decl {
                match table_find(&self.var_map, var_name.as_str()) {
                    Some(idx) => {
                        proof {
                            assert forall|j: int| 0 <= j < idx implies (#[trigger] vars[j]).0 != var_name@ by {
                                assert(vars[j].0 == self.var_map@[j].0@);
                            }
                            lemma_view_get_at(vars, var_name@, idx as int);
                            lemma_assign_locals_grows(
                                stmts_v.skip(k + 1),
                                view_insert(
                                    vars,
                                    var_name@,
                                    Variable { kind: VarKind::LOCAL((off + var_type.byte_size) as usize), ctype: vars[idx as int].1.ctype },
                                ),
                                off + var_type.byte_size,
                            );
                        }
                        stack_offset = stack_offset + var_type.byte_size;
                        let name = self.var_map[idx].0.clone();
                        let var = Variable { kind: VarKind::LOCAL(stack_offset), ctype: self.var_map[idx].1.ctype.duplicate() };
                        self.var_map.set(idx, (name, var));
                        proof {
                            lemma_view_insert_at(vars, var_name@, var, idx as int);
                            assert(table_view(self.var_map@) =~= vars.update(idx as int, (var_name@, var)));
                        }
                    },
                    None => {
                        proof {
                            assert forall|j: int| 0 <= j < vars.len() implies (#[trigger] vars[j]).0 != var_name@ by {
                                assert(vars[j].0 == self.var_map@[j].0@);
                            }
                            crate::compiler::frontend::variable::lemma_view_get_none(vars, var_name@);
                        }
                    },
                }
            }
            k = k + 1;
        }
        proof {
            assert(stmts_v.skip(k as int) =~= Seq::empty());
        }
        func.frame_size = stack_offset;
    }
}

} // verus!
