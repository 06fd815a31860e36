pub mod generate;
pub mod optimizer;
pub mod selection;
pub mod translate;

use vstd::prelude::*;

use crate::compiler::backend::arch::x64::generate::at_and_t::{
    att_emittable, block_att_emittable, function_att_emittable, functions_att,
};
use crate::compiler::backend::arch::x64::generate::intel::{
    block_emittable, emittable, function_emittable, functions_intel, global_directives,
};
use crate::compiler::backend::arch::x64::optimizer::X64Optimizer;
use crate::compiler::backend::arch::x64::selection::{block_selectable, block_selected, selectable, selected};
use crate::compiler::backend::arch::x64::translate::{
    block_translatable, block_translated, function_translatable, function_translated, translatable, translated_tac, translated_tacs,
};
use crate::compiler::backend::high_optimizer::HighOptimizer;
use crate::compiler::ir::arch::x64::function::X64Function;
use crate::compiler::ir::arch::x64::basicblock::X64BasicBlock;
use crate::compiler::ir::arch::x64::ir::X64IR;
use crate::compiler::ir::arch::x64::ir_kind::{X64IRKind, X64OpeKind};
use crate::compiler::ir::three_address_code::tac_kind::{OpeKind, TacKind};
use crate::compiler::ir::three_address_code::function::IRFunction;
use crate::compiler::ir::three_address_code::tac::ThreeAddressCode;

verus! {

/// The instruction has an encoding that can be printed in the chosen syntax.
pub open spec fn ir_ready(ir: X64IR, atandt: bool) -> bool {
    &&& selectable(ir)
    &&& if atandt {
        att_emittable(selected(ir))
    } else {
        emittable(selected(ir))
    }
}

/// The instruction translates and every instruction it becomes has an
/// encoding that can be printed in the chosen syntax.
pub open spec fn lowerable(t: ThreeAddressCode, atandt: bool) -> bool {
    &&& translatable(t)
    &&& forall|k: int| 0 <= k < translated_tac(t).len() ==> #[trigger] ir_ready(translated_tac(t)[k], atandt)
}

/// Every instruction of every function is lowerable and every frame size
/// can be rounded up within `usize`.
pub open spec fn functions_lowerable(fs: Seq<IRFunction>, atandt: bool) -> bool {
    &&& forall|f: int, b: int, k: int|
        0 <= f < fs.len() && 0 <= b < fs[f].blocks@.len() && 0 <= k < fs[f].blocks@[b].tacs@.len() ==> lowerable(
            #[trigger] fs[f].blocks@[b].tacs@[k],
            atandt,
        )
    &&& forall|f: int| 0 <= f < fs.len() ==> #[trigger] fs[f].frame_size + 7 <= usize::MAX
}

/// `xs` is the translation of `fs`, function by function.
pub open spec fn all_translated(fs: Seq<IRFunction>, xs: Seq<X64Function>) -> bool {
    &&& xs.len() == fs.len()
    &&& forall|f: int| 0 <= f < fs.len() ==> #[trigger] function_translated(fs[f], xs[f])
}

/// `ys` is `xs` with every instruction's encoding chosen.
pub open spec fn all_selected(xs: Seq<X64Function>, ys: Seq<X64Function>) -> bool {
    &&& ys.len() == xs.len()
    &&& forall|f: int|
        #![trigger ys[f]]
        0 <= f < xs.len() ==> {
            &&& ys[f].func_name == xs[f].func_name
            &&& ys[f].frame_size == xs[f].frame_size
            &&& ys[f].blocks@.len() == xs[f].blocks@.len()
            &&& forall|b: int| 0 <= b < xs[f].blocks@.len() ==> #[trigger] block_selected(xs[f].blocks@[b], ys[f].blocks@[b])
        }
}

/// The program text of `ys` in the chosen syntax.
pub open spec fn program_text(ys: Seq<X64Function>, atandt: bool) -> Seq<char> {
    if atandt {
        global_directives(ys, ys.len() as int) + functions_att(ys, ys.len() as int)
    } else {
        ".intel_syntax noprefix\n"@ + global_directives(ys, ys.len() as int) + functions_intel(ys, ys.len() as int)
    }
}

/// Each instruction a block becomes comes from one of its instructions.
pub proof fn lemma_translated_elem(tacs: Seq<ThreeAddressCode>, n: int, k: int) -> (jm: (int, int))
    requires
        0 <= n <= tacs.len(),
        0 <= k < translated_tacs(tacs, n).len(),
    ensures
        0 <= jm.0 < n,
        0 <= jm.1 < translated_tac(tacs[jm.0]).len(),
        translated_tacs(tacs, n)[k] == translated_tac(tacs[jm.0])[jm.1],
    decreases n,
{
    let prev = translated_tacs(tacs, n - 1);
    if k < prev.len() {
        lemma_translated_elem(tacs, n - 1, k)
    } else {
        (n - 1, k - prev.len())
    }
}

/// Compiles the functions to x86_64 assembly text in the chosen syntax:
/// translation, instruction selection, then printing (see `program_text`).
pub fn x64_process(atandt: bool, high_opt: &HighOptimizer) -> (out: String)
    requires
        functions_lowerable(high_opt.functions@, atandt),
    ensures
        exists|xs: Seq<X64Function>, ys: Seq<X64Function>|
            all_translated(high_opt.functions@, xs) && all_selected(xs, ys) && out@ == program_text(ys, atandt),
{
    let ghost fs = high_opt.functions@;
    proof {
        assert forall|f: int| 0 <= f < fs.len() implies #[trigger] function_translatable(fs[f]) by {
            assert forall|b: int| 0 <= b < fs[f].blocks@.len() implies #[trigger] block_translatable(fs[f].blocks@[b]) by {
                assert forall|k: int| 0 <= k < fs[f].blocks@[b].tacs@.len() implies #[trigger] translatable(
                    fs[f].blocks@[b].tacs@[k],
                ) by {
                    assert(lowerable(fs[f].blocks@[b].tacs@[k], atandt));
                }
            }
        }
    }
    let mut x64_optimizer = HighOptimizer::translate_tacs_to_x64(high_opt);
    let ghost xs = x64_optimizer.functions@;
    proof {
        assert forall|f: int, b: int, k: int|
            0 <= f < xs.len() && 0 <= b < xs[f].blocks@.len() && 0 <= k < xs[f].blocks@[b].irs@.len() implies ir_ready(
            #[trigger] xs[f].blocks@[b].irs@[k],
            atandt,
        ) by {
            let tacs = fs[f].blocks@[b].tacs@;
            assert(function_translated(fs[f], xs[f]));
            assert(block_translated(fs[f].blocks@[b], xs[f].blocks@[b]));
            let (j, m) = lemma_translated_elem(tacs, tacs.len() as int, k);
            assert(lowerable(fs[f].blocks@[b].tacs@[j], atandt));
            assert(ir_ready(translated_tac(tacs[j])[m], atandt));
        }
        assert forall|f: int, b: int| 0 <= f < xs.len() && 0 <= b < xs[f].blocks@.len() implies #[trigger] block_selectable(
            xs[f].blocks@[b],
        ) by {
            assert forall|k: int| 0 <= k < xs[f].blocks@[b].irs@.len() implies #[trigger] selectable(xs[f].blocks@[b].irs@[k]) by {
                assert(ir_ready(xs[f].blocks@[b].irs@[k], atandt));
            }
        }
    }
    x64_optimizer.select_best_instruction();
    let ghost ys = x64_optimizer.functions@;
    proof {
        assert(all_selected(xs, ys));
        if atandt {
            assert forall|f: int| 0 <= f < ys.len() implies #[trigger] function_att_emittable(ys[f]) by {
                assert(fs[f].frame_size + 7 <= usize::MAX);
                assert(function_translated(fs[f], xs[f]));
                assert forall|b: int| 0 <= b < ys[f].blocks@.len() implies #[trigger] block_att_emittable(ys[f].blocks@[b]) by {
                    assert(block_selected(xs[f].blocks@[b], ys[f].blocks@[b]));
                    assert forall|k: int| 0 <= k < ys[f].blocks@[b].irs@.len() implies #[trigger] att_emittable(
                        ys[f].blocks@[b].irs@[k],
                    ) by {
                        assert(ir_ready(xs[f].blocks@[b].irs@[k], atandt));
                    }
                }
            }
        } else {
            assert forall|f: int| 0 <= f < ys.len() implies #[trigger] function_emittable(ys[f]) by {
                assert(fs[f].frame_size + 7 <= usize::MAX);
                assert(function_translated(fs[f], xs[f]));
                assert forall|b: int| 0 <= b < ys[f].blocks@.len() implies #[trigger] block_emittable(ys[f].blocks@[b]) by {
                    assert(block_selected(xs[f].blocks@[b], ys[f].blocks@[b]));
                    assert forall|k: int| 0 <= k < ys[f].blocks@[b].irs@.len() implies #[trigger] emittable(
                        ys[f].blocks@[b].irs@[k],
                    ) by {
                        assert(ir_ready(xs[f].blocks@[b].irs@[k], atandt));
                    }
                }
            }
        }
    }
    let assembly = if atandt {
        x64_optimizer.generate_assembly_with_at_and_t_syntax()
    } else {
        x64_optimizer.generate_assembly_with_intel_syntax()
    };
    proof {
        assert(all_translated(fs, xs));
    }
    assembly
}

/// Whether the instruction has an encoding.
pub fn ir_is_selectable(ir: &X64IR) -> (b: bool)
    ensures
        b == selectable(*ir),
{
    match &ir.kind {
        X64IRKind::MOV(_, src) => is_reg_imm_or_var(&src.kind),
        X64IRKind::ADD(dst, src) | X64IRKind::SUB(dst, src) => match &dst.kind {
            X64OpeKind::REG => is_reg(&src.kind) || is_imm(&src.kind),
            X64OpeKind::AUTOVAR(_, _) => is_imm(&src.kind),
            _ => true,
        },
        X64IRKind::MUL(_, src) | X64IRKind::DIV(_, src) => is_reg(&src.kind) || is_imm(&src.kind),
        X64IRKind::NEGATIVE(inner) => is_reg(&inner.kind),
        X64IRKind::RET(op) => !matches!(op.kind, X64OpeKind::INVALID),
        X64IRKind::STORE(_, src) => is_reg_imm_or_var(&src.kind),
        X64IRKind::CMPZERO(op) => is_reg_imm_or_var(&op.kind),
        X64IRKind::GENPARAM(_, op) => is_imm(&op.kind),
        _ => true,
    }
}

/// Whether the operand kind is a register.
fn is_reg(k: &X64OpeKind) -> (b: bool)
    ensures
        b == (*k is REG),
{
    matches!(k, X64OpeKind::REG)
}

/// Whether the operand kind is an integer literal.
fn is_imm(k: &X64OpeKind) -> (b: bool)
    ensures
        b == (*k is INTLIT),
{
    matches!(k, X64OpeKind::INTLIT(_))
}

/// Whether the operand kind is a stack variable.
fn is_var(k: &X64OpeKind) -> (b: bool)
    ensures
        b == (*k is AUTOVAR),
{
    matches!(k, X64OpeKind::AUTOVAR(_, _))
}

/// Whether the operand kind is a register, a literal or a stack variable.
fn is_reg_imm_or_var(k: &X64OpeKind) -> (b: bool)
    ensures
        b == (*k is REG || *k is INTLIT || *k is AUTOVAR),
{
    is_reg(k) || is_imm(k) || is_var(k)
}

/// Whether the instruction can be printed in Intel syntax.
pub fn ir_is_emittable(ir: &X64IR) -> (b: bool)
    ensures
        b == emittable(*ir),
{
    match &ir.kind {
        X64IRKind::ADDIMMTOREG(_, i) | X64IRKind::MOVIMMTOREG(_, i) | X64IRKind::SUBIMMTOREG(_, i)
        | X64IRKind::MULIMMTOREG(_, i) | X64IRKind::DIVIMMTOREG(_, i) => is_imm(&i.kind),
        X64IRKind::MOVMEMTOREG(_, v) => is_var(&v.kind),
        X64IRKind::STOREREG(d, _) => is_var(&d.kind),
        X64IRKind::STOREIMM(d, s) => is_var(&d.kind) && is_imm(&s.kind),
        X64IRKind::STOREMEM(d, s) => is_var(&d.kind) && is_var(&s.kind),
        X64IRKind::RETIMM(o) => is_imm(&o.kind),
        X64IRKind::RETMEM(o) => is_var(&o.kind),
        X64IRKind::RETCALL(o) => is_var(&o.kind) || matches!(o.kind, X64OpeKind::CALL(_)),
        X64IRKind::CMPZEROMEM(o) => is_var(&o.kind),
        X64IRKind::GENPARAMIMM(_, o) => is_imm(&o.kind),
        _ => true,
    }
}

/// Whether the instruction can be printed in AT&T syntax.
pub fn ir_is_att_emittable(ir: &X64IR) -> (b: bool)
    ensures
        b == att_emittable(*ir),
{
    match &ir.kind {
        X64IRKind::ADDIMMTOREG(_, i) | X64IRKind::MOVIMMTOREG(_, i) | X64IRKind::SUBIMMTOREG(_, i)
        | X64IRKind::MULIMMTOREG(_, i) | X64IRKind::DIVIMMTOREG(_, i) => is_imm(&i.kind),
        X64IRKind::STOREREG(d, _) => is_var(&d.kind),
        X64IRKind::STOREIMM(d, s) => is_var(&d.kind) && is_imm(&s.kind),
        X64IRKind::RETIMM(o) => is_imm(&o.kind),
        X64IRKind::RETMEM(o) => is_var(&o.kind),
        _ => true,
    }
}

/// Whether the instruction has an encoding that can be printed in the
/// chosen syntax (see `ir_ready`).
pub fn ir_is_ready(ir: &X64IR, atandt: bool) -> (b: bool)
    ensures
        b == ir_ready(*ir, atandt),
{
    if !ir_is_selectable(ir) {
        return false;
    }
    let mut opt = X64Optimizer::new(Vec::new());
    let block = X64BasicBlock::new(String::new(), vec![ir.duplicate()]);
    let chosen = opt.change_ir_with_bb(block);
    let s = &chosen.irs[0];
    if atandt {
        ir_is_att_emittable(s)
    } else {
        ir_is_emittable(s)
    }
}

/// Whether the three-address instruction translates.
pub fn tac_is_translatable(t: &ThreeAddressCode) -> (b: bool)
    ensures
        b == translatable(*t),
{
    match &t.kind {
        TacKind::UNARYEXPR(_, op, _) => op.is_minus(),
        TacKind::EXPR(_, _, left, _) => !matches!(left.kind, OpeKind::INVALID),
        _ => true,
    }
}

/// Whether the three-address instruction is lowerable (see `lowerable`).
pub fn tac_is_lowerable(t: &ThreeAddressCode, atandt: bool) -> (b: bool)
    ensures
        b == lowerable(*t, atandt),
{
    if !tac_is_translatable(t) {
        return false;
    }
    let mut irs: Vec<X64IR> = Vec::new();
    HighOptimizer::translate_tac(&mut irs, t);
    assert(irs@ =~= translated_tac(*t));
    let mut k: usize = 0;
    while k < irs.len()
        invariant
            irs@ == translated_tac(*t),
            0 <= k <= irs@.len(),
            forall|j: int| 0 <= j < k ==> #[trigger] ir_ready(translated_tac(*t)[j], atandt),
        decreases irs@.len() - k,
    {
        if !ir_is_ready(&irs[k], atandt) {
            return false;
        }
        k = k + 1;
    }
    true
}

impl HighOptimizer {
    /// Whether every function can be compiled to x86_64 in the chosen
    /// syntax (see `functions_lowerable`).
    pub fn is_lowerable(&self, atandt: bool) -> (b: bool)
        ensures
            b == functions_lowerable(self.functions@, atandt),
    {
        let ghost fs = self.functions@;
        let mut f: usize = 0;
        while f < self.functions.len()
            invariant
                fs == self.functions@,
                0 <= f <= fs.len(),
                forall|g: int, b: int, k: int|
                    0 <= g < f && 0 <= b < fs[g].blocks@.len() && 0 <= k < fs[g].blocks@[b].tacs@.len() ==> lowerable(
                        #[trigger] fs[g].blocks@[b].tacs@[k],
                        atandt,
                    ),
                forall|g: int| 0 <= g < f ==> #[trigger] fs[g].frame_size + 7 <= usize::MAX,
            decreases fs.len() - f,
        {
            if self.functions[f].frame_size > usize::MAX - 7 {
                return false;
            }
            let mut b: usize = 0;
            while b < self.functions[f].blocks.len()
                invariant
                    fs == self.functions@,
                    0 <= f < fs.len(),
                    0 <= b <= fs[f as int].blocks@.len(),
                    forall|g: int, c: int, k: int|
                        0 <= g < f && 0 <= c < fs[g].blocks@.len() && 0 <= k < fs[g].blocks@[c].tacs@.len() ==> lowerable(
                            #[trigger] fs[g].blocks@[c].tacs@[k],
                            atandt,
                        ),
                    forall|c: int, k: int|
                        0 <= c < b && 0 <= k < fs[f as int].blocks@[c].tacs@.len() ==> lowerable(
                            #[trigger] fs[f as int].blocks@[c].tacs@[k],
                            atandt,
                        ),
                decreases fs[f as int].blocks@.len() - b,
            {
                let mut k: usize = 0;
                while k < self.functions[f].blocks[b].tacs.len()
                    invariant
                        fs == self.functions@,
                        0 <= f < fs.len(),
                        0 <= b < fs[f as int].blocks@.len(),
                        0 <= k <= fs[f as int].blocks@[b as int].tacs@.len(),
                        forall|j: int| 0 <= j < k ==> lowerable(#[trigger] fs[f as int].blocks@[b as int].tacs@[j], atandt),
                    decreases fs[f as int].blocks@[b as int].tacs@.len() - k,
                {
                    if !tac_is_lowerable(&self.functions[f].blocks[b].tacs[k], atandt) {
                        return false;
                    }
                    k = k + 1;
                }
                b = b + 1;
            }
            f = f + 1;
        }
        true
    }
}

} // verus!
