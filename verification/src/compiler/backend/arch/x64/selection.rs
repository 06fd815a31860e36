use vstd::prelude::*;

use crate::compiler::backend::arch::x64::optimizer::X64Optimizer;
use crate::compiler::ir::arch::x64::basicblock::X64BasicBlock;
use crate::compiler::ir::arch::x64::function::X64Function;
use crate::compiler::ir::arch::x64::ir::X64IR;
use crate::compiler::ir::arch::x64::ir_kind::{encoding_fits, ir_numbers, ir_op, ir_operands, ir_target, X64IRKind, X64OpeKind, X64Operand};

verus! {

/// The operand is a register, an integer literal or a stack variable.
pub open spec fn reg_imm_or_var(op: X64Operand) -> bool {
    op.kind is REG || op.kind is INTLIT || op.kind is AUTOVAR
}

/// A concrete encoding exists for the instruction's operands.
pub open spec fn selectable(ir: X64IR) -> bool {
    match ir.kind {
        X64IRKind::MOV(_, src) => reg_imm_or_var(src),
        X64IRKind::ADD(dst, src) => (dst.kind is REG ==> src.kind is REG || src.kind is INTLIT) && (dst.kind is AUTOVAR
            ==> src.kind is INTLIT),
        X64IRKind::SUB(dst, src) => (dst.kind is REG ==> src.kind is REG || src.kind is INTLIT) && (dst.kind is AUTOVAR
            ==> src.kind is INTLIT),
        X64IRKind::MUL(_, src) => src.kind is REG || src.kind is INTLIT,
        X64IRKind::DIV(_, src) => src.kind is REG || src.kind is INTLIT,
        X64IRKind::NEGATIVE(inner) => inner.kind is REG,
        X64IRKind::RET(op) => !(op.kind is INVALID),
        X64IRKind::STORE(_, src) => reg_imm_or_var(src),
        X64IRKind::CMPZERO(op) => reg_imm_or_var(op),
        X64IRKind::GENPARAM(_, op) => op.kind is INTLIT,
        _ => true,
    }
}

/// The concrete instruction chosen for `ir` by the kinds of its operands;
/// instructions without a choice to make stay as they are.
pub open spec fn selected(ir: X64IR) -> X64IR {
    let kind = match ir.kind {
        X64IRKind::MOV(dst, src) => match src.kind {
            X64OpeKind::REG => X64IRKind::MOVREGTOREG(dst, src),
            X64OpeKind::INTLIT(_) => X64IRKind::MOVIMMTOREG(dst, src),
            _ => X64IRKind::MOVMEMTOREG(dst, src),
        },
        X64IRKind::ADD(dst, src) => match dst.kind {
            X64OpeKind::REG => if src.kind is REG {
                X64IRKind::ADDREGTOREG(dst, src)
            } else {
                X64IRKind::ADDIMMTOREG(dst, src)
            },
            X64OpeKind::AUTOVAR(_, _) => X64IRKind::ADDIMMTOVAR(dst, src),
            _ => ir.kind,
        },
        X64IRKind::SUB(dst, src) => match dst.kind {
            X64OpeKind::REG => if src.kind is REG {
                X64IRKind::SUBREGTOREG(dst, src)
            } else {
                X64IRKind::SUBIMMTOREG(dst, src)
            },
            X64OpeKind::AUTOVAR(_, _) => X64IRKind::SUBIMMTOVAR(dst, src),
            _ => ir.kind,
        },
        X64IRKind::MUL(dst, src) => if src.kind is REG {
            X64IRKind::MULREGTOREG(dst, src)
        } else {
            X64IRKind::MULIMMTOREG(dst, src)
        },
        X64IRKind::DIV(dst, src) => if src.kind is REG {
            X64IRKind::DIVREGTOREG(dst, src)
        } else {
            X64IRKind::DIVIMMTOREG(dst, src)
        },
        X64IRKind::NEGATIVE(inner) => X64IRKind::NEGREG(inner),
        X64IRKind::RET(op) => match op.kind {
            X64OpeKind::REG => X64IRKind::RETREG(op),
            X64OpeKind::INTLIT(_) => X64IRKind::RETIMM(op),
            X64OpeKind::AUTOVAR(_, _) => X64IRKind::RETMEM(op),
            _ => X64IRKind::RETCALL(op),
        },
        X64IRKind::STORE(dst, src) => match src.kind {
            X64OpeKind::REG => X64IRKind::STOREREG(dst, src),
            X64OpeKind::INTLIT(_) => X64IRKind::STOREIMM(dst, src),
            _ => X64IRKind::STOREMEM(dst, src),
        },
        X64IRKind::CMPZERO(op) => match op.kind {
            X64OpeKind::REG => X64IRKind::CMPZEROREG(op),
            X64OpeKind::INTLIT(_) => X64IRKind::CMPZEROIMM(op),
            _ => X64IRKind::CMPZEROMEM(op),
        },
        X64IRKind::GENPARAM(n, op) => X64IRKind::GENPARAMIMM(n, op),
        _ => ir.kind,
    };
    X64IR { kind }
}

/// Every instruction of the block has an encoding.
pub open spec fn block_selectable(b: X64BasicBlock) -> bool {
    forall|k: int| 0 <= k < b.irs@.len() ==> #[trigger] selectable(b.irs@[k])
}

/// `after` is `before` with each instruction's encoding chosen.
pub open spec fn block_selected(before: X64BasicBlock, after: X64BasicBlock) -> bool {
    &&& after.label == before.label
    &&& after.irs@.len() == before.irs@.len()
    &&& forall|k: int| 0 <= k < before.irs@.len() ==> #[trigger] after.irs@[k] == selected(before.irs@[k])
}

impl X64Optimizer {
    /// Chooses the encoding of every instruction of every function (see
    /// `selected`).
    pub fn select_best_instruction(&mut self)
        requires
            forall|f: int, b: int|
                0 <= f < old(self).functions@.len() && 0 <= b < old(self).functions@[f].blocks@.len()
                    ==> #[trigger] block_selectable(old(self).functions@[f].blocks@[b]),
        ensures
            final(self).functions@.len() == old(self).functions@.len(),
            forall|f: int|
                #![trigger final(self).functions@[f]]
                0 <= f < old(self).functions@.len() ==> {
                    &&& final(self).functions@[f].func_name == old(self).functions@[f].func_name
                    &&& final(self).functions@[f].frame_size == old(self).functions@[f].frame_size
                    &&& final(self).functions@[f].blocks@.len() == old(self).functions@[f].blocks@.len()
                    &&& forall|b: int|
                        0 <= b < old(self).functions@[f].blocks@.len() ==> #[trigger] block_selected(
                            old(self).functions@[f].blocks@[b],
                            final(self).functions@[f].blocks@[b],
                        )
                },
    {
        let ghost start = self.functions@;
        let function_number = self.functions.len();
        let mut func_idx: usize = 0;
        while func_idx < function_number
            invariant
                function_number == start.len(),
                self.functions@.len() == function_number,
                0 <= func_idx <= function_number,
                forall|f: int, b: int|
                    0 <= f < start.len() && 0 <= b < start[f].blocks@.len() ==> #[trigger] block_selectable(
                        start[f].blocks@[b],
                    ),
                forall|f: int| func_idx <= f < function_number ==> #[trigger] self.functions@[f] == start[f],
                forall|f: int|
                    #![trigger self.functions@[f]]
                    0 <= f < func_idx ==> {
                        &&& self.functions@[f].func_name == start[f].func_name
                        &&& self.functions@[f].frame_size == start[f].frame_size
                        &&& self.functions@[f].blocks@.len() == start[f].blocks@.len()
                        &&& forall|b: int|
                            0 <= b < start[f].blocks@.len() ==> #[trigger] block_selected(
                                start[f].blocks@[b],
                                self.functions@[f].blocks@[b],
                            )
                    },
            decreases function_number - func_idx,
        {
            let mut func = X64Function::new(String::new(), Vec::new(), 0);
            std::mem::swap(&mut func, &mut self.functions[func_idx]);
            let ghost orig = func.blocks@;
            let mut blocks: Vec<X64BasicBlock> = Vec::new();
            std::mem::swap(&mut blocks, &mut func.blocks);
            let mut selected_blocks: Vec<X64BasicBlock> = Vec::new();
            let ghost fs_mid = self.functions@;
            let n = blocks.len();
            let mut i: usize = 0;
            while i < n
                invariant
                    n == orig.len(),
                    self.functions@ == fs_mid,
                    0 <= func_idx < start.len(),
                    orig == start[func_idx as int].blocks@,
                    0 <= i <= n,
                    blocks@ == orig.skip(i as int),
                    selected_blocks@.len() == i,
                    forall|b: int| 0 <= b < orig.len() ==> #[trigger] block_selectable(orig[b]),
                    forall|b: int| 0 <= b < i ==> #[trigger] block_selected(orig[b], selected_blocks@[b]),
                decreases n - i,
            {
                assert(blocks@[0] == orig[i as int]);
                let block = blocks.remove(0);
                let selected_block = self.change_ir_with_bb(block);
                selected_blocks.push(selected_block);
                proof {
                    assert(blocks@ =~= orig.skip(i + 1));
                }
                i = i + 1;
            }
            func.blocks = selected_blocks;
            std::mem::swap(&mut func, &mut self.functions[func_idx]);
            func_idx = func_idx + 1;
        }
    }

    /// Chooses the encoding of every instruction of one block (see `selected`).
    pub fn change_ir_with_bb(&mut self, block: X64BasicBlock) -> (r: X64BasicBlock)
        requires
            block_selectable(block),
        ensures
            *final(self) == *old(self),
            block_selected(block, r),
    {
        let mut block = block;
        let ghost before = block;
        let mut irs: Vec<X64IR> = Vec::new();
        std::mem::swap(&mut irs, &mut block.irs);
        let mut out: Vec<X64IR> = Vec::new();
        let n = irs.len();
        let mut i: usize = 0;
        while i < n
            invariant
                n == before.irs@.len(),
                irs@ == before.irs@,
                0 <= i <= n,
                out@.len() == i,
                block_selectable(before),
                forall|k: int| 0 <= k < i ==> #[trigger] out@[k] == selected(before.irs@[k]),
            decreases n - i,
        {
            assert(selectable(irs@[i as int]));
            let ir = &irs[i];
            let kind = match &ir.kind {
                X64IRKind::MOV(dst, src) => match &src.kind {
                    X64OpeKind::REG => X64IRKind::MOVREGTOREG(dst.duplicate(), src.duplicate()),
                    X64OpeKind::INTLIT(_value) => X64IRKind::MOVIMMTOREG(dst.duplicate(), src.duplicate()),
                    _ => X64IRKind::MOVMEMTOREG(dst.duplicate(), src.duplicate()),
                },
                X64IRKind::ADD(dst, src) => match &dst.kind {
                    X64OpeKind::REG => match &src.kind {
                        X64OpeKind::REG => X64IRKind::ADDREGTOREG(dst.duplicate(), src.duplicate()),
                        _ => X64IRKind::ADDIMMTOREG(dst.duplicate(), src.duplicate()),
                    },
                    X64OpeKind::AUTOVAR(_name, _offset) => X64IRKind::ADDIMMTOVAR(dst.duplicate(), src.duplicate()),
                    _ => X64IRKind::ADD(dst.duplicate(), src.duplicate()),
                },
                X64IRKind::SUB(dst, src) => match &dst.kind {
                    X64OpeKind::REG => match &src.kind {
                        X64OpeKind::REG => X64IRKind::SUBREGTOREG(dst.duplicate(), src.duplicate()),
                        _ => X64IRKind::SUBIMMTOREG(dst.duplicate(), src.duplicate()),
                    },
                    X64OpeKind::AUTOVAR(_name, _offset) => X64IRKind::SUBIMMTOVAR(dst.duplicate(), src.duplicate()),
                    _ => X64IRKind::SUB(dst.duplicate(), src.duplicate()),
                },
                X64IRKind::MUL(dst, src) => match &src.kind {
                    X64OpeKind::REG => X64IRKind::MULREGTOREG(dst.duplicate(), src.duplicate()),
                    _ => X64IRKind::MULIMMTOREG(dst.duplicate(), src.duplicate()),
                },
                X64IRKind::DIV(dst, src) => match &src.kind {
                    X64OpeKind::REG => X64IRKind::DIVREGTOREG(dst.duplicate(), src.duplicate()),
                    _ => X64IRKind::DIVIMMTOREG(dst.duplicate(), src.duplicate()),
                },
                X64IRKind::NEGATIVE(inner_op) => X64IRKind::NEGREG(inner_op.duplicate()),
                X64IRKind::RET(return_op) => match &return_op.kind {
                    X64OpeKind::REG => X64IRKind::RETREG(return_op.duplicate()),
                    X64OpeKind::INTLIT(_value) => X64IRKind::RETIMM(return_op.duplicate()),
                    X64OpeKind::AUTOVAR(_name, _offset) => X64IRKind::RETMEM(return_op.duplicate()),
                    _ => X64IRKind::RETCALL(return_op.duplicate()),
                },
                X64IRKind::STORE(dst_op, src_op) => match &src_op.kind {
                    X64OpeKind::REG => X64IRKind::STOREREG(dst_op.duplicate(), src_op.duplicate()),
                    X64OpeKind::INTLIT(_value) => X64IRKind::STOREIMM(dst_op.duplicate(), src_op.duplicate()),
                    _ => X64IRKind::STOREMEM(dst_op.duplicate(), src_op.duplicate()),
                },
                X64IRKind::CMPZERO(tested_op) => match &tested_op.kind {
                    X64OpeKind::REG => X64IRKind::CMPZEROREG(tested_op.duplicate()),
                    X64OpeKind::INTLIT(_value) => X64IRKind::CMPZEROIMM(tested_op.duplicate()),
                    _ => X64IRKind::CMPZEROMEM(tested_op.duplicate()),
                },
                X64IRKind::GENPARAM(reg_num, gen_op) => X64IRKind::GENPARAMIMM(*reg_num, gen_op.duplicate()),
                _ => ir.duplicate().kind,
            };
            out.push(X64IR { kind });
            i = i + 1;
        }
        block.irs = out;
        block
    }
}

/// Selection keeps what an instruction does: the encoding chosen for an
/// instruction that has one performs the same operation on the same
/// operands, jumps to the same label and names the same argument register
/// and offset; and its operands have the kinds the encoding's name says
/// (an instruction that needs no choice keeps what it has).
pub proof fn lemma_selection_keeps_operation(ir: X64IR)
    requires
        selectable(ir),
    ensures
        ir_op(selected(ir).kind) == ir_op(ir.kind),
        ir_operands(selected(ir).kind) == ir_operands(ir.kind),
        ir_target(selected(ir).kind) == ir_target(ir.kind),
        ir_numbers(selected(ir).kind) == ir_numbers(ir.kind),
        encoding_fits(ir.kind) ==> encoding_fits(selected(ir).kind),
{
}

/// A selected block does, instruction by instruction, what the block it was
/// selected from does.
pub proof fn lemma_block_selection_keeps_operations(before: X64BasicBlock, after: X64BasicBlock)
    requires
        block_selectable(before),
        block_selected(before, after),
    ensures
        after.irs@.len() == before.irs@.len(),
        forall|k: int|
            0 <= k < before.irs@.len() ==> ir_op((#[trigger] after.irs@[k]).kind) == ir_op(before.irs@[k].kind)
                && ir_operands(after.irs@[k].kind) == ir_operands(before.irs@[k].kind) && ir_target(after.irs@[k].kind)
                == ir_target(before.irs@[k].kind) && (encoding_fits(before.irs@[k].kind) ==> encoding_fits(after.irs@[k].kind)),
{
    assert forall|k: int| 0 <= k < before.irs@.len() implies ir_op((#[trigger] after.irs@[k]).kind) == ir_op(
        before.irs@[k].kind,
    ) && ir_operands(after.irs@[k].kind) == ir_operands(before.irs@[k].kind) && ir_target(after.irs@[k].kind) == ir_target(
        before.irs@[k].kind,
    ) && (encoding_fits(before.irs@[k].kind) ==> encoding_fits(after.irs@[k].kind)) by {
        assert(selectable(before.irs@[k]));
        lemma_selection_keeps_operation(before.irs@[k]);
    }
}

} // verus!
