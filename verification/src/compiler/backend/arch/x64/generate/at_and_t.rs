use vstd::prelude::*;

use crate::compiler::backend::arch::x64::generate::intel::{
    frame_rounded, global_directives, imm_text, lemma_clear_low_bits, off_text, push_imm, push_ir_reg, push_name, push_off,
};
use crate::compiler::backend::arch::x64::generate::ir_reg_text;
use crate::compiler::backend::arch::x64::optimizer::X64Optimizer;
use crate::compiler::ir::arch::x64::basicblock::X64BasicBlock;
use crate::compiler::ir::arch::x64::function::X64Function;
use crate::compiler::ir::arch::x64::ir::X64IR;
use crate::compiler::ir::arch::x64::ir_kind::{encoding_fits, ir_op, ir_operands, ir_target, operand_name, X64IRKind, X64Op, X64Operand};
use crate::compiler::backend::arch::x64::generate::intel::{concrete, register_form, single_instruction};
use crate::fmt::{digits_of, push_usize};
use crate::text::{push_str, str_eq};

verus! {

/// Every operand the instruction's AT&T text reads has the kind that text
/// needs.
pub open spec fn att_emittable(ir: X64IR) -> bool {
    match ir.kind {
        X64IRKind::ADDIMMTOREG(_, i) => i.kind is INTLIT,
        X64IRKind::MOVIMMTOREG(_, i) => i.kind is INTLIT,
        X64IRKind::SUBIMMTOREG(_, i) => i.kind is INTLIT,
        X64IRKind::MULIMMTOREG(_, i) => i.kind is INTLIT,
        X64IRKind::DIVIMMTOREG(_, i) => i.kind is INTLIT,
        X64IRKind::STOREREG(d, _) => d.kind is AUTOVAR,
        X64IRKind::STOREIMM(d, s) => d.kind is AUTOVAR && s.kind is INTLIT,
        X64IRKind::RETIMM(o) => o.kind is INTLIT,
        X64IRKind::RETMEM(o) => o.kind is AUTOVAR,
        _ => true,
    }
}

/// The instructions that leave a function, in AT&T syntax.
pub open spec fn att_epilogue() -> Seq<char> {
    "  movq %rbp, %rsp\n"@ + "  pop %rbp\n"@ + "  ret"@
}

/// One instruction in AT&T syntax; instructions with no AT&T text give the
/// empty text. A return loads its value into rax, then leaves.
pub open spec fn att_text(ir: X64IR) -> Seq<char> {
    match ir.kind {
        X64IRKind::ADDREGTOREG(d, s) => "addq %"@ + ir_reg_text(s.phys) + ", %"@ + ir_reg_text(d.phys),
        X64IRKind::ADDIMMTOREG(d, i) => "addq $"@ + imm_text(i) + ", %"@ + ir_reg_text(d.phys),
        X64IRKind::MOVREGTOREG(d, s) => "movq %"@ + ir_reg_text(s.phys) + ", %"@ + ir_reg_text(d.phys),
        X64IRKind::MOVIMMTOREG(d, i) => "movq $"@ + imm_text(i) + ", %"@ + ir_reg_text(d.phys),
        X64IRKind::SUBREGTOREG(d, s) => "subq %"@ + ir_reg_text(s.phys) + ", %"@ + ir_reg_text(d.phys),
        X64IRKind::SUBIMMTOREG(d, i) => "subq $"@ + imm_text(i) + ", %"@ + ir_reg_text(d.phys),
        X64IRKind::MULREGTOREG(d, s) => "imulq %"@ + ir_reg_text(s.phys) + ", %"@ + ir_reg_text(d.phys),
        X64IRKind::MULIMMTOREG(d, i) => "imulq $"@ + imm_text(i) + ", %"@ + ir_reg_text(d.phys),
        X64IRKind::DIVREGTOREG(d, s) => "movq %"@ + ir_reg_text(d.phys) + ", %rax\n"@ + "  cltd\n"@ + "  idivq %"@
            + ir_reg_text(s.phys) + "\n"@ + "  movq %rax, %"@ + ir_reg_text(d.phys),
        X64IRKind::DIVIMMTOREG(d, i) => "movq %"@ + ir_reg_text(d.phys) + ", %rax\n"@ + "  movq $"@ + imm_text(i)
            + ", %rcx\n"@ + "  cltd\n"@ + "  idivq %rcx\n"@ + "  movq %rax, %"@ + ir_reg_text(d.phys),
        X64IRKind::STOREREG(d, s) => "movq %"@ + ir_reg_text(s.phys) + ", -"@ + off_text(d) + "(rbp) # "@ + operand_name(d),
        X64IRKind::STOREIMM(d, s) => "movq $"@ + imm_text(s) + ", -"@ + off_text(d) + "(%rbp) # "@ + operand_name(d),
        X64IRKind::NEGREG(i) => "negl %"@ + ir_reg_text(i.phys),
        X64IRKind::RETREG(o) => "movq %"@ + ir_reg_text(o.phys) + ", %rax\n"@ + att_epilogue(),
        X64IRKind::RETIMM(o) => "movq $"@ + imm_text(o) + ", %rax\n"@ + att_epilogue(),
        X64IRKind::RETMEM(o) => "movq -"@ + off_text(o) + "(%rbp), %rax # "@ + operand_name(o) + "\n"@ + att_epilogue(),
        X64IRKind::JMP(l) => "jmp "@ + l@,
        _ => Seq::empty(),
    }
}

/// The first `k` instructions, one per line, indented.
pub open spec fn irs_att(irs: Seq<X64IR>, k: int) -> Seq<char>
    decreases k,
{
    if k <= 0 {
        Seq::empty()
    } else {
        irs_att(irs, k - 1) + "  "@ + att_text(irs[k - 1]) + "\n"@
    }
}

/// A block in AT&T syntax: its label (but for the entry block) and its instructions.
pub open spec fn block_att(b: X64BasicBlock) -> Seq<char> {
    (if b.label@ == "entry"@ {
        Seq::empty()
    } else {
        b.label@ + ":\n"@
    }) + irs_att(b.irs@, b.irs@.len() as int)
}

/// The first `k` blocks in AT&T syntax.
pub open spec fn blocks_att(bs: Seq<X64BasicBlock>, k: int) -> Seq<char>
    decreases k,
{
    if k <= 0 {
        Seq::empty()
    } else {
        blocks_att(bs, k - 1) + block_att(bs[k - 1])
    }
}

/// A function in AT&T syntax: its label, the prologue that sets up the
/// frame, and its blocks.
pub open spec fn function_att(f: X64Function) -> Seq<char> {
    f.func_name@ + ":\n"@ + "  push %rbp\n"@ + "  movq %rsp, %rbp\n"@ + (if f.frame_size != 0 {
        "  subq $"@ + digits_of(frame_rounded(f.frame_size)) + ", %rsp\n"@
    } else {
        Seq::empty()
    }) + blocks_att(f.blocks@, f.blocks@.len() as int)
}

/// The first `k` functions in AT&T syntax.
pub open spec fn functions_att(fs: Seq<X64Function>, k: int) -> Seq<char>
    decreases k,
{
    if k <= 0 {
        Seq::empty()
    } else {
        functions_att(fs, k - 1) + function_att(fs[k - 1])
    }
}

/// Every instruction of the block can be printed in AT&T syntax.
pub open spec fn block_att_emittable(b: X64BasicBlock) -> bool {
    forall|k: int| 0 <= k < b.irs@.len() ==> #[trigger] att_emittable(b.irs@[k])
}

/// Every instruction of the function can be printed in AT&T syntax and its
/// frame size can be rounded up within `usize`.
pub open spec fn function_att_emittable(f: X64Function) -> bool {
    &&& f.frame_size + 7 <= usize::MAX
    &&& forall|b: int| 0 <= b < f.blocks@.len() ==> #[trigger] block_att_emittable(f.blocks@[b])
}

/// Every function can be printed in AT&T syntax.
pub open spec fn functions_att_emittable(fs: Seq<X64Function>) -> bool {
    forall|f: int| 0 <= f < fs.len() ==> #[trigger] function_att_emittable(fs[f])
}

impl X64Optimizer {
    /// The whole program in AT&T syntax: a `.global` directive per function,
    /// then each function.
    pub fn generate_assembly_with_at_and_t_syntax(&self) -> (out: String)
        requires
            functions_att_emittable(self.functions@),
        ensures
            out@ == global_directives(self.functions@, self.functions@.len() as int) + functions_att(
                self.functions@,
                self.functions@.len() as int,
            ),
    {
        let mut output = self.generate_directive();
        let ghost prefix = output@;
        let mut i: usize = 0;
        while i < self.functions.len()
            invariant
                0 <= i <= self.functions@.len(),
                functions_att_emittable(self.functions@),
                output@ == prefix + functions_att(self.functions@, i as int),
            decreases self.functions@.len() - i,
        {
            assert(function_att_emittable(self.functions@[i as int]));
            let code = self.functions[i].to_at_and_t_code();
            push_str(&mut output, code.as_str());
            proof {
                assert(output@ =~= prefix + functions_att(self.functions@, i + 1));
            }
            i = i + 1;
        }
        output
    }

    /// A `.global` directive per function.
    pub fn generate_directive(&self) -> (out: String)
        ensures
            out@ == global_directives(self.functions@, self.functions@.len() as int),
    {
        let mut output = String::new();
        let mut i: usize = 0;
        while i < self.functions.len()
            invariant
                0 <= i <= self.functions@.len(),
                output@ == global_directives(self.functions@, i as int),
            decreases self.functions@.len() - i,
        {
            push_str(&mut output, ".global ");
            push_str(&mut output, self.functions[i].func_name.as_str());
            push_str(&mut output, "\n");
            proof {
                assert(output@ =~= global_directives(self.functions@, i + 1));
            }
            i = i + 1;
        }
        output
    }
}

impl X64Function {
    /// The function in AT&T syntax (see `function_att`).
    pub fn to_at_and_t_code(&self) -> (out: String)
        requires
            function_att_emittable(*self),
        ensures
            out@ == function_att(*self),
    {
        let mut output = String::new();
        push_str(&mut output, self.func_name.as_str());
        push_str(&mut output, ":\n");
        push_str(&mut output, "  push %rbp\n");
        push_str(&mut output, "  movq %rsp, %rbp\n");
        if self.frame_size != 0 {
            let rounded = !7 & self.frame_size + 7;
            proof {
                lemma_clear_low_bits((self.frame_size + 7) as usize);
            }
            push_str(&mut output, "  subq $");
            push_usize(&mut output, rounded);
            push_str(&mut output, ", %rsp\n");
        }
        let ghost head = output@;
        proof {
            assert(head =~= function_att(*self).take(head.len() as int));
        }
        let mut i: usize = 0;
        while i < self.blocks.len()
            invariant
                0 <= i <= self.blocks@.len(),
                function_att_emittable(*self),
                output@ == head + blocks_att(self.blocks@, i as int),
            decreases self.blocks@.len() - i,
        {
            assert(block_att_emittable(self.blocks@[i as int]));
            let code = self.blocks[i].to_at_and_t_code();
            push_str(&mut output, code.as_str());
            proof {
                assert(output@ =~= head + blocks_att(self.blocks@, i + 1));
            }
            i = i + 1;
        }
        assert(output@ =~= function_att(*self));
        output
    }
}

impl X64BasicBlock {
    /// The block in AT&T syntax (see `block_att`).
    pub fn to_at_and_t_code(&self) -> (out: String)
        requires
            block_att_emittable(*self),
        ensures
            out@ == block_att(*self),
    {
        let mut output = String::new();
        if !str_eq(self.label.as_str(), "entry") {
            push_str(&mut output, self.label.as_str());
            push_str(&mut output, ":\n");
        }
        let ghost head = output@;
        let mut i: usize = 0;
        while i < self.irs.len()
            invariant
                0 <= i <= self.irs@.len(),
                block_att_emittable(*self),
                output@ == head + irs_att(self.irs@, i as int),
            decreases self.irs@.len() - i,
        {
            assert(att_emittable(self.irs@[i as int]));
            let code = self.irs[i].to_at_and_t_code();
            push_str(&mut output, "  ");
            push_str(&mut output, code.as_str());
            push_str(&mut output, "\n");
            proof {
                assert(output@ =~= head + irs_att(self.irs@, i + 1));
            }
            i = i + 1;
        }
        assert(output@ =~= block_att(*self));
        output
    }
}

impl X64IR {
    /// The instruction in AT&T syntax (see `att_text`).
    #[verifier::rlimit(50)]
    pub fn to_at_and_t_code(&self) -> (out: String)
        requires
            att_emittable(*self),
        ensures
            out@ == att_text(*self),
    {
        let mut s = String::new();
        match &self.kind {
            X64IRKind::ADDREGTOREG(dst, src) => {
                push_str(&mut s, "addq %");
                push_ir_reg(&mut s, src.phys);
                push_str(&mut s, ", %");
                push_ir_reg(&mut s, dst.phys);
            },
            X64IRKind::ADDIMMTOREG(dst, immediate) => {
                push_str(&mut s, "addq $");
                push_imm(&mut s, immediate);
                push_str(&mut s, ", %");
                push_ir_reg(&mut s, dst.phys);
            },
            X64IRKind::MOVREGTOREG(dst, src) => {
                push_str(&mut s, "movq %");
                push_ir_reg(&mut s, src.phys);
                push_str(&mut s, ", %");
                push_ir_reg(&mut s, dst.phys);
            },
            X64IRKind::MOVIMMTOREG(dst, immediate) => {
                push_str(&mut s, "movq $");
                push_imm(&mut s, immediate);
                push_str(&mut s, ", %");
                push_ir_reg(&mut s, dst.phys);
            },
            X64IRKind::SUBREGTOREG(dst, src) => {
                push_str(&mut s, "subq %");
                push_ir_reg(&mut s, src.phys);
                push_str(&mut s, ", %");
                push_ir_reg(&mut s, dst.phys);
            },
            X64IRKind::SUBIMMTOREG(dst, immediate) => {
                push_str(&mut s, "subq $");
                push_imm(&mut s, immediate);
                push_str(&mut s, ", %");
                push_ir_reg(&mut s, dst.phys);
            },
            X64IRKind::MULREGTOREG(dst, src) => {
                push_str(&mut s, "imulq %");
                push_ir_reg(&mut s, src.phys);
                push_str(&mut s, ", %");
                push_ir_reg(&mut s, dst.phys);
            },
            X64IRKind::MULIMMTOREG(dst, immediate) => {
                push_str(&mut s, "imulq $");
                push_imm(&mut s, immediate);
                push_str(&mut s, ", %");
                push_ir_reg(&mut s, dst.phys);
            },
            X64IRKind::DIVREGTOREG(dst, src) => {
                push_str(&mut s, "movq %");
                push_ir_reg(&mut s, dst.phys);
                push_str(&mut s, ", %rax\n");
                push_str(&mut s, "  cltd\n");
                push_str(&mut s, "  idivq %");
                push_ir_reg(&mut s, src.phys);
                push_str(&mut s, "\n");
                push_str(&mut s, "  movq %rax, %");
                push_ir_reg(&mut s, dst.phys);
            },
            X64IRKind::DIVIMMTOREG(dst, immediate) => {
                push_str(&mut s, "movq %");
                push_ir_reg(&mut s, dst.phys);
                push_str(&mut s, ", %rax\n");
                push_str(&mut s, "  movq $");
                push_imm(&mut s, immediate);
                push_str(&mut s, ", %rcx\n");
                push_str(&mut s, "  cltd\n");
                push_str(&mut s, "  idivq %rcx\n");
                push_str(&mut s, "  movq %rax, %");
                push_ir_reg(&mut s, dst.phys);
            },
            X64IRKind::STOREREG(dst, src) => {
                push_str(&mut s, "movq %");
                push_ir_reg(&mut s, src.phys);
                push_str(&mut s, ", -");
                push_off(&mut s, dst);
                push_str(&mut s, "(rbp) # ");
                push_name(&mut s, dst);
            },
            X64IRKind::STOREIMM(dst, src) => {
                push_str(&mut s, "movq $");
                push_imm(&mut s, src);
                push_str(&mut s, ", -");
                push_off(&mut s, dst);
                push_str(&mut s, "(%rbp) # ");
                push_name(&mut s, dst);
            },
            X64IRKind::NEGREG(inner_op) => {
                push_str(&mut s, "negl %");
                push_ir_reg(&mut s, inner_op.phys);
            },
            X64IRKind::RETREG(return_op) => {
                push_str(&mut s, "movq %");
                push_ir_reg(&mut s, return_op.phys);
                push_str(&mut s, ", %rax\n");
                push_att_epilogue(&mut s);
            },
            X64IRKind::RETIMM(return_op) => {
                push_str(&mut s, "movq $");
                push_imm(&mut s, return_op);
                push_str(&mut s, ", %rax\n");
                push_att_epilogue(&mut s);
            },
            X64IRKind::RETMEM(return_op) => {
                push_str(&mut s, "movq -");
                push_off(&mut s, return_op);
                push_str(&mut s, "(%rbp), %rax # ");
                push_name(&mut s, return_op);
                push_str(&mut s, "\n");
                push_att_epilogue(&mut s);
            },
            X64IRKind::JMP(label_name) => {
                push_str(&mut s, "jmp ");
                push_str(&mut s, label_name.as_str());
            },
            _ => {},
        }
        assert(s@ =~= att_text(*self));
        s
    }
}

/// Appends the instructions that leave a function, in AT&T syntax.
fn push_att_epilogue(s: &mut String)
    ensures
        final(s)@ == old(s)@ + att_epilogue(),
{
    push_str(s, "  movq %rbp, %rsp\n");
    push_str(s, "  pop %rbp\n");
    push_str(s, "  ret");
    assert(s@ =~= old(s)@ + att_epilogue());
}

/// The AT&T mnemonic of an operation, with the space that follows it.
pub open spec fn att_mnemonic(o: X64Op) -> Seq<char> {
    match o {
        X64Op::Add => "addq "@,
        X64Op::Sub => "subq "@,
        X64Op::Mul => "imulq "@,
        X64Op::Div => "idivq "@,
        X64Op::Negate => "negl "@,
        X64Op::Jump => "jmp "@,
        _ => "movq "@,
    }
}

/// A source operand in AT&T syntax: `%` and a register's name, or `$` and a
/// literal's value.
pub open spec fn att_source(s: X64Operand) -> Seq<char> {
    if s.kind is REG {
        "%"@ + ir_reg_text(s.phys)
    } else {
        "$"@ + imm_text(s)
    }
}

/// Each instruction is printed in AT&T syntax with the mnemonic of its
/// operation (`addq`, `subq`, `imulq`, `movq`), source first and destination
/// second; a jump as `jmp` and its label; a negation as `negl`; and a
/// return loads rax and ends with the epilogue.
pub proof fn lemma_att_mnemonics(ir: X64IR)
    requires
        encoding_fits(ir.kind),
    ensures
        register_form(ir.kind) ==> att_text(ir) == att_mnemonic(ir_op(ir.kind)) + att_source(ir_operands(ir.kind)[1]) + ", %"@
            + ir_reg_text(ir_operands(ir.kind)[0].phys),
        ir.kind is JMP ==> att_text(ir) == att_mnemonic(ir_op(ir.kind)) + ir_target(ir.kind)->0,
        ir.kind is NEGREG ==> att_text(ir) == att_mnemonic(ir_op(ir.kind)) + "%"@ + ir_reg_text(ir_operands(ir.kind)[0].phys),
        ir.kind is RETREG || ir.kind is RETIMM ==> att_text(ir) == "movq "@ + att_source(ir_operands(ir.kind)[0]) + ", %rax\n"@
            + att_epilogue(),
{
    reveal_strlit("addq ");
    reveal_strlit("addq %");
    reveal_strlit("addq $");
    reveal_strlit("subq ");
    reveal_strlit("subq %");
    reveal_strlit("subq $");
    reveal_strlit("imulq ");
    reveal_strlit("imulq %");
    reveal_strlit("imulq $");
    reveal_strlit("movq ");
    reveal_strlit("movq %");
    reveal_strlit("movq $");
    reveal_strlit("negl ");
    reveal_strlit("negl %");
    reveal_strlit("%");
    reveal_strlit("$");
    let t = att_text(ir);
    if register_form(ir.kind) {
        let ops = ir_operands(ir.kind);
        assert(t =~= att_mnemonic(ir_op(ir.kind)) + att_source(ops[1]) + ", %"@ + ir_reg_text(ops[0].phys));
    }
    if ir.kind is NEGREG {
        assert(t =~= att_mnemonic(ir_op(ir.kind)) + "%"@ + ir_reg_text(ir_operands(ir.kind)[0].phys));
    }
}

/// A division is printed in AT&T syntax as `idivq` of the divisor, with
/// the dividend copied from the destination into rax, sign-extended, and
/// the quotient copied back into the destination; a literal divisor goes
/// through rcx.
pub proof fn lemma_att_division(ir: X64IR)
    requires
        encoding_fits(ir.kind),
    ensures
        ir.kind is DIVREGTOREG ==> att_text(ir) == "movq %"@ + ir_reg_text(ir_operands(ir.kind)[0].phys) + ", %rax\n  cltd\n  "@
            + att_mnemonic(ir_op(ir.kind)) + att_source(ir_operands(ir.kind)[1]) + "\n  movq %rax, %"@ + ir_reg_text(
            ir_operands(ir.kind)[0].phys,
        ),
        ir.kind is DIVIMMTOREG ==> att_text(ir) == "movq %"@ + ir_reg_text(ir_operands(ir.kind)[0].phys) + ", %rax\n  "@
            + att_mnemonic(X64Op::Move) + att_source(ir_operands(ir.kind)[1]) + ", %rcx\n  cltd\n  "@ + att_mnemonic(
            ir_op(ir.kind),
        ) + "%rcx\n  movq %rax, %"@ + ir_reg_text(ir_operands(ir.kind)[0].phys),
{
    reveal_strlit(", %rax\n");
    reveal_strlit("  cltd\n");
    reveal_strlit("  idivq %");
    reveal_strlit("\n");
    reveal_strlit("  movq %rax, %");
    reveal_strlit(", %rax\n  cltd\n  ");
    reveal_strlit("idivq ");
    reveal_strlit("%");
    reveal_strlit("$");
    reveal_strlit("\n  movq %rax, %");
    reveal_strlit("  movq $");
    reveal_strlit(", %rcx\n");
    reveal_strlit("  idivq %rcx\n");
    reveal_strlit(", %rax\n  ");
    reveal_strlit("movq ");
    reveal_strlit(", %rcx\n  cltd\n  ");
    reveal_strlit("%rcx\n  movq %rax, %");
    let t = att_text(ir);
    let d = ir_reg_text(ir_operands(ir.kind)[0].phys);
    if ir.kind is DIVREGTOREG {
        assert(t =~= "movq %"@ + d + ", %rax\n  cltd\n  "@ + att_mnemonic(ir_op(ir.kind)) + att_source(ir_operands(ir.kind)[1])
            + "\n  movq %rax, %"@ + d);
    }
    if ir.kind is DIVIMMTOREG {
        assert(t =~= "movq %"@ + d + ", %rax\n  "@ + att_mnemonic(X64Op::Move) + att_source(ir_operands(ir.kind)[1])
            + ", %rcx\n  cltd\n  "@ + att_mnemonic(ir_op(ir.kind)) + "%rcx\n  movq %rax, %"@ + d);
    }
}

/// Every instruction printed in AT&T syntax that is not a division or a
/// return begins with the mnemonic of its operation, and every printed
/// return ends by leaving the function.
pub proof fn lemma_att_text_starts_with_mnemonic(ir: X64IR)
    requires
        concrete(ir.kind),
        att_text(ir).len() > 0,
    ensures
        single_instruction(ir.kind) ==> att_mnemonic(ir_op(ir.kind)).is_prefix_of(att_text(ir)),
        ir_op(ir.kind) is Return ==> att_epilogue().is_suffix_of(att_text(ir)),
{
    reveal_strlit("addq ");
    reveal_strlit("addq %");
    reveal_strlit("addq $");
    reveal_strlit("movq ");
    reveal_strlit("movq %");
    reveal_strlit("movq $");
    reveal_strlit("subq ");
    reveal_strlit("subq %");
    reveal_strlit("subq $");
    reveal_strlit("imulq ");
    reveal_strlit("imulq %");
    reveal_strlit("imulq $");
    reveal_strlit("negl ");
    reveal_strlit("negl %");
    reveal_strlit("jmp ");
    reveal_strlit("movq -");
    reveal_strlit("  movq %rbp, %rsp\n");
    reveal_strlit("  pop %rbp\n");
    reveal_strlit("  ret");
    reveal_strlit("\n");
    let t = att_text(ir);
    let m = att_mnemonic(ir_op(ir.kind));
    if single_instruction(ir.kind) {
        assert(t.subrange(0, m.len() as int) =~= m);
    }
    if ir_op(ir.kind) is Return {
        let e = att_epilogue();
        assert(t.subrange(t.len() - e.len(), t.len() as int) =~= e);
    }
}

} // verus!
