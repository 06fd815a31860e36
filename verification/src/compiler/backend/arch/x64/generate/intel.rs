use vstd::prelude::*;

use crate::compiler::backend::arch::x64::generate::{arg_register, ir_reg_text, register_text, Registers};
use crate::compiler::backend::arch::x64::optimizer::X64Optimizer;
use crate::compiler::ir::arch::x64::basicblock::X64BasicBlock;
use crate::compiler::ir::arch::x64::function::X64Function;
use crate::compiler::ir::arch::x64::ir::X64IR;
use crate::compiler::ir::arch::x64::ir_kind::{encoding_fits, ir_op, ir_operands, ir_target, operand_name, X64IRKind, X64Op, X64Operand};
use crate::fmt::{decimal, digits_of, push_i128, push_usize};
use crate::text::{push_str, str_eq};

verus! {

/// The decimal text of an integer literal operand.
pub open spec fn imm_text(op: X64Operand) -> Seq<char> {
    decimal(op.kind->INTLIT_0 as int)
}

/// The decimal text of a stack variable's offset.
pub open spec fn off_text(op: X64Operand) -> Seq<char> {
    digits_of(op.kind->AUTOVAR_1 as nat)
}

/// Every operand the instruction's text reads has the kind that text needs:
/// immediates are literals, memory operands are stack variables.
pub open spec fn emittable(ir: X64IR) -> bool {
    match ir.kind {
        X64IRKind::ADDIMMTOREG(_, i) => i.kind is INTLIT,
        X64IRKind::MOVIMMTOREG(_, i) => i.kind is INTLIT,
        X64IRKind::SUBIMMTOREG(_, i) => i.kind is INTLIT,
        X64IRKind::MULIMMTOREG(_, i) => i.kind is INTLIT,
        X64IRKind::DIVIMMTOREG(_, i) => i.kind is INTLIT,
        X64IRKind::MOVMEMTOREG(_, v) => v.kind is AUTOVAR,
        X64IRKind::STOREREG(d, _) => d.kind is AUTOVAR,
        X64IRKind::STOREIMM(d, s) => d.kind is AUTOVAR && s.kind is INTLIT,
        X64IRKind::STOREMEM(d, s) => d.kind is AUTOVAR && s.kind is AUTOVAR,
        X64IRKind::RETIMM(o) => o.kind is INTLIT,
        X64IRKind::RETMEM(o) => o.kind is AUTOVAR,
        X64IRKind::RETCALL(o) => o.kind is AUTOVAR || o.kind is CALL,
        X64IRKind::CMPZEROMEM(o) => o.kind is AUTOVAR,
        X64IRKind::GENPARAMIMM(_, o) => o.kind is INTLIT,
        _ => true,
    }
}

/// The instructions that leave a function: restore the stack and return.
pub open spec fn intel_epilogue() -> Seq<char> {
    "  mov rsp, rbp\n"@ + "  pop rbp\n"@ + "  ret"@
}

/// One instruction in Intel syntax; instructions with no Intel text give
/// the empty text.
pub open spec fn intel_text(ir: X64IR) -> Seq<char> {
    match ir.kind {
        X64IRKind::ADDREGTOREG(d, s) => "add "@ + ir_reg_text(d.phys) + ", "@ + ir_reg_text(s.phys),
        X64IRKind::ADDIMMTOREG(d, i) => "add "@ + ir_reg_text(d.phys) + ", "@ + imm_text(i),
        X64IRKind::MOVREGTOREG(d, s) => "mov "@ + ir_reg_text(d.phys) + ", "@ + ir_reg_text(s.phys),
        X64IRKind::MOVIMMTOREG(d, i) => "mov "@ + ir_reg_text(d.phys) + ", "@ + imm_text(i),
        X64IRKind::MOVMEMTOREG(d, v) => "mov "@ + ir_reg_text(d.phys) + ", -"@ + off_text(v) + "[rbp] # "@ + operand_name(v),
        X64IRKind::SUBREGTOREG(d, s) => "sub "@ + ir_reg_text(d.phys) + ", "@ + ir_reg_text(s.phys),
        X64IRKind::SUBIMMTOREG(d, i) => "sub "@ + ir_reg_text(d.phys) + ", "@ + imm_text(i),
        X64IRKind::MULREGTOREG(d, s) => "imul "@ + ir_reg_text(d.phys) + ", "@ + ir_reg_text(s.phys),
        X64IRKind::MULIMMTOREG(d, i) => "imul "@ + ir_reg_text(d.phys) + ", "@ + imm_text(i),
        X64IRKind::DIVREGTOREG(d, s) => "mov rax, "@ + ir_reg_text(d.phys) + "\n"@ + "  cqo\n"@ + "  idiv "@
            + ir_reg_text(s.phys) + "\n"@ + "  mov "@ + ir_reg_text(d.phys) + ", rax"@,
        X64IRKind::DIVIMMTOREG(d, i) => "mov rax, "@ + ir_reg_text(d.phys) + "\n"@ + "  mov rcx, "@ + imm_text(i) + "\n"@
            + "  cqo\n"@ + "  idiv rcx\n"@ + "  mov "@ + ir_reg_text(d.phys) + ", rax"@,
        X64IRKind::STOREREG(d, s) => "mov -"@ + off_text(d) + "[rbp], "@ + ir_reg_text(s.phys) + " # "@ + operand_name(d),
        X64IRKind::STOREIMM(d, s) => "mov QWORD PTR -"@ + off_text(d) + "[rbp], "@ + imm_text(s) + " # "@ + operand_name(d),
        X64IRKind::STOREMEM(d, s) => "mov rax, -"@ + off_text(s) + "[rbp] # "@ + operand_name(s) + "\n"@ + "  mov -"@
            + off_text(d) + "[rbp], rax # "@ + operand_name(d),
        X64IRKind::NEGREG(i) => "neg "@ + ir_reg_text(i.phys),
        X64IRKind::RETREG(o) => "mov rax, "@ + ir_reg_text(o.phys) + "\n"@ + intel_epilogue(),
        X64IRKind::RETIMM(o) => "mov rax, "@ + imm_text(o) + "\n"@ + intel_epilogue(),
        X64IRKind::RETMEM(o) => "mov rax, -"@ + off_text(o) + "[rbp] # "@ + operand_name(o) + "\n"@ + intel_epilogue(),
        X64IRKind::RETCALL(o) => "call "@ + operand_name(o) + "\n"@ + intel_epilogue(),
        X64IRKind::CMPZEROREG(o) => "cmp "@ + ir_reg_text(o.phys) + ", 0"@,
        X64IRKind::CMPZEROMEM(o) => "cmp QWORD PTR -"@ + off_text(o) + "[rbp], 0 # "@ + operand_name(o),
        X64IRKind::JMP(l) => "jmp "@ + l@,
        X64IRKind::JZ(l) => "jz "@ + l@,
        X64IRKind::GENPARAMIMM(n, o) => "mov "@ + register_text(arg_register(n)) + ", "@ + imm_text(o),
        X64IRKind::PUSHPARAM(n, off) => "mov QWORD PTR -"@ + digits_of(off as nat) + "[rbp], "@ + register_text(
            arg_register(n),
        ),
        _ => Seq::empty(),
    }
}

/// The first `k` instructions, one per line, indented.
pub open spec fn irs_intel(irs: Seq<X64IR>, k: int) -> Seq<char>
    decreases k,
{
    if k <= 0 {
        Seq::empty()
    } else {
        irs_intel(irs, k - 1) + "  "@ + intel_text(irs[k - 1]) + "\n"@
    }
}

/// A block in Intel syntax: its label (but for the entry block) and its instructions.
pub open spec fn block_intel(b: X64BasicBlock) -> Seq<char> {
    (if b.label@ == "entry"@ {
        Seq::empty()
    } else {
        b.label@ + ":\n"@
    }) + irs_intel(b.irs@, b.irs@.len() as int)
}

/// The first `k` blocks in Intel syntax.
pub open spec fn blocks_intel(bs: Seq<X64BasicBlock>, k: int) -> Seq<char>
    decreases k,
{
    if k <= 0 {
        Seq::empty()
    } else {
        blocks_intel(bs, k - 1) + block_intel(bs[k - 1])
    }
}

/// The frame size rounded up to a multiple of 8.
pub open spec fn frame_rounded(size: usize) -> nat {
    ((size + 7) / 8 * 8) as nat
}

/// A function in Intel syntax: its label, the prologue that sets up the
/// frame, and its blocks.
pub open spec fn function_intel(f: X64Function) -> Seq<char> {
    f.func_name@ + ":\n"@ + "  push rbp\n"@ + "  mov rbp, rsp\n"@ + (if f.frame_size != 0 {
        "  sub rsp, "@ + digits_of(frame_rounded(f.frame_size)) + "\n"@
    } else {
        Seq::empty()
    }) + blocks_intel(f.blocks@, f.blocks@.len() as int)
}

/// The first `k` functions in Intel syntax.
pub open spec fn functions_intel(fs: Seq<X64Function>, k: int) -> Seq<char>
    decreases k,
{
    if k <= 0 {
        Seq::empty()
    } else {
        functions_intel(fs, k - 1) + function_intel(fs[k - 1])
    }
}

/// A `.global` directive for each of the first `k` functions.
pub open spec fn global_directives(fs: Seq<X64Function>, k: int) -> Seq<char>
    decreases k,
{
    if k <= 0 {
        Seq::empty()
    } else {
        global_directives(fs, k - 1) + ".global "@ + fs[k - 1].func_name@ + "\n"@
    }
}

/// Every instruction of the block can be printed.
pub open spec fn block_emittable(b: X64BasicBlock) -> bool {
    forall|k: int| 0 <= k < b.irs@.len() ==> #[trigger] emittable(b.irs@[k])
}

/// Every instruction of the function can be printed and its frame size can
/// be rounded up within `usize`.
pub open spec fn function_emittable(f: X64Function) -> bool {
    &&& f.frame_size + 7 <= usize::MAX
    &&& forall|b: int| 0 <= b < f.blocks@.len() ==> #[trigger] block_emittable(f.blocks@[b])
}

/// Every function can be printed.
pub open spec fn functions_emittable(fs: Seq<X64Function>) -> bool {
    forall|f: int| 0 <= f < fs.len() ==> #[trigger] function_emittable(fs[f])
}

/// Clearing the low three bits rounds down to a multiple of 8.
pub proof fn lemma_clear_low_bits(x: usize)
    ensures
        !7usize & x == x / 8 * 8,
{
    assert(!7usize & x == x / 8 * 8) by (bit_vector);
}

/// Appends the name of the register allocation number `num` stands for.
pub fn push_ir_reg(s: &mut String, num: usize)
    ensures
        final(s)@ == old(s)@ + ir_reg_text(num),
{
    let r = Registers::from_number_ir(num).to_string();
    push_str(s, r.as_str());
}

/// Appends the name of the register that passes argument `num`.
pub fn push_arg_reg(s: &mut String, num: usize)
    ensures
        final(s)@ == old(s)@ + register_text(arg_register(num)),
{
    let r = Registers::from_arg_number(num).to_string();
    push_str(s, r.as_str());
}

/// Appends the value of an integer literal.
pub fn push_imm(s: &mut String, op: &X64Operand)
    requires
        op.kind is INTLIT,
    ensures
        final(s)@ == old(s)@ + imm_text(*op),
{
    push_i128(s, op.int_value());
}

/// Appends the offset of a stack variable.
pub fn push_off(s: &mut String, op: &X64Operand)
    requires
        op.kind is AUTOVAR,
    ensures
        final(s)@ == old(s)@ + off_text(*op),
{
    push_usize(s, op.var_offset());
}

/// Appends the name of a stack variable or called function.
pub fn push_name(s: &mut String, op: &X64Operand)
    requires
        op.kind is AUTOVAR || op.kind is CALL,
    ensures
        final(s)@ == old(s)@ + operand_name(*op),
{
    let name = op.var_name();
    push_str(s, name.as_str());
}

impl X64Optimizer {
    /// The whole program in Intel syntax: the syntax directive, a `.global`
    /// directive per function, then each function.
    pub fn generate_assembly_with_intel_syntax(&self) -> (out: String)
        requires
            functions_emittable(self.functions@),
        ensures
            out@ == ".intel_syntax noprefix\n"@ + global_directives(self.functions@, self.functions@.len() as int)
                + functions_intel(self.functions@, self.functions@.len() as int),
    {
        let mut output = self.generate_intel_prefix_and_directive();
        let ghost prefix = output@;
        let mut i: usize = 0;
        while i < self.functions.len()
            invariant
                0 <= i <= self.functions@.len(),
                functions_emittable(self.functions@),
                output@ == prefix + functions_intel(self.functions@, i as int),
            decreases self.functions@.len() - i,
        {
            assert(function_emittable(self.functions@[i as int]));
            let code = self.functions[i].to_intel_code();
            push_str(&mut output, code.as_str());
            proof {
                assert(output@ =~= prefix + functions_intel(self.functions@, i + 1));
            }
            i = i + 1;
        }
        output
    }

    /// The syntax directive and a `.global` directive per function.
    pub fn generate_intel_prefix_and_directive(&self) -> (out: String)
        ensures
            out@ == ".intel_syntax noprefix\n"@ + global_directives(self.functions@, self.functions@.len() as int),
    {
        let mut output = String::new();
        push_str(&mut output, ".intel_syntax noprefix\n");
        let mut i: usize = 0;
        while i < self.functions.len()
            invariant
                0 <= i <= self.functions@.len(),
                output@ == ".intel_syntax noprefix\n"@ + global_directives(self.functions@, i as int),
            decreases self.functions@.len() - i,
        {
            push_str(&mut output, ".global ");
            push_str(&mut output, self.functions[i].func_name.as_str());
            push_str(&mut output, "\n");
            proof {
                assert(output@ =~= ".intel_syntax noprefix\n"@ + global_directives(self.functions@, i + 1));
            }
            i = i + 1;
        }
        output
    }
}

impl X64Function {
    /// The function in Intel syntax (see `function_intel`).
    pub fn to_intel_code(&self) -> (out: String)
        requires
            function_emittable(*self),
        ensures
            out@ == function_intel(*self),
    {
        let mut output = String::new();
        push_str(&mut output, self.func_name.as_str());
        push_str(&mut output, ":\n");
        push_str(&mut output, "  push rbp\n");
        push_str(&mut output, "  mov rbp, rsp\n");
        if self.frame_size != 0 {
            let rounded = !7 & self.frame_size + 7;
            proof {
                lemma_clear_low_bits((self.frame_size + 7) as usize);
            }
            push_str(&mut output, "  sub rsp, ");
            push_usize(&mut output, rounded);
            push_str(&mut output, "\n");
        }
        let ghost head = output@;
        proof {
            assert(head =~= function_intel(*self).take(head.len() as int));
        }
        let mut i: usize = 0;
        while i < self.blocks.len()
            invariant
                0 <= i <= self.blocks@.len(),
                function_emittable(*self),
                output@ == head + blocks_intel(self.blocks@, i as int),
            decreases self.blocks@.len() - i,
        {
            assert(block_emittable(self.blocks@[i as int]));
            let code = self.blocks[i].to_intel_code();
            push_str(&mut output, code.as_str());
            proof {
                assert(output@ =~= head + blocks_intel(self.blocks@, i + 1));
            }
            i = i + 1;
        }
        assert(output@ =~= function_intel(*self));
        output
    }
}

impl X64BasicBlock {
    /// The block in Intel syntax (see `block_intel`).
    pub fn to_intel_code(&self) -> (out: String)
        requires
            block_emittable(*self),
        ensures
            out@ == block_intel(*self),
    {
        let mut output = String::new();
        if !str_eq(self.label.as_str(), "entry") {
            push_str(&mut output, self.label.as_str());
            push_str(&mut output, ":\n");
        }
        let ghost head = output@;
        let mut i: usize = 0;
        while i < self.irs.len()
            invariant
                0 <= i <= self.irs@.len(),
                block_emittable(*self),
                output@ == head + irs_intel(self.irs@, i as int),
            decreases self.irs@.len() - i,
        {
            assert(emittable(self.irs@[i as int]));
            let code = self.irs[i].to_intel_code();
            push_str(&mut output, "  ");
            push_str(&mut output, code.as_str());
            push_str(&mut output, "\n");
            proof {
                assert(output@ =~= head + irs_intel(self.irs@, i + 1));
            }
            i = i + 1;
        }
        assert(output@ =~= block_intel(*self));
        output
    }
}

impl X64IR {
    /// The instruction in Intel syntax (see `intel_text`).
    #[verifier::rlimit(50)]
    pub fn to_intel_code(&self) -> (out: String)
        requires
            emittable(*self),
        ensures
            out@ == intel_text(*self),
    {
        let mut s = String::new();
        match &self.kind {
            X64IRKind::ADDREGTOREG(dst, src) => {
                push_str(&mut s, "add ");
                push_ir_reg(&mut s, dst.phys);
                push_str(&mut s, ", ");
                push_ir_reg(&mut s, src.phys);
            },
            X64IRKind::ADDIMMTOREG(dst, immediate) => {
                push_str(&mut s, "add ");
                push_ir_reg(&mut s, dst.phys);
                push_str(&mut s, ", ");
                push_imm(&mut s, immediate);
            },
            X64IRKind::MOVREGTOREG(dst, src) => {
                push_str(&mut s, "mov ");
                push_ir_reg(&mut s, dst.phys);
                push_str(&mut s, ", ");
                push_ir_reg(&mut s, src.phys);
            },
            X64IRKind::MOVIMMTOREG(dst, immediate) => {
                push_str(&mut s, "mov ");
                push_ir_reg(&mut s, dst.phys);
                push_str(&mut s, ", ");
                push_imm(&mut s, immediate);
            },
            X64IRKind::MOVMEMTOREG(dst, var) => {
                push_str(&mut s, "mov ");
                push_ir_reg(&mut s, dst.phys);
                push_str(&mut s, ", -");
                push_off(&mut s, var);
                push_str(&mut s, "[rbp] # ");
                push_name(&mut s, var);
            },
            X64IRKind::SUBREGTOREG(dst, src) => {
                push_str(&mut s, "sub ");
                push_ir_reg(&mut s, dst.phys);
                push_str(&mut s, ", ");
                push_ir_reg(&mut s, src.phys);
            },
            X64IRKind::SUBIMMTOREG(dst, immediate) => {
                push_str(&mut s, "sub ");
                push_ir_reg(&mut s, dst.phys);
                push_str(&mut s, ", ");
                push_imm(&mut s, immediate);
            },
            X64IRKind::MULREGTOREG(dst, src) => {
                push_str(&mut s, "imul ");
                push_ir_reg(&mut s, dst.phys);
                push_str(&mut s, ", ");
                push_ir_reg(&mut s, src.phys);
            },
            X64IRKind::MULIMMTOREG(dst, immediate) => {
                push_str(&mut s, "imul ");
                push_ir_reg(&mut s, dst.phys);
                push_str(&mut s, ", ");
                push_imm(&mut s, immediate);
            },
            X64IRKind::DIVREGTOREG(dst, src) => {
                push_str(&mut s, "mov rax, ");
                push_ir_reg(&mut s, dst.phys);
                push_str(&mut s, "\n");
                push_str(&mut s, "  cqo\n");
                push_str(&mut s, "  idiv ");
                push_ir_reg(&mut s, src.phys);
                push_str(&mut s, "\n");
                push_str(&mut s, "  mov ");
                push_ir_reg(&mut s, dst.phys);
                push_str(&mut s, ", rax");
            },
            X64IRKind::DIVIMMTOREG(dst, immediate) => {
                push_str(&mut s, "mov rax, ");
                push_ir_reg(&mut s, dst.phys);
                push_str(&mut s, "\n");
                push_str(&mut s, "  mov rcx, ");
                push_imm(&mut s, immediate);
                push_str(&mut s, "\n");
                push_str(&mut s, "  cqo\n");
                push_str(&mut s, "  idiv rcx\n");
                push_str(&mut s, "  mov ");
                push_ir_reg(&mut s, dst.phys);
                push_str(&mut s, ", rax");
            },
            X64IRKind::STOREREG(dst, src) => {
                push_str(&mut s, "mov -");
                push_off(&mut s, dst);
                push_str(&mut s, "[rbp], ");
                push_ir_reg(&mut s, src.phys);
                push_str(&mut s, " # ");
                push_name(&mut s, dst);
            },
            X64IRKind::STOREIMM(dst, src) => {
                push_str(&mut s, "mov QWORD PTR -");
                push_off(&mut s, dst);
                push_str(&mut s, "[rbp], ");
                push_imm(&mut s, src);
                push_str(&mut s, " # ");
                push_name(&mut s, dst);
            },
            X64IRKind::STOREMEM(dst, src) => {
                push_str(&mut s, "mov rax, -");
                push_off(&mut s, src);
                push_str(&mut s, "[rbp] # ");
                push_name(&mut s, src);
                push_str(&mut s, "\n");
                push_str(&mut s, "  mov -");
                push_off(&mut s, dst);
                push_str(&mut s, "[rbp], rax # ");
                push_name(&mut s, dst);
            },
            X64IRKind::NEGREG(inner_op) => {
                push_str(&mut s, "neg ");
                push_ir_reg(&mut s, inner_op.phys);
            },
            X64IRKind::RETREG(return_op) => {
                push_str(&mut s, "mov rax, ");
                push_ir_reg(&mut s, return_op.phys);
                push_str(&mut s, "\n");
                push_intel_epilogue(&mut s);
            },
            X64IRKind::RETIMM(return_op) => {
                push_str(&mut s, "mov rax, ");
                push_imm(&mut s, return_op);
                push_str(&mut s, "\n");
                push_intel_epilogue(&mut s);
            },
            X64IRKind::RETMEM(return_op) => {
                push_str(&mut s, "mov rax, -");
                push_off(&mut s, return_op);
                push_str(&mut s, "[rbp] # ");
                push_name(&mut s, return_op);
                push_str(&mut s, "\n");
                push_intel_epilogue(&mut s);
            },
            X64IRKind::RETCALL(return_op) => {
                push_str(&mut s, "call ");
                push_name(&mut s, return_op);
                push_str(&mut s, "\n");
                push_intel_epilogue(&mut s);
            },
            X64IRKind::CMPZEROREG(tested_op) => {
                push_str(&mut s, "cmp ");
                push_ir_reg(&mut s, tested_op.phys);
                push_str(&mut s, ", 0");
            },
            X64IRKind::CMPZEROMEM(tested_op) => {
                push_str(&mut s, "cmp QWORD PTR -");
                push_off(&mut s, tested_op);
                push_str(&mut s, "[rbp], 0 # ");
                push_name(&mut s, tested_op);
            },
            X64IRKind::JMP(label_name) => {
                push_str(&mut s, "jmp ");
                push_str(&mut s, label_name.as_str());
            },
            X64IRKind::JZ(label_name) => {
                push_str(&mut s, "jz ");
                push_str(&mut s, label_name.as_str());
            },
            X64IRKind::GENPARAMIMM(reg_num, gen_op) => {
                push_str(&mut s, "mov ");
                push_arg_reg(&mut s, *reg_num);
                push_str(&mut s, ", ");
                push_imm(&mut s, gen_op);
            },
            X64IRKind::PUSHPARAM(reg_num, offset) => {
                push_str(&mut s, "mov QWORD PTR -");
                push_usize(&mut s, *offset);
                push_str(&mut s, "[rbp], ");
                push_arg_reg(&mut s, *reg_num);
            },
            _ => {},
        }
        assert(s@ =~= intel_text(*self));
        s
    }
}

/// Appends the instructions that leave a function.
fn push_intel_epilogue(s: &mut String)
    ensures
        final(s)@ == old(s)@ + intel_epilogue(),
{
    push_str(s, "  mov rsp, rbp\n");
    push_str(s, "  pop rbp\n");
    push_str(s, "  ret");
    assert(s@ =~= old(s)@ + intel_epilogue());
}

/// The Intel mnemonic of an operation, with the space that follows it.
pub open spec fn intel_mnemonic(o: X64Op) -> Seq<char> {
    match o {
        X64Op::Add => "add "@,
        X64Op::Sub => "sub "@,
        X64Op::Mul => "imul "@,
        X64Op::Div => "idiv "@,
        X64Op::Negate => "neg "@,
        X64Op::CompareZero => "cmp "@,
        X64Op::Jump => "jmp "@,
        X64Op::JumpIfZero => "jz "@,
        X64Op::Return => "ret "@,
        _ => "mov "@,
    }
}

/// A source operand in Intel syntax: a register by name, a literal by value.
pub open spec fn intel_source(s: X64Operand) -> Seq<char> {
    if s.kind is REG {
        ir_reg_text(s.phys)
    } else {
        imm_text(s)
    }
}

/// An encoding that works on a register destination with a register or
/// literal source.
pub open spec fn register_form(k: X64IRKind) -> bool {
    ||| k is ADDIMMTOREG
    ||| k is ADDREGTOREG
    ||| k is SUBIMMTOREG
    ||| k is SUBREGTOREG
    ||| k is MULIMMTOREG
    ||| k is MULREGTOREG
    ||| k is MOVIMMTOREG
    ||| k is MOVREGTOREG
}

/// Each instruction is printed with the mnemonic of its operation: an
/// addition as `add`, a subtraction as `sub`, a multiplication as `imul`, a
/// copy as `mov`, destination first and source second; a jump as `jmp` or
/// `jz` and its label; a negation as `neg`; a test against zero as a `cmp`
/// with 0; and a return loads rax and ends with the epilogue.
pub proof fn lemma_intel_mnemonics(ir: X64IR)
    requires
        encoding_fits(ir.kind),
    ensures
        register_form(ir.kind) ==> intel_text(ir) == intel_mnemonic(ir_op(ir.kind)) + ir_reg_text(ir_operands(ir.kind)[0].phys)
            + ", "@ + intel_source(ir_operands(ir.kind)[1]),
        ir.kind is JMP || ir.kind is JZ ==> intel_text(ir) == intel_mnemonic(ir_op(ir.kind)) + ir_target(ir.kind)->0,
        ir.kind is NEGREG ==> intel_text(ir) == intel_mnemonic(ir_op(ir.kind)) + ir_reg_text(ir_operands(ir.kind)[0].phys),
        ir.kind is CMPZEROREG ==> intel_text(ir) == intel_mnemonic(ir_op(ir.kind)) + ir_reg_text(ir_operands(ir.kind)[0].phys)
            + ", 0"@,
        ir.kind is RETREG || ir.kind is RETIMM ==> intel_text(ir) == "mov rax, "@ + intel_source(ir_operands(ir.kind)[0]) + "\n"@
            + intel_epilogue(),
{
}

/// A division is printed as `idiv` of the divisor, with the dividend loaded
/// from the destination into rax, sign-extended, and the quotient copied
/// back into the destination; a literal divisor goes through rcx.
pub proof fn lemma_intel_division(ir: X64IR)
    requires
        encoding_fits(ir.kind),
    ensures
        ir.kind is DIVREGTOREG ==> intel_text(ir) == "mov rax, "@ + ir_reg_text(ir_operands(ir.kind)[0].phys) + "\n  cqo\n  "@
            + intel_mnemonic(ir_op(ir.kind)) + intel_source(ir_operands(ir.kind)[1]) + "\n  mov "@ + ir_reg_text(
            ir_operands(ir.kind)[0].phys,
        ) + ", rax"@,
        ir.kind is DIVIMMTOREG ==> intel_text(ir) == "mov rax, "@ + ir_reg_text(ir_operands(ir.kind)[0].phys) + "\n  mov rcx, "@
            + intel_source(ir_operands(ir.kind)[1]) + "\n  cqo\n  "@ + intel_mnemonic(ir_op(ir.kind)) + "rcx\n  mov "@
            + ir_reg_text(ir_operands(ir.kind)[0].phys) + ", rax"@,
{
    reveal_strlit("\n");
    reveal_strlit("  cqo\n");
    reveal_strlit("  idiv ");
    reveal_strlit("  mov ");
    reveal_strlit("\n  cqo\n  ");
    reveal_strlit("idiv ");
    reveal_strlit("\n  mov ");
    reveal_strlit("  mov rcx, ");
    reveal_strlit("\n  mov rcx, ");
    reveal_strlit("  idiv rcx\n");
    reveal_strlit("rcx\n  mov ");
    let t = intel_text(ir);
    let d = ir_reg_text(ir_operands(ir.kind)[0].phys);
    if ir.kind is DIVREGTOREG {
        assert(t =~= "mov rax, "@ + d + "\n  cqo\n  "@ + intel_mnemonic(ir_op(ir.kind)) + intel_source(ir_operands(ir.kind)[1])
            + "\n  mov "@ + d + ", rax"@);
    }
    if ir.kind is DIVIMMTOREG {
        assert(t =~= "mov rax, "@ + d + "\n  mov rcx, "@ + intel_source(ir_operands(ir.kind)[1]) + "\n  cqo\n  "@
            + intel_mnemonic(ir_op(ir.kind)) + "rcx\n  mov "@ + d + ", rax"@);
    }
}

/// An instruction that is neither a division nor a return.
pub open spec fn single_instruction(k: X64IRKind) -> bool {
    !(ir_op(k) is Div) && !(ir_op(k) is Return)
}

/// An encoding chosen by selection, or a jump or a saved argument, which
/// need no choice.
pub open spec fn concrete(k: X64IRKind) -> bool {
    !(k is MOV || k is ADD || k is SUB || k is MUL || k is DIV || k is STORE || k is RET || k is NEGATIVE || k is CMPZERO
        || k is GENPARAM)
}

/// Every printed instruction that is not a division or a return begins with
/// the mnemonic of its operation, and every printed return ends by leaving
/// the function.
pub proof fn lemma_intel_text_starts_with_mnemonic(ir: X64IR)
    requires
        concrete(ir.kind),
        intel_text(ir).len() > 0,
    ensures
        single_instruction(ir.kind) ==> intel_mnemonic(ir_op(ir.kind)).is_prefix_of(intel_text(ir)),
        ir_op(ir.kind) is Return ==> intel_epilogue().is_suffix_of(intel_text(ir)),
{
    reveal_strlit("add ");
    reveal_strlit("mov ");
    reveal_strlit("sub ");
    reveal_strlit("imul ");
    reveal_strlit("mov -");
    reveal_strlit("mov QWORD PTR -");
    reveal_strlit("mov rax, -");
    reveal_strlit("mov rax, ");
    reveal_strlit("neg ");
    reveal_strlit("cmp ");
    reveal_strlit("cmp QWORD PTR -");
    reveal_strlit("jmp ");
    reveal_strlit("jz ");
    reveal_strlit("call ");
    reveal_strlit("  mov rsp, rbp\n");
    reveal_strlit("  pop rbp\n");
    reveal_strlit("  ret");
    reveal_strlit("\n");
    let t = intel_text(ir);
    let m = intel_mnemonic(ir_op(ir.kind));
    if single_instruction(ir.kind) {
        assert(t.subrange(0, m.len() as int) =~= m);
    }
    if ir_op(ir.kind) is Return {
        let e = intel_epilogue();
        assert(t.subrange(t.len() - e.len(), t.len() as int) =~= e);
    }
}

} // verus!
