use vstd::prelude::*;

use crate::compiler::ir::arch::x64::ir_kind::{X64IRKind, X64Operand};

verus! {

/// One x86_64 instruction.
#[derive(Debug)]
pub struct X64IR {
    pub kind: X64IRKind,
}

impl X64IR {
    /// The same instruction.
    pub fn duplicate(&self) -> (ir: Self)
        ensures
            ir == *self,
    {
        Self { kind: self.kind.duplicate() }
    }

    /// `jmp label_name`.
    pub fn new_jump(label_name: String) -> (ir: Self)
        ensures
            ir.kind == X64IRKind::JMP(label_name),
    {
        Self { kind: X64IRKind::JMP(label_name) }
    }

    /// `dst <- src`.
    pub fn new_mov(dst: X64Operand, src: X64Operand) -> (ir: Self)
        ensures
            ir.kind == X64IRKind::MOV(dst, src),
    {
        Self { kind: X64IRKind::MOV(dst, src) }
    }

    /// `dst <- dst + src`.
    pub fn new_add(dst: X64Operand, src: X64Operand) -> (ir: Self)
        ensures
            ir.kind == X64IRKind::ADD(dst, src),
    {
        Self { kind: X64IRKind::ADD(dst, src) }
    }

    /// `dst <- dst - src`.
    pub fn new_sub(dst: X64Operand, src: X64Operand) -> (ir: Self)
        ensures
            ir.kind == X64IRKind::SUB(dst, src),
    {
        Self { kind: X64IRKind::SUB(dst, src) }
    }

    /// `dst <- dst * src`.
    pub fn new_mul(dst: X64Operand, src: X64Operand) -> (ir: Self)
        ensures
            ir.kind == X64IRKind::MUL(dst, src),
    {
        Self { kind: X64IRKind::MUL(dst, src) }
    }

    /// A store of `src` into the variable `dst`.
    pub fn new_store(dst: X64Operand, src: X64Operand) -> (ir: Self)
        ensures
            ir.kind == X64IRKind::STORE(dst, src),
    {
        Self { kind: X64IRKind::STORE(dst, src) }
    }

    /// `dst <- dst / src`.
    pub fn new_div(dst: X64Operand, src: X64Operand) -> (ir: Self)
        ensures
            ir.kind == X64IRKind::DIV(dst, src),
    {
        Self { kind: X64IRKind::DIV(dst, src) }
    }

    /// `inner <- -inner`.
    pub fn new_neg(inner: X64Operand) -> (ir: Self)
        ensures
            ir.kind == X64IRKind::NEGATIVE(inner),
    {
        Self { kind: X64IRKind::NEGATIVE(inner) }
    }

    /// A return of `return_op`.
    pub fn new_ret(return_op: X64Operand) -> (ir: Self)
        ensures
            ir.kind == X64IRKind::RET(return_op),
    {
        Self { kind: X64IRKind::RET(return_op) }
    }

    /// A comparison of `tested_op` with zero.
    pub fn new_cmpzero(tested_op: X64Operand) -> (ir: Self)
        ensures
            ir.kind == X64IRKind::CMPZERO(tested_op),
    {
        Self { kind: X64IRKind::CMPZERO(tested_op) }
    }

    /// `jz label_name`.
    pub fn new_jumpzero(label_name: String) -> (ir: Self)
        ensures
            ir.kind == X64IRKind::JZ(label_name),
    {
        Self { kind: X64IRKind::JZ(label_name) }
    }

    /// Loads `op` into argument register `reg_num`.
    pub fn new_genparam(reg_num: usize, op: X64Operand) -> (ir: Self)
        ensures
            ir.kind == X64IRKind::GENPARAM(reg_num, op),
    {
        Self { kind: X64IRKind::GENPARAM(reg_num, op) }
    }

    /// Stores argument register `reg_num` at the given stack offset.
    pub fn new_pushparam(reg_num: usize, offset: usize) -> (ir: Self)
        ensures
            ir.kind == X64IRKind::PUSHPARAM(reg_num, offset),
    {
        Self { kind: X64IRKind::PUSHPARAM(reg_num, offset) }
    }
}

} // verus!
