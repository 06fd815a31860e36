use vstd::prelude::*;

use crate::compiler::ir::three_address_code::tac_kind::{operand_text, operand_text_physical, operator_text, OpeKind, Operand, Operator, TacKind};
use crate::text::push_str;

verus! {

/// One three-address instruction.
#[derive(Debug)]
pub struct ThreeAddressCode {
    pub kind: TacKind,
}

/// An operand kind as a value: names as text.
pub enum OpeKindV {
    IntLit(i128),
    Reg,
    AutoVar(Seq<char>, usize),
    Invalid,
}

/// An operand as a value.
pub struct OperandV {
    pub kind: OpeKindV,
    pub virt: usize,
    pub phys: usize,
}

/// An instruction as a value: names and labels as text.
pub enum TacV {
    Expr(OperandV, Operator, OperandV, OperandV),
    UnaryExpr(OperandV, Operator, OperandV),
    Ret(OperandV),
    Goto(Seq<char>),
    Assign(OperandV, OperandV),
    Iff(OperandV, Seq<char>),
    Label(Seq<char>),
}

/// An operand as a value.
pub open spec fn operand_v(o: Operand) -> OperandV {
    let kind = match o.kind {
        OpeKind::INTLIT(v) => OpeKindV::IntLit(v),
        OpeKind::REG => OpeKindV::Reg,
        OpeKind::AUTOVARIABLE(name, offset) => OpeKindV::AutoVar(name@, offset),
        OpeKind::INVALID => OpeKindV::Invalid,
    };
    OperandV { kind, virt: o.virt, phys: o.phys }
}

/// An instruction as a value.
pub open spec fn tac_v(t: ThreeAddressCode) -> TacV {
    match t.kind {
        TacKind::EXPR(v, o, l, r) => TacV::Expr(operand_v(v), o, operand_v(l), operand_v(r)),
        TacKind::UNARYEXPR(v, o, i) => TacV::UnaryExpr(operand_v(v), o, operand_v(i)),
        TacKind::RET(o) => TacV::Ret(operand_v(o)),
        TacKind::GOTO(l) => TacV::Goto(l@),
        TacKind::ASSIGN(d, s) => TacV::Assign(operand_v(d), operand_v(s)),
        TacKind::IFF(c, l) => TacV::Iff(operand_v(c), l@),
        TacKind::LABEL(l) => TacV::Label(l@),
    }
}

/// A list of instructions as values.
pub open spec fn tacs_v(s: Seq<ThreeAddressCode>) -> Seq<TacV> {
    s.map_values(|t: ThreeAddressCode| tac_v(t))
}

/// How an instruction is printed with virtual register numbers.
pub open spec fn tac_text(t: ThreeAddressCode) -> Seq<char> {
    match t.kind {
        TacKind::LABEL(name) => name@ + ":"@,
        TacKind::GOTO(name) => "goto "@ + name@,
        TacKind::EXPR(var, op, left, right) => operand_text(var) + " <- "@ + operand_text(left)
            + " "@ + operator_text(op) + " "@ + operand_text(right),
        TacKind::UNARYEXPR(var, op, inner) => operand_text(var) + " <- "@ + operator_text(op)
            + operand_text(inner),
        TacKind::ASSIGN(dst, src) => operand_text(dst) + " <- "@ + operand_text(src),
        TacKind::IFF(cond, name) => "if "@ + operand_text(cond) + " goto "@ + name@,
        TacKind::RET(op) => "return "@ + operand_text(op),
    }
}

/// How an instruction is printed with physical register numbers: operands
/// of expressions and returns in their physical form, everything else as
/// `tac_text` prints it.
pub open spec fn tac_text_physical(t: ThreeAddressCode) -> Seq<char> {
    match t.kind {
        TacKind::EXPR(var, op, left, right) => operand_text_physical(var) + " <- "@
            + operand_text_physical(left) + " "@ + operator_text(op) + " "@
            + operand_text_physical(right),
        TacKind::RET(op) => "return "@ + operand_text_physical(op),
        _ => tac_text(t),
    }
}

impl ThreeAddressCode {
    /// An instruction of the given kind.
    pub fn new(kind: TacKind) -> (t: Self)
        ensures
            t == (ThreeAddressCode { kind }),
    {
        Self { kind }
    }

    /// A jump to `label_name`.
    pub fn new_goto(label_name: String) -> (t: Self)
        ensures
            t.kind == TacKind::GOTO(label_name),
    {
        Self::new(TacKind::GOTO(label_name))
    }

    /// The label `label_name`.
    pub fn new_label(label_name: String) -> (t: Self)
        ensures
            t.kind == TacKind::LABEL(label_name),
    {
        Self::new(TacKind::LABEL(label_name))
    }

    /// A return of `return_op`.
    pub fn new_return(return_op: Operand) -> (t: Self)
        ensures
            t.kind == TacKind::RET(return_op),
    {
        Self::new(TacKind::RET(return_op))
    }

    /// `variable_op <- left operator right`.
    pub fn new_binop_code(variable_op: Operand, operator: Operator, left: Operand, right: Operand) -> (t: Self)
        ensures
            t.kind == TacKind::EXPR(variable_op, operator, left, right),
    {
        Self::new(TacKind::EXPR(variable_op, operator, left, right))
    }

    /// `variable_op <- operator inner`.
    pub fn new_unop_code(variable_op: Operand, operator: Operator, inner: Operand) -> (t: Self)
        ensures
            t.kind == TacKind::UNARYEXPR(variable_op, operator, inner),
    {
        Self::new(TacKind::UNARYEXPR(variable_op, operator, inner))
    }

    /// `dst <- src`.
    pub fn new_assign_code(dst: Operand, src: Operand) -> (t: Self)
        ensures
            t.kind == TacKind::ASSIGN(dst, src),
    {
        Self::new(TacKind::ASSIGN(dst, src))
    }

    /// A jump to `label_name` taken when `cond` is zero.
    pub fn new_iff(cond: Operand, label_name: String) -> (t: Self)
        ensures
            t.kind == TacKind::IFF(cond, label_name),
    {
        Self::new(TacKind::IFF(cond, label_name))
    }

    /// The instruction printed with virtual register numbers (see `tac_text`).
    pub fn to_string(&self) -> (s: String)
        ensures
            s@ == tac_text(*self),
    {
        let mut s = String::new();
        match &self.kind {
            TacKind::LABEL(label_name) => {
                push_str(&mut s, label_name.as_str());
                push_str(&mut s, ":");
            },
            TacKind::GOTO(label_name) => {
                push_str(&mut s, "goto ");
                push_str(&mut s, label_name.as_str());
            },
            TacKind::EXPR(var, op, left, right) => {
                push_str(&mut s, var.to_string().as_str());
                push_str(&mut s, " <- ");
                push_str(&mut s, left.to_string().as_str());
                push_str(&mut s, " ");
                push_str(&mut s, op.to_string());
                push_str(&mut s, " ");
                push_str(&mut s, right.to_string().as_str());
            },
            TacKind::UNARYEXPR(var, op, inner) => {
                push_str(&mut s, var.to_string().as_str());
                push_str(&mut s, " <- ");
                push_str(&mut s, op.to_string());
                push_str(&mut s, inner.to_string().as_str());
            },
            TacKind::ASSIGN(dst, src) => {
                push_str(&mut s, dst.to_string().as_str());
                push_str(&mut s, " <- ");
                push_str(&mut s, src.to_string().as_str());
            },
            TacKind::IFF(cond, label_name) => {
                push_str(&mut s, "if ");
                push_str(&mut s, cond.to_string().as_str());
                push_str(&mut s, " goto ");
                push_str(&mut s, label_name.as_str());
            },
            TacKind::RET(return_op) => {
                push_str(&mut s, "return ");
                push_str(&mut s, return_op.to_string().as_str());
            },
        }
        assert(s@ =~= tac_text(*self));
        s
    }

    /// The instruction printed with physical register numbers (see
    /// `tac_text_physical`).
    pub fn to_string_physical(&self) -> (s: String)
        ensures
            s@ == tac_text_physical(*self),
    {
        match &self.kind {
            TacKind::EXPR(var, op, left, right) => {
                let mut s = String::new();
                push_str(&mut s, var.to_string_physical().as_str());
                push_str(&mut s, " <- ");
                push_str(&mut s, left.to_string_physical().as_str());
                push_str(&mut s, " ");
                push_str(&mut s, op.to_string());
                push_str(&mut s, " ");
                push_str(&mut s, right.to_string_physical().as_str());
                assert(s@ =~= tac_text_physical(*self));
                s
            },
            TacKind::RET(return_op) => {
                let mut s = String::new();
                push_str(&mut s, "return ");
                push_str(&mut s, return_op.to_string_physical().as_str());
                assert(s@ =~= tac_text_physical(*self));
                s
            },
            _ => self.to_string(),
        }
    }

    /// The same instruction.
    pub fn duplicate(&self) -> (t: Self)
        ensures
            t == *self,
    {
        let kind = match &self.kind {
            TacKind::EXPR(v, o, l, r) => TacKind::EXPR(v.duplicate(), o.duplicate(), l.duplicate(), r.duplicate()),
            TacKind::UNARYEXPR(v, o, i) => TacKind::UNARYEXPR(v.duplicate(), o.duplicate(), i.duplicate()),
            TacKind::RET(o) => TacKind::RET(o.duplicate()),
            TacKind::GOTO(l) => TacKind::GOTO(l.clone()),
            TacKind::ASSIGN(d, s) => TacKind::ASSIGN(d.duplicate(), s.duplicate()),
            TacKind::IFF(c, l) => TacKind::IFF(c.duplicate(), l.clone()),
            TacKind::LABEL(l) => TacKind::LABEL(l.clone()),
        };
        Self { kind }
    }
}

} // verus!
