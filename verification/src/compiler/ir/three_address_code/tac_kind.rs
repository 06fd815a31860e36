use vstd::prelude::*;

use crate::fmt::{decimal, digits_of, push_i128, push_usize};
use crate::text::push_str;

verus! {

/// A label name.
pub type Label = String;

/// A stack offset.
pub type Offset = usize;

/// The kind of one three-address instruction.
#[derive(Debug)]
pub enum TacKind {
    EXPR(Operand, Operator, Operand, Operand),
    UNARYEXPR(Operand, Operator, Operand),
    RET(Operand),
    GOTO(Label),
    ASSIGN(Operand, Operand),
    IFF(Operand, Label),
    LABEL(Label),
}

/// An arithmetic operator.
#[derive(Debug)]
pub enum Operator {
    PLUS,
    MINUS,
    ASTERISK,
    SLASH,
}

/// An operand: its kind, and the virtual and physical register numbers it
/// carries (meaningful for registers).
#[derive(Debug)]
pub struct Operand {
    pub kind: OpeKind,
    pub virt: usize,
    pub phys: usize,
}

/// The kind of an operand.
#[derive(Debug)]
pub enum OpeKind {
    INTLIT(i128),
    REG,
    AUTOVARIABLE(String, Offset),
    INVALID,
}

/// The symbol of an operator.
pub open spec fn operator_text(op: Operator) -> Seq<char> {
    match op {
        Operator::PLUS => "+"@,
        Operator::MINUS => "-"@,
        Operator::ASTERISK => "*"@,
        Operator::SLASH => "/"@,
    }
}

/// How an operand is printed with virtual register numbers.
pub open spec fn operand_text(op: Operand) -> Seq<char> {
    match op.kind {
        OpeKind::INTLIT(val) => decimal(val as int),
        OpeKind::AUTOVARIABLE(name, _offset) => name@,
        OpeKind::REG => "t"@ + digits_of(op.virt as nat),
        OpeKind::INVALID => "invalid"@,
    }
}

/// How an operand is printed with physical register numbers and stack offsets.
pub open spec fn operand_text_physical(op: Operand) -> Seq<char> {
    match op.kind {
        OpeKind::INTLIT(val) => decimal(val as int),
        OpeKind::AUTOVARIABLE(name, offset) => name@ + "[sp-"@ + digits_of(offset as nat) + "]"@,
        OpeKind::REG => "t"@ + digits_of(op.phys as nat),
        OpeKind::INVALID => "invalid"@,
    }
}

impl Operator {
    /// Whether the operator is `-`.
    pub fn is_minus(&self) -> (b: bool)
        ensures
            b == (*self is MINUS),
    {
        matches!(self, Self::MINUS)
    }

    /// The operator's symbol.
    pub fn to_string(&self) -> (s: &str)
        ensures
            s@ == operator_text(*self),
    {
        match self {
            Self::PLUS => "+",
            Self::MINUS => "-",
            Self::ASTERISK => "*",
            Self::SLASH => "/",
        }
    }

    /// The same operator.
    pub fn duplicate(&self) -> (o: Self)
        ensures
            o == *self,
    {
        match self {
            Self::PLUS => Self::PLUS,
            Self::MINUS => Self::MINUS,
            Self::ASTERISK => Self::ASTERISK,
            Self::SLASH => Self::SLASH,
        }
    }
}

impl OpeKind {
    /// The same operand kind.
    pub fn duplicate(&self) -> (k: Self)
        ensures
            k == *self,
    {
        match self {
            Self::INTLIT(v) => Self::INTLIT(*v),
            Self::REG => Self::REG,
            Self::AUTOVARIABLE(name, offset) => Self::AUTOVARIABLE(name.clone(), *offset),
            Self::INVALID => Self::INVALID,
        }
    }
}

impl Operand {
    /// An operand of the given kind with register numbers 0.
    pub fn new(kind: OpeKind) -> (op: Self)
        ensures
            op == (Operand { kind, virt: 0, phys: 0 }),
    {
        Self { kind, virt: 0, phys: 0 }
    }

    /// An integer literal.
    pub fn new_int_literal(val: i128) -> (op: Self)
        ensures
            op == (Operand { kind: OpeKind::INTLIT(val), virt: 0, phys: 0 }),
    {
        Self::new(OpeKind::INTLIT(val))
    }

    /// An automatic (stack) variable at the given offset.
    pub fn new_auto_var(name: String, offset: usize) -> (op: Self)
        ensures
            op == (Operand { kind: OpeKind::AUTOVARIABLE(name, offset), virt: 0, phys: 0 }),
    {
        Self::new(OpeKind::AUTOVARIABLE(name, offset))
    }

    /// The virtual register `virt`.
    pub fn new_virtreg(virt: usize) -> (op: Self)
        ensures
            op == (Operand { kind: OpeKind::REG, virt, phys: 0 }),
    {
        let mut base_reg = Self::new(OpeKind::REG);
        base_reg.virt = virt;
        base_reg
    }

    /// The invalid operand.
    pub fn new_invalid() -> (op: Self)
        ensures
            op == (Operand { kind: OpeKind::INVALID, virt: 0, phys: 0 }),
    {
        Self::new(OpeKind::INVALID)
    }

    /// Whether the operand is a register.
    pub fn is_register(&self) -> (b: bool)
        ensures
            b <==> self.kind is REG,
    {
        match self.kind {
            OpeKind::REG => true,
            _ => false,
        }
    }

    /// The same operand.
    pub fn duplicate(&self) -> (o: Self)
        ensures
            o == *self,
    {
        Self { kind: self.kind.duplicate(), virt: self.virt, phys: self.phys }
    }

    /// The operand printed with its virtual register number (see `operand_text`).
    pub fn to_string(&self) -> (s: String)
        ensures
            s@ == operand_text(*self),
    {
        let mut s = String::new();
        match &self.kind {
            OpeKind::INTLIT(val) => push_i128(&mut s, *val),
            OpeKind::AUTOVARIABLE(name, _offset) => push_str(&mut s, name.as_str()),
            OpeKind::REG => {
                push_str(&mut s, "t");
                push_usize(&mut s, self.virt);
            },
            OpeKind::INVALID => push_str(&mut s, "invalid"),
        }
        assert(s@ =~= operand_text(*self));
        s
    }

    /// The operand printed with its physical register number and stack
    /// offset (see `operand_text_physical`).
    pub fn to_string_physical(&self) -> (s: String)
        ensures
            s@ == operand_text_physical(*self),
    {
        let mut s = String::new();
        match &self.kind {
            OpeKind::INTLIT(val) => push_i128(&mut s, *val),
            OpeKind::AUTOVARIABLE(name, offset) => {
                push_str(&mut s, name.as_str());
                push_str(&mut s, "[sp-");
                push_usize(&mut s, *offset);
                push_str(&mut s, "]");
            },
            OpeKind::REG => {
                push_str(&mut s, "t");
                push_usize(&mut s, self.phys);
            },
            OpeKind::INVALID => push_str(&mut s, "invalid"),
        }
        assert(s@ =~= operand_text_physical(*self));
        s
    }
}

} // verus!
