use vstd::prelude::*;

verus! {

/// A label name.
pub type LabelName = String;

/// The kind of one x86_64 instruction. The first group is abstract (one
/// for each three-address instruction); the second names a concrete
/// encoding chosen by instruction selection.
#[derive(Debug)]
pub enum X64IRKind {
    MOV(X64Operand, X64Operand),
    ADD(X64Operand, X64Operand),
    SUB(X64Operand, X64Operand),
    MUL(X64Operand, X64Operand),
    DIV(X64Operand, X64Operand),
    STORE(X64Operand, X64Operand),
    JMP(LabelName),
    JZ(LabelName),
    RET(X64Operand),
    NEGATIVE(X64Operand),
    CMPZERO(X64Operand),
    GENPARAM(usize, X64Operand),
    PUSHPARAM(usize, usize),
    ADDIMMTOREG(X64Operand, X64Operand),
    ADDREGTOREG(X64Operand, X64Operand),
    ADDIMMTOVAR(X64Operand, X64Operand),
    MOVIMMTOREG(X64Operand, X64Operand),
    MOVREGTOREG(X64Operand, X64Operand),
    MOVMEMTOREG(X64Operand, X64Operand),
    SUBIMMTOREG(X64Operand, X64Operand),
    SUBREGTOREG(X64Operand, X64Operand),
    SUBIMMTOVAR(X64Operand, X64Operand),
    MULIMMTOREG(X64Operand, X64Operand),
    MULREGTOREG(X64Operand, X64Operand),
    DIVIMMTOREG(X64Operand, X64Operand),
    DIVREGTOREG(X64Operand, X64Operand),
    NEGREG(X64Operand),
    RETREG(X64Operand),
    RETIMM(X64Operand),
    RETMEM(X64Operand),
    RETCALL(X64Operand),
    STOREREG(X64Operand, X64Operand),
    STOREIMM(X64Operand, X64Operand),
    STOREMEM(X64Operand, X64Operand),
    CMPZEROREG(X64Operand),
    CMPZEROIMM(X64Operand),
    CMPZEROMEM(X64Operand),
    GENPARAMIMM(usize, X64Operand),
}

/// An operand: its kind and the virtual and physical register numbers it
/// carries (meaningful for registers).
#[derive(Debug)]
pub struct X64Operand {
    pub kind: X64OpeKind,
    pub virt: usize,
    pub phys: usize,
}

/// The kind of an operand.
#[derive(Debug)]
pub enum X64OpeKind {
    INTLIT(i128),
    REG,
    AUTOVAR(String, usize),
    CALL(String),
    INVALID,
}

impl X64IRKind {
    /// The same instruction kind.
    pub fn duplicate(&self) -> (k: Self)
        ensures
            k == *self,
    {
        match self {
            Self::MOV(a, b) => Self::MOV(a.duplicate(), b.duplicate()),
            Self::ADD(a, b) => Self::ADD(a.duplicate(), b.duplicate()),
            Self::SUB(a, b) => Self::SUB(a.duplicate(), b.duplicate()),
            Self::MUL(a, b) => Self::MUL(a.duplicate(), b.duplicate()),
            Self::DIV(a, b) => Self::DIV(a.duplicate(), b.duplicate()),
            Self::STORE(a, b) => Self::STORE(a.duplicate(), b.duplicate()),
            Self::ADDIMMTOREG(a, b) => Self::ADDIMMTOREG(a.duplicate(), b.duplicate()),
            Self::ADDREGTOREG(a, b) => Self::ADDREGTOREG(a.duplicate(), b.duplicate()),
            Self::ADDIMMTOVAR(a, b) => Self::ADDIMMTOVAR(a.duplicate(), b.duplicate()),
            Self::MOVIMMTOREG(a, b) => Self::MOVIMMTOREG(a.duplicate(), b.duplicate()),
            Self::MOVREGTOREG(a, b) => Self::MOVREGTOREG(a.duplicate(), b.duplicate()),
            Self::MOVMEMTOREG(a, b) => Self::MOVMEMTOREG(a.duplicate(), b.duplicate()),
            Self::SUBIMMTOREG(a, b) => Self::SUBIMMTOREG(a.duplicate(), b.duplicate()),
            Self::SUBREGTOREG(a, b) => Self::SUBREGTOREG(a.duplicate(), b.duplicate()),
            Self::SUBIMMTOVAR(a, b) => Self::SUBIMMTOVAR(a.duplicate(), b.duplicate()),
            Self::MULIMMTOREG(a, b) => Self::MULIMMTOREG(a.duplicate(), b.duplicate()),
            Self::MULREGTOREG(a, b) => Self::MULREGTOREG(a.duplicate(), b.duplicate()),
            Self::DIVIMMTOREG(a, b) => Self::DIVIMMTOREG(a.duplicate(), b.duplicate()),
            Self::DIVREGTOREG(a, b) => Self::DIVREGTOREG(a.duplicate(), b.duplicate()),
            Self::STOREREG(a, b) => Self::STOREREG(a.duplicate(), b.duplicate()),
            Self::STOREIMM(a, b) => Self::STOREIMM(a.duplicate(), b.duplicate()),
            Self::STOREMEM(a, b) => Self::STOREMEM(a.duplicate(), b.duplicate()),
            Self::RET(a) => Self::RET(a.duplicate()),
            Self::NEGATIVE(a) => Self::NEGATIVE(a.duplicate()),
            Self::CMPZERO(a) => Self::CMPZERO(a.duplicate()),
            Self::NEGREG(a) => Self::NEGREG(a.duplicate()),
            Self::RETREG(a) => Self::RETREG(a.duplicate()),
            Self::RETIMM(a) => Self::RETIMM(a.duplicate()),
            Self::RETMEM(a) => Self::RETMEM(a.duplicate()),
            Self::RETCALL(a) => Self::RETCALL(a.duplicate()),
            Self::CMPZEROREG(a) => Self::CMPZEROREG(a.duplicate()),
            Self::CMPZEROIMM(a) => Self::CMPZEROIMM(a.duplicate()),
            Self::CMPZEROMEM(a) => Self::CMPZEROMEM(a.duplicate()),
            Self::JMP(l) => Self::JMP(l.clone()),
            Self::JZ(l) => Self::JZ(l.clone()),
            Self::GENPARAM(n, a) => Self::GENPARAM(*n, a.duplicate()),
            Self::GENPARAMIMM(n, a) => Self::GENPARAMIMM(*n, a.duplicate()),
            Self::PUSHPARAM(n, o) => Self::PUSHPARAM(*n, *o),
        }
    }
}

impl X64OpeKind {
    /// The same kind.
    pub fn duplicate(&self) -> (k: Self)
        ensures
            k == *self,
    {
        match self {
            Self::INTLIT(v) => Self::INTLIT(*v),
            Self::REG => Self::REG,
            Self::AUTOVAR(name, offset) => Self::AUTOVAR(name.clone(), *offset),
            Self::CALL(name) => Self::CALL(name.clone()),
            Self::INVALID => Self::INVALID,
        }
    }
}

impl X64Operand {
    /// An operand of the given kind and register numbers.
    pub fn new(kind: X64OpeKind, virt: usize, phys: usize) -> (op: Self)
        ensures
            op == (X64Operand { kind, virt, phys }),
    {
        Self { kind, virt, phys }
    }

    /// rax, which holds intermediate results (allocation number 12).
    pub fn new_rax() -> (op: Self)
        ensures
            op == (X64Operand { kind: X64OpeKind::REG, virt: 0, phys: 12 }),
    {
        Self { kind: X64OpeKind::REG, virt: 0, phys: 12 }
    }

    /// The invalid operand.
    pub fn new_inv() -> (op: Self)
        ensures
            op == (X64Operand { kind: X64OpeKind::INVALID, virt: 0, phys: 0 }),
    {
        Self { kind: X64OpeKind::INVALID, virt: 0, phys: 0 }
    }

    /// The value of an integer literal.
    pub fn int_value(&self) -> (v: i128)
        requires
            self.kind is INTLIT,
        ensures
            v == self.kind->INTLIT_0,
    {
        match self.kind {
            X64OpeKind::INTLIT(value) => value,
            _ => 0,
        }
    }

    /// The name of a stack variable or of a called function.
    pub fn var_name(&self) -> (s: String)
        requires
            self.kind is AUTOVAR || self.kind is CALL,
        ensures
            s@ == operand_name(*self),
    {
        match &self.kind {
            X64OpeKind::AUTOVAR(name, _offset) => name.clone(),
            X64OpeKind::CALL(name) => name.clone(),
            _ => String::new(),
        }
    }

    /// The stack offset of a variable.
    pub fn var_offset(&self) -> (o: usize)
        requires
            self.kind is AUTOVAR,
        ensures
            o == self.kind->AUTOVAR_1,
    {
        match &self.kind {
            X64OpeKind::AUTOVAR(_name, offset) => *offset,
            _ => 0,
        }
    }

    /// The same operand.
    pub fn duplicate(&self) -> (o: Self)
        ensures
            o == *self,
    {
        Self { kind: self.kind.duplicate(), virt: self.virt, phys: self.phys }
    }
}

/// The name a variable or call operand carries.
pub open spec fn operand_name(op: X64Operand) -> Seq<char> {
    match op.kind {
        X64OpeKind::AUTOVAR(name, _) => name@,
        X64OpeKind::CALL(name) => name@,
        _ => Seq::empty(),
    }
}

/// What an instruction does, whatever encoding it is written in.
pub enum X64Op {
    Move,
    Add,
    Sub,
    Mul,
    Div,
    Store,
    Jump,
    JumpIfZero,
    Return,
    Negate,
    CompareZero,
    LoadArg,
    SaveArg,
}

/// The operation of an instruction: an abstract instruction and each of
/// its encodings do the same.
pub open spec fn ir_op(k: X64IRKind) -> X64Op {
    match k {
        X64IRKind::MOV(..) | X64IRKind::MOVIMMTOREG(..) | X64IRKind::MOVREGTOREG(..) | X64IRKind::MOVMEMTOREG(..) => X64Op::Move,
        X64IRKind::ADD(..) | X64IRKind::ADDIMMTOREG(..) | X64IRKind::ADDREGTOREG(..) | X64IRKind::ADDIMMTOVAR(..) => X64Op::Add,
        X64IRKind::SUB(..) | X64IRKind::SUBIMMTOREG(..) | X64IRKind::SUBREGTOREG(..) | X64IRKind::SUBIMMTOVAR(..) => X64Op::Sub,
        X64IRKind::MUL(..) | X64IRKind::MULIMMTOREG(..) | X64IRKind::MULREGTOREG(..) => X64Op::Mul,
        X64IRKind::DIV(..) | X64IRKind::DIVIMMTOREG(..) | X64IRKind::DIVREGTOREG(..) => X64Op::Div,
        X64IRKind::STORE(..) | X64IRKind::STOREREG(..) | X64IRKind::STOREIMM(..) | X64IRKind::STOREMEM(..) => X64Op::Store,
        X64IRKind::JMP(..) => X64Op::Jump,
        X64IRKind::JZ(..) => X64Op::JumpIfZero,
        X64IRKind::RET(..) | X64IRKind::RETREG(..) | X64IRKind::RETIMM(..) | X64IRKind::RETMEM(..) | X64IRKind::RETCALL(..) => X64Op::Return,
        X64IRKind::NEGATIVE(..) | X64IRKind::NEGREG(..) => X64Op::Negate,
        X64IRKind::CMPZERO(..) | X64IRKind::CMPZEROREG(..) | X64IRKind::CMPZEROIMM(..) | X64IRKind::CMPZEROMEM(..) => X64Op::CompareZero,
        X64IRKind::GENPARAM(..) | X64IRKind::GENPARAMIMM(..) => X64Op::LoadArg,
        X64IRKind::PUSHPARAM(..) => X64Op::SaveArg,
    }
}

/// The operands an instruction works on, the destination first.
pub open spec fn ir_operands(k: X64IRKind) -> Seq<X64Operand> {
    match k {
        X64IRKind::MOV(d, s) => seq![d, s],
        X64IRKind::MOVIMMTOREG(d, s) => seq![d, s],
        X64IRKind::MOVREGTOREG(d, s) => seq![d, s],
        X64IRKind::MOVMEMTOREG(d, s) => seq![d, s],
        X64IRKind::ADD(d, s) => seq![d, s],
        X64IRKind::ADDIMMTOREG(d, s) => seq![d, s],
        X64IRKind::ADDREGTOREG(d, s) => seq![d, s],
        X64IRKind::ADDIMMTOVAR(d, s) => seq![d, s],
        X64IRKind::SUB(d, s) => seq![d, s],
        X64IRKind::SUBIMMTOREG(d, s) => seq![d, s],
        X64IRKind::SUBREGTOREG(d, s) => seq![d, s],
        X64IRKind::SUBIMMTOVAR(d, s) => seq![d, s],
        X64IRKind::MUL(d, s) => seq![d, s],
        X64IRKind::MULIMMTOREG(d, s) => seq![d, s],
        X64IRKind::MULREGTOREG(d, s) => seq![d, s],
        X64IRKind::DIV(d, s) => seq![d, s],
        X64IRKind::DIVIMMTOREG(d, s) => seq![d, s],
        X64IRKind::DIVREGTOREG(d, s) => seq![d, s],
        X64IRKind::STORE(d, s) => seq![d, s],
        X64IRKind::STOREREG(d, s) => seq![d, s],
        X64IRKind::STOREIMM(d, s) => seq![d, s],
        X64IRKind::STOREMEM(d, s) => seq![d, s],
        X64IRKind::RET(o) => seq![o],
        X64IRKind::RETREG(o) => seq![o],
        X64IRKind::RETIMM(o) => seq![o],
        X64IRKind::RETMEM(o) => seq![o],
        X64IRKind::RETCALL(o) => seq![o],
        X64IRKind::NEGATIVE(o) => seq![o],
        X64IRKind::NEGREG(o) => seq![o],
        X64IRKind::CMPZERO(o) => seq![o],
        X64IRKind::CMPZEROREG(o) => seq![o],
        X64IRKind::CMPZEROIMM(o) => seq![o],
        X64IRKind::CMPZEROMEM(o) => seq![o],
        X64IRKind::GENPARAM(_, o) => seq![o],
        X64IRKind::GENPARAMIMM(_, o) => seq![o],
        _ => seq![],
    }
}

/// The label an instruction jumps to, if it jumps.
pub open spec fn ir_target(k: X64IRKind) -> Option<Seq<char>> {
    match k {
        X64IRKind::JMP(l) | X64IRKind::JZ(l) => Some(l@),
        _ => None,
    }
}

/// The argument register number and stack offset an instruction names.
pub open spec fn ir_numbers(k: X64IRKind) -> Seq<usize> {
    match k {
        X64IRKind::GENPARAM(n, _) | X64IRKind::GENPARAMIMM(n, _) => seq![n],
        X64IRKind::PUSHPARAM(n, off) => seq![n, off],
        _ => seq![],
    }
}

/// An encoding's operands have the kinds its name says: `REG` a register,
/// `IMM` a literal, `MEM` and `VAR` a stack variable; a returned call is a
/// call.
pub open spec fn encoding_fits(k: X64IRKind) -> bool {
    match k {
        X64IRKind::ADDIMMTOREG(d, s) => d.kind is REG && s.kind is INTLIT,
        X64IRKind::SUBIMMTOREG(d, s) => d.kind is REG && s.kind is INTLIT,
        X64IRKind::ADDREGTOREG(d, s) => d.kind is REG && s.kind is REG,
        X64IRKind::SUBREGTOREG(d, s) => d.kind is REG && s.kind is REG,
        X64IRKind::ADDIMMTOVAR(d, s) => d.kind is AUTOVAR && s.kind is INTLIT,
        X64IRKind::SUBIMMTOVAR(d, s) => d.kind is AUTOVAR && s.kind is INTLIT,
        X64IRKind::MOVIMMTOREG(_, s) => s.kind is INTLIT,
        X64IRKind::MULIMMTOREG(_, s) => s.kind is INTLIT,
        X64IRKind::DIVIMMTOREG(_, s) => s.kind is INTLIT,
        X64IRKind::STOREIMM(_, s) => s.kind is INTLIT,
        X64IRKind::MOVREGTOREG(_, s) => s.kind is REG,
        X64IRKind::MULREGTOREG(_, s) => s.kind is REG,
        X64IRKind::DIVREGTOREG(_, s) => s.kind is REG,
        X64IRKind::STOREREG(_, s) => s.kind is REG,
        X64IRKind::MOVMEMTOREG(_, s) => s.kind is AUTOVAR,
        X64IRKind::STOREMEM(_, s) => s.kind is AUTOVAR,
        X64IRKind::NEGREG(o) => o.kind is REG,
        X64IRKind::RETREG(o) => o.kind is REG,
        X64IRKind::CMPZEROREG(o) => o.kind is REG,
        X64IRKind::RETIMM(o) => o.kind is INTLIT,
        X64IRKind::CMPZEROIMM(o) => o.kind is INTLIT,
        X64IRKind::RETMEM(o) => o.kind is AUTOVAR,
        X64IRKind::CMPZEROMEM(o) => o.kind is AUTOVAR,
        X64IRKind::RETCALL(o) => o.kind is CALL,
        X64IRKind::GENPARAMIMM(_, o) => o.kind is INTLIT,
        _ => true,
    }
}

} // verus!
