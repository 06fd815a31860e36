use vstd::prelude::*;

use crate::compiler::frontend::token::Position;

verus! {

/// A diagnostic: what kind of error, what went wrong, and where.
pub struct Error {
    pub kind: ErrorKind,
    pub message: ErrorMsg,
    pub position: Position,
}

/// The phase an error belongs to.
pub enum ErrorKind {
    Parse,
    Type,
    GenIR,
    RegAlloc,
    Compile,
    AsmParse,
}

/// What went wrong.
pub enum ErrorMsg {
    MustBePrimary,
    InvalidNodeCantHaveType,
    MustBeSameTypeInBinaryOperation,
    CantSupportSuchAnArchitecture,
    CantUseNoMoreRegisters,
    InvalidCFileOrDirectory,
    MustBeIntegerLiteral,
    InvalidOperand,
    MustSpecifySymbolNameInGlobalDirective,
}

/// The name printed for an error kind.
pub open spec fn kind_text(k: ErrorKind) -> Seq<char> {
    match k {
        ErrorKind::Parse => "ParseError"@,
        ErrorKind::Type => "TypeError"@,
        ErrorKind::GenIR => "GenerateIRError"@,
        ErrorKind::RegAlloc => "RegisterAllocationError"@,
        ErrorKind::Compile => "CompileError"@,
        ErrorKind::AsmParse => "AssemblyParseError"@,
    }
}

/// The text printed for an error message.
pub open spec fn message_text(m: ErrorMsg) -> Seq<char> {
    match m {
        ErrorMsg::MustBePrimary => "must be (identifier | constant-expr | paren-expr | string_literal | `_Generic`)"@,
        ErrorMsg::InvalidNodeCantHaveType => "invalid node can't have any types"@,
        ErrorMsg::MustBeSameTypeInBinaryOperation => "two expression must be same type in binary operation"@,
        ErrorMsg::CantSupportSuchAnArchitecture => "not supporting such an architecture yet"@,
        ErrorMsg::CantUseNoMoreRegisters => "can't use no more registers"@,
        ErrorMsg::InvalidCFileOrDirectory => "invalid c file or directory given"@,
        ErrorMsg::MustBeIntegerLiteral => "must be integer-literal"@,
        ErrorMsg::InvalidOperand => "invalid operand"@,
        ErrorMsg::MustSpecifySymbolNameInGlobalDirective => "must specify symbol name in global directive"@,
    }
}

impl Error {
    /// An error of the given kind and message at `pos`.
    pub fn new(kind: ErrorKind, pos: Position, msg: ErrorMsg) -> (e: Self)
        ensures
            e == (Error { kind, message: msg, position: pos }),
    {
        Self { kind, message: msg, position: pos }
    }

    /// The error an unsupported architecture gives.
    pub fn cant_support_architecture() -> (e: Self)
        ensures
            e == (Error { kind: ErrorKind::Compile, message: ErrorMsg::CantSupportSuchAnArchitecture, position: (0, 0) }),
    {
        Self::new(ErrorKind::Compile, (0, 0), ErrorMsg::CantSupportSuchAnArchitecture)
    }

    /// The name of the error's kind.
    pub fn kind_string(&self) -> (s: &'static str)
        ensures
            s@ == kind_text(self.kind),
    {
        self.kind.string()
    }

    /// The text of the error's message.
    pub fn message_string(&self) -> (s: &'static str)
        ensures
            s@ == message_text(self.message),
    {
        self.message.string()
    }
}

impl ErrorKind {
    /// The name printed for the kind.
    pub fn string(&self) -> (s: &'static str)
        ensures
            s@ == kind_text(*self),
    {
        match self {
            Self::Parse => "ParseError",
            Self::Type => "TypeError",
            Self::GenIR => "GenerateIRError",
            Self::RegAlloc => "RegisterAllocationError",
            Self::Compile => "CompileError",
            Self::AsmParse => "AssemblyParseError",
        }
    }
}

impl ErrorMsg {
    /// The text printed for the message.
    pub fn string(&self) -> (s: &'static str)
        ensures
            s@ == message_text(*self),
    {
        match self {
            Self::MustBePrimary => "must be (identifier | constant-expr | paren-expr | string_literal | `_Generic`)",
            Self::InvalidNodeCantHaveType => "invalid node can't have any types",
            Self::MustBeSameTypeInBinaryOperation => "two expression must be same type in binary operation",
            Self::CantSupportSuchAnArchitecture => "not supporting such an architecture yet",
            Self::CantUseNoMoreRegisters => "can't use no more registers",
            Self::InvalidCFileOrDirectory => "invalid c file or directory given",
            Self::MustBeIntegerLiteral => "must be integer-literal",
            Self::InvalidOperand => "invalid operand",
            Self::MustSpecifySymbolNameInGlobalDirective => "must specify symbol name in global directive",
        }
    }
}

} // verus!
