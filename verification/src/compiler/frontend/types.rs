use vstd::prelude::*;

use crate::compiler::frontend::token::{Token, TokenKind};

verus! {

/// A C type and its size in bytes.
#[derive(PartialEq, Eq, Debug)]
pub struct Type {
    pub kind: TypeKind,
    pub byte_size: usize,
}

/// The kinds of C types.
#[derive(PartialEq, Eq, Debug)]
pub enum TypeKind {
    INTEGER,
    VOID,
    POINTER(Box<Type>),
    UNKNOWN,
}

/// The type a type keyword names.
pub open spec fn type_of_token(k: TokenKind) -> Type {
    if k is INT {
        Type { kind: TypeKind::INTEGER, byte_size: 8 }
    } else {
        Type { kind: TypeKind::VOID, byte_size: 0 }
    }
}

impl Type {
    /// The type a type keyword (`int` or `void`) names.
    pub fn from_token(tk: Token) -> (t: Self)
        requires
            tk.kind is INT || tk.kind is VOID,
        ensures
            t == type_of_token(tk.kind),
    {
        match tk.kind {
            TokenKind::INT => Self::new_integer(),
            _ => Self::new_void(),
        }
    }

    /// `void`, of size 0.
    pub fn new_void() -> (t: Self)
        ensures
            t == (Type { kind: TypeKind::VOID, byte_size: 0 }),
    {
        Self { kind: TypeKind::VOID, byte_size: 0 }
    }

    /// `int`, of size 8 (the ABI's `sizeof(int)`).
    pub fn new_integer() -> (t: Self)
        ensures
            t == (Type { kind: TypeKind::INTEGER, byte_size: 8 }),
    {
        Self { kind: TypeKind::INTEGER, byte_size: 8 }
    }

    /// A pointer to `base`, of size 8.
    pub fn pointer_to(base: Self) -> (t: Self)
        ensures
            t == (Type { kind: TypeKind::POINTER(Box::new(base)), byte_size: 8 }),
    {
        Self { kind: TypeKind::POINTER(Box::new(base)), byte_size: 8 }
    }

    /// The type not yet known, of size 4.
    pub fn new_unknown() -> (t: Self)
        ensures
            t == (Type { kind: TypeKind::UNKNOWN, byte_size: 4 }),
    {
        Self { kind: TypeKind::UNKNOWN, byte_size: 4 }
    }

    /// The same type.
    pub fn duplicate(&self) -> (t: Self)
        ensures
            t == *self,
        decreases self,
    {
        let kind = match &self.kind {
            TypeKind::INTEGER => TypeKind::INTEGER,
            TypeKind::VOID => TypeKind::VOID,
            TypeKind::POINTER(base) => TypeKind::POINTER(Box::new(base.duplicate())),
            TypeKind::UNKNOWN => TypeKind::UNKNOWN,
        };
        Self { kind, byte_size: self.byte_size }
    }

    /// Whether two types are the same.
    pub fn same_type(&self, other: &Type) -> (b: bool)
        ensures
            b == (*self == *other),
        decreases self,
    {
        if self.byte_size != other.byte_size {
            return false;
        }
        match (&self.kind, &other.kind) {
            (TypeKind::INTEGER, TypeKind::INTEGER) => true,
            (TypeKind::VOID, TypeKind::VOID) => true,
            (TypeKind::UNKNOWN, TypeKind::UNKNOWN) => true,
            (TypeKind::POINTER(a), TypeKind::POINTER(b)) => a.same_type(b),
            _ => false,
        }
    }
}

} // verus!
