use vstd::prelude::*;
use vstd::bytes::*;
use vstd::slice::slice_subrange;

use crate::elf::elf64::{Elf64Addr, Elf64Section, Elf64Word, Elf64Xword};
use crate::elf::elf64::ehdr::{push_u16_le, push_u32_le, push_u64_le};

verus! {

pub const STB_GLOBAL: u8 = 1;
pub const STT_FUNC: u8 = 2;

/// An entry of the symbol table.
pub struct Symbol64 {
    pub st_name: Elf64Word,
    pub st_info: u8,
    pub st_other: u8,
    pub st_shndx: Elf64Section,
    pub st_value: Elf64Addr,
    pub st_size: Elf64Xword,
}

/// The file image of a symbol: every field little-endian, in order.
pub open spec fn symbol_bytes(s: Symbol64) -> Seq<u8> {
    spec_u32_to_le_bytes(s.st_name) + seq![s.st_info, s.st_other]
        + spec_u16_to_le_bytes(s.st_shndx) + spec_u64_to_le_bytes(s.st_value)
        + spec_u64_to_le_bytes(s.st_size)
}

/// The symbol whose file image starts `b` (which holds at least 24 bytes).
pub open spec fn symbol_from_bytes(b: Seq<u8>) -> Symbol64 {
    Symbol64 {
        st_name: spec_u32_from_le_bytes(b.subrange(0, 4)),
        st_info: b[4],
        st_other: b[5],
        st_shndx: spec_u16_from_le_bytes(b.subrange(6, 8)),
        st_value: spec_u64_from_le_bytes(b.subrange(8, 16)),
        st_size: spec_u64_from_le_bytes(b.subrange(16, 24)),
    }
}

/// The symbol with every field zero.
pub open spec fn null_symbol() -> Symbol64 {
    Symbol64 { st_name: 0, st_info: 0, st_other: 0, st_shndx: 0, st_value: 0, st_size: 0 }
}

/// The image of a list of symbols: their images one after another.
pub open spec fn symbols_bytes(syms: Seq<Symbol64>) -> Seq<u8>
    decreases syms.len(),
{
    if syms.len() == 0 {
        Seq::empty()
    } else {
        symbols_bytes(syms.drop_last()) + symbol_bytes(syms.last())
    }
}

/// Reading back the image of a symbol gives the symbol.
pub proof fn lemma_symbol_roundtrip(s: Symbol64)
    ensures
        symbol_bytes(s).len() == 24,
        symbol_from_bytes(symbol_bytes(s)) == s,
{
    lemma_auto_spec_u16_to_from_le_bytes();
    lemma_auto_spec_u32_to_from_le_bytes();
    lemma_auto_spec_u64_to_from_le_bytes();
    let b = symbol_bytes(s);
    assert(b.subrange(0, 4) =~= spec_u32_to_le_bytes(s.st_name));
    assert(b.subrange(6, 8) =~= spec_u16_to_le_bytes(s.st_shndx));
    assert(b.subrange(8, 16) =~= spec_u64_to_le_bytes(s.st_value));
    assert(b.subrange(16, 24) =~= spec_u64_to_le_bytes(s.st_size));
}

/// Writing out a symbol read from 24 bytes gives those bytes back.
pub proof fn lemma_symbol_bytes_roundtrip(b: Seq<u8>)
    requires
        b.len() >= 24,
    ensures
        symbol_bytes(symbol_from_bytes(b)) == b.subrange(0, 24),
{
    lemma_auto_spec_u16_to_from_le_bytes();
    lemma_auto_spec_u32_to_from_le_bytes();
    lemma_auto_spec_u64_to_from_le_bytes();
    assert(b.subrange(0, 4).len() == 4);
    assert(b.subrange(6, 8).len() == 2);
    assert(b.subrange(8, 16).len() == 8);
    assert(b.subrange(16, 24).len() == 8);
    assert(symbol_bytes(symbol_from_bytes(b)) =~= b.subrange(0, 24));
}

impl Symbol64 {
    /// The size of one symbol table entry.
    pub fn size() -> (n: usize)
        ensures
            n == 24,
    {
        24
    }

    /// The null symbol: every field zero.
    pub fn new_null_symbol() -> (s: Self)
        ensures
            s == null_symbol(),
    {
        Self { st_name: 0, st_info: 0, st_other: 0, st_shndx: 0, st_value: 0, st_size: 0 }
    }

    /// A global function symbol in section 1 (`.text`), named by the string
    /// table index `name_i`, `length` bytes long at `offset`.
    pub fn new_global_function(name_i: Elf64Word, length: Elf64Xword, offset: Elf64Addr) -> (s: Self)
        ensures
            s == (Symbol64 {
                st_name: name_i,
                st_info: 0x12,
                st_other: 0,
                st_shndx: 1,
                st_value: offset,
                st_size: length,
            }),
    {
        assert((1u8 << 4u8) == 16u8) by (bit_vector);
        Self {
            st_name: name_i,
            st_info: (STB_GLOBAL << 4u8) + STT_FUNC,
            st_other: 0,
            st_shndx: 1,
            st_value: offset,
            st_size: length,
        }
    }

    /// The symbol's file image (see `symbol_bytes`), always 24 bytes long.
    pub fn to_binary(&self) -> (bytes: Vec<u8>)
        ensures
            bytes@ == symbol_bytes(*self),
            bytes@.len() == 24,
    {
        proof {
            lemma_auto_spec_u16_to_from_le_bytes();
            lemma_auto_spec_u32_to_from_le_bytes();
            lemma_auto_spec_u64_to_from_le_bytes();
        }
        let mut bytes: Vec<u8> = Vec::new();
        push_u32_le(&mut bytes, self.st_name);
        bytes.push(self.st_info);
        bytes.push(self.st_other);
        push_u16_le(&mut bytes, self.st_shndx);
        push_u64_le(&mut bytes, self.st_value);
        push_u64_le(&mut bytes, self.st_size);
        assert(bytes@ =~= symbol_bytes(*self));
        bytes
    }

    /// Reads the symbol whose image starts `binary`.
    pub fn new_unsafe(binary: Vec<u8>) -> (s: Self)
        requires
            binary@.len() >= 24,
        ensures
            s == symbol_from_bytes(binary@),
    {
        let b = binary.as_slice();
        Self {
            st_name: u32_from_le_bytes(slice_subrange(b, 0, 4)),
            st_info: binary[4],
            st_other: binary[5],
            st_shndx: u16_from_le_bytes(slice_subrange(b, 6, 8)),
            st_value: u64_from_le_bytes(slice_subrange(b, 8, 16)),
            st_size: u64_from_le_bytes(slice_subrange(b, 16, 24)),
        }
    }

    /// The images of `symbols`, one after another.
    pub fn symbols_to_binary(symbols: Vec<Symbol64>) -> (bytes: Vec<u8>)
        ensures
            bytes@ == symbols_bytes(symbols@),
            bytes@.len() == 24 * symbols@.len(),
    {
        let mut bytes: Vec<u8> = Vec::new();
        let mut i: usize = 0;
        while i < symbols.len()
            invariant
                0 <= i <= symbols@.len(),
                bytes@ == symbols_bytes(symbols@.subrange(0, i as int)),
                bytes@.len() == 24 * i,
            decreases symbols@.len() - i,
        {
            let mut one = symbols[i].to_binary();
            bytes.append(&mut one);
            assert(symbols@.subrange(0, i + 1).drop_last() =~= symbols@.subrange(0, i as int));
            i = i + 1;
        }
        assert(symbols@.subrange(0, i as int) =~= symbols@);
        bytes
    }
}

} // verus!
