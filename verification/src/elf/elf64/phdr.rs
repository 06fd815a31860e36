use vstd::prelude::*;
use vstd::bytes::*;

use crate::elf::elf64::{Elf64Addr, Elf64Off, Elf64Word, Elf64Xword};
use crate::elf::elf64::ehdr::{push_u32_le, push_u64_le};

verus! {

pub const PT_LOAD: Elf64Word = 1;
pub const PF_X: Elf64Word = 1;
pub const PF_W: Elf64Word = 2;
pub const PF_R: Elf64Word = 4;

/// An entry of the program header table.
pub struct Phdr64 {
    pub p_type: Elf64Word,
    pub p_flags: Elf64Word,
    pub p_offset: Elf64Off,
    pub p_vaddr: Elf64Addr,
    pub p_paddr: Elf64Addr,
    pub p_filesz: Elf64Xword,
    pub p_memsz: Elf64Xword,
    pub p_align: Elf64Xword,
}

/// The file image of a program header: every field little-endian, in order.
pub open spec fn phdr_bytes(p: Phdr64) -> Seq<u8> {
    spec_u32_to_le_bytes(p.p_type) + spec_u32_to_le_bytes(p.p_flags)
        + spec_u64_to_le_bytes(p.p_offset) + spec_u64_to_le_bytes(p.p_vaddr)
        + spec_u64_to_le_bytes(p.p_paddr) + spec_u64_to_le_bytes(p.p_filesz)
        + spec_u64_to_le_bytes(p.p_memsz) + spec_u64_to_le_bytes(p.p_align)
}

impl Phdr64 {
    /// A program header with every field zero.
    pub fn new() -> (p: Self)
        ensures
            p.p_type == 0,
            p.p_flags == 0,
            p.p_offset == 0,
            p.p_vaddr == 0,
            p.p_paddr == 0,
            p.p_filesz == 0,
            p.p_memsz == 0,
            p.p_align == 0,
    {
        Self {
            p_type: 0,
            p_flags: 0,
            p_offset: 0,
            p_vaddr: 0,
            p_paddr: 0,
            p_filesz: 0,
            p_memsz: 0,
            p_align: 0,
        }
    }

    /// The size of one program header in the file.
    pub fn size() -> (n: usize)
        ensures
            n == 0x38,
    {
        0x38
    }

    /// The header's file image (see `phdr_bytes`), always `size()` bytes long.
    pub fn to_binary(&self) -> (bytes: Vec<u8>)
        ensures
            bytes@ == phdr_bytes(*self),
            bytes@.len() == 0x38,
    {
        proof {
            lemma_auto_spec_u32_to_from_le_bytes();
            lemma_auto_spec_u64_to_from_le_bytes();
        }
        let mut bytes: Vec<u8> = Vec::new();
        push_u32_le(&mut bytes, self.p_type);
        push_u32_le(&mut bytes, self.p_flags);
        push_u64_le(&mut bytes, self.p_offset);
        push_u64_le(&mut bytes, self.p_vaddr);
        push_u64_le(&mut bytes, self.p_paddr);
        push_u64_le(&mut bytes, self.p_filesz);
        push_u64_le(&mut bytes, self.p_memsz);
        push_u64_le(&mut bytes, self.p_align);
        assert(bytes@ =~= phdr_bytes(*self));
        bytes
    }
}

} // verus!
