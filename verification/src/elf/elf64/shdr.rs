use vstd::prelude::*;
use vstd::bytes::*;

use crate::elf::elf64::{Elf64Addr, Elf64Off, Elf64Word, Elf64Xword};
use crate::elf::elf64::ehdr::{push_u32_le, push_u64_le};
use crate::elf::elf64::rela::Rela64;
use crate::elf::elf64::symbol::Symbol64;

verus! {

pub const SHT_PROGBITS: Elf64Word = 1;
pub const SHT_SYMTAB: Elf64Word = 2;
pub const SHT_STRTAB: Elf64Word = 3;
pub const SHT_RELA: Elf64Word = 4;

pub const SHF_ALLOC: Elf64Xword = 2;
pub const SHF_EXECINSTR: Elf64Xword = 4;
pub const SHF_INFO_LINK: Elf64Xword = 64;

/// An entry of the section header table.
pub struct Shdr64 {
    pub sh_name: Elf64Word,
    pub sh_type: Elf64Word,
    pub sh_flags: Elf64Xword,
    pub sh_addr: Elf64Addr,
    pub sh_offset: Elf64Off,
    pub sh_size: Elf64Xword,
    pub sh_link: Elf64Word,
    pub sh_info: Elf64Word,
    pub sh_addralign: Elf64Xword,
    pub sh_entsize: Elf64Xword,
}

/// The file image of a section header: every field little-endian, in order.
pub open spec fn shdr_bytes(h: Shdr64) -> Seq<u8> {
    spec_u32_to_le_bytes(h.sh_name) + spec_u32_to_le_bytes(h.sh_type)
        + spec_u64_to_le_bytes(h.sh_flags) + spec_u64_to_le_bytes(h.sh_addr)
        + spec_u64_to_le_bytes(h.sh_offset) + spec_u64_to_le_bytes(h.sh_size)
        + spec_u32_to_le_bytes(h.sh_link) + spec_u32_to_le_bytes(h.sh_info)
        + spec_u64_to_le_bytes(h.sh_addralign) + spec_u64_to_le_bytes(h.sh_entsize)
}

/// A section header with the given kind fields and everything else zero
/// (name, address and offset are filled in later).
pub open spec fn shdr_with(
    sh_type: Elf64Word,
    sh_flags: Elf64Xword,
    sh_size: Elf64Xword,
    sh_link: Elf64Word,
    sh_info: Elf64Word,
    sh_addralign: Elf64Xword,
    sh_entsize: Elf64Xword,
) -> Shdr64 {
    Shdr64 {
        sh_name: 0,
        sh_type,
        sh_flags,
        sh_addr: 0,
        sh_offset: 0,
        sh_size,
        sh_link,
        sh_info,
        sh_addralign,
        sh_entsize,
    }
}

impl Shdr64 {
    /// The header's file image (see `shdr_bytes`), always `size()` bytes long.
    pub fn to_binary(&self) -> (bytes: Vec<u8>)
        ensures
            bytes@ == shdr_bytes(*self),
            bytes@.len() == 0x40,
    {
        proof {
            lemma_auto_spec_u32_to_from_le_bytes();
            lemma_auto_spec_u64_to_from_le_bytes();
        }
        let mut bytes: Vec<u8> = Vec::new();
        push_u32_le(&mut bytes, self.sh_name);
        push_u32_le(&mut bytes, self.sh_type);
        push_u64_le(&mut bytes, self.sh_flags);
        push_u64_le(&mut bytes, self.sh_addr);
        push_u64_le(&mut bytes, self.sh_offset);
        push_u64_le(&mut bytes, self.sh_size);
        push_u32_le(&mut bytes, self.sh_link);
        push_u32_le(&mut bytes, self.sh_info);
        push_u64_le(&mut bytes, self.sh_addralign);
        push_u64_le(&mut bytes, self.sh_entsize);
        assert(bytes@ =~= shdr_bytes(*self));
        bytes
    }

    /// The size of one section header in the file.
    pub fn size() -> (n: usize)
        ensures
            n == 0x40,
    {
        0x40
    }

    /// The header of the null section: every field zero.
    pub fn new_null_shdr() -> (h: Self)
        ensures
            h == shdr_with(0, 0, 0, 0, 0, 0, 0),
    {
        Self {
            sh_name: 0,
            sh_type: 0,
            sh_flags: 0,
            sh_addr: 0,
            sh_offset: 0,
            sh_size: 0,
            sh_link: 0,
            sh_info: 0,
            sh_addralign: 0,
            sh_entsize: 0,
        }
    }

    /// The header of `.text`: allocated, executable program bits of `size` bytes.
    pub fn init_text_header(size: Elf64Xword) -> (h: Self)
        ensures
            h == shdr_with(SHT_PROGBITS, SHF_ALLOC | SHF_EXECINSTR, size, 0, 0, 1, 0),
    {
        Self {
            sh_name: 0,
            sh_type: SHT_PROGBITS,
            sh_flags: SHF_ALLOC | SHF_EXECINSTR,
            sh_addr: 0,
            sh_offset: 0,
            sh_size: size,
            sh_link: 0,
            sh_info: 0,
            sh_addralign: 1,
            sh_entsize: 0,
        }
    }

    /// The header of `.symtab`: linked to section 3 (`.strtab`), with the first
    /// global symbol at index 1 and entries of `Symbol64::size()` bytes.
    pub fn init_symtab_header(size: Elf64Xword) -> (h: Self)
        ensures
            h == shdr_with(SHT_SYMTAB, 0, size, 3, 1, 1, 24),
    {
        Self {
            sh_name: 0,
            sh_type: SHT_SYMTAB,
            sh_flags: 0,
            sh_addr: 0,
            sh_offset: 0,
            sh_size: size,
            sh_link: 3,
            sh_info: 1,
            sh_addralign: 1,
            sh_entsize: Symbol64::size() as Elf64Xword,
        }
    }

    /// The header of a string table of `size` bytes.
    pub fn init_strtab_header(size: Elf64Xword) -> (h: Self)
        ensures
            h == shdr_with(SHT_STRTAB, 0, size, 0, 0, 1, 0),
    {
        Self {
            sh_name: 0,
            sh_type: SHT_STRTAB,
            sh_flags: 0,
            sh_addr: 0,
            sh_offset: 0,
            sh_size: size,
            sh_link: 0,
            sh_info: 0,
            sh_addralign: 1,
            sh_entsize: 0,
        }
    }

    /// The header of `.rela.text`: linked to section 2 (`.symtab`), applying to
    /// section 1 (`.text`), with entries of `Rela64::size()` bytes.
    pub fn init_relatext_header(size: Elf64Xword) -> (h: Self)
        ensures
            h == shdr_with(SHT_RELA, SHF_INFO_LINK, size, 2, 1, 8, 24),
    {
        Self {
            sh_name: 0,
            sh_type: SHT_RELA,
            sh_flags: SHF_INFO_LINK,
            sh_addr: 0,
            sh_offset: 0,
            sh_size: size,
            sh_link: 2,
            sh_info: 1,
            sh_addralign: 8,
            sh_entsize: Rela64::size() as Elf64Xword,
        }
    }
}

} // verus!
