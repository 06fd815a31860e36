use vstd::prelude::*;
use vstd::bytes::*;

use crate::elf::elf64::{Elf64Addr, Elf64Half, Elf64Off, Elf64Word, NIdentSize};
use crate::elf::elf64::phdr::Phdr64;
use crate::elf::elf64::shdr::Shdr64;

verus! {

pub const ELFCLASS64: NIdentSize = 0x02;
pub const ELFDATA2LSB: NIdentSize = 0x01;
pub const ELFOSABI_SYSV: NIdentSize = 0x00;
pub const EV_CURRENT: NIdentSize = 0x01;

pub const ET_REL: Elf64Half = 0x01;
pub const ET_EXEC: Elf64Half = 0x02;
pub const EM_X86_64: Elf64Half = 0x3e;

/// The ELF file header.
pub struct Ehdr64 {
    pub e_ident: NIdentSize,
    pub e_type: Elf64Half,
    pub e_machine: Elf64Half,
    pub e_version: Elf64Word,
    pub e_entry: Elf64Addr,
    pub e_phoff: Elf64Off,
    pub e_shoff: Elf64Off,
    pub e_flags: Elf64Word,
    pub e_ehsize: Elf64Half,
    pub e_phentsize: Elf64Half,
    pub e_phnum: Elf64Half,
    pub e_shentsize: Elf64Half,
    pub e_shnum: Elf64Half,
    pub e_shstrndx: Elf64Half,
}

/// The sixteen identification bytes, most significant byte first.
pub open spec fn spec_u128_to_be_bytes(x: u128) -> Seq<u8> {
    spec_u128_to_le_bytes(x).reverse()
}

/// The file image of an ELF header: the identification bytes in big-endian
/// order, every other field little-endian, in declaration order.
pub open spec fn ehdr_bytes(h: Ehdr64) -> Seq<u8> {
    spec_u128_to_be_bytes(h.e_ident)
        + spec_u16_to_le_bytes(h.e_type)
        + spec_u16_to_le_bytes(h.e_machine)
        + spec_u32_to_le_bytes(h.e_version)
        + spec_u64_to_le_bytes(h.e_entry)
        + spec_u64_to_le_bytes(h.e_phoff)
        + spec_u64_to_le_bytes(h.e_shoff)
        + spec_u32_to_le_bytes(h.e_flags)
        + spec_u16_to_le_bytes(h.e_ehsize)
        + spec_u16_to_le_bytes(h.e_phentsize)
        + spec_u16_to_le_bytes(h.e_phnum)
        + spec_u16_to_le_bytes(h.e_shentsize)
        + spec_u16_to_le_bytes(h.e_shnum)
        + spec_u16_to_le_bytes(h.e_shstrndx)
}

/// The identification field of a relocatable x86_64 object:
/// magic number, 64-bit class, little-endian data, current version, System V ABI.
pub open spec fn object_file_ident() -> u128 {
    0x7f454c46020101000000000000000000
}

/// Appends the big-endian bytes of `x` to `bytes`.
pub fn push_u128_be(bytes: &mut Vec<u8>, x: u128)
    ensures
        final(bytes)@ == old(bytes)@ + spec_u128_to_be_bytes(x),
{
    let le = u128_to_le_bytes(x);
    let ghost start = bytes@;
    let mut i: usize = 16;
    while i > 0
        invariant
            le@.len() == 16,
            0 <= i <= 16,
            bytes@ == start + le@.reverse().subrange(0, 16 - i as int),
        decreases i,
    {
        i = i - 1;
        bytes.push(le[i]);
        assert(le@.reverse().subrange(0, 16 - i as int) =~= le@.reverse().subrange(
            0,
            15 - i as int,
        ).push(le@[i as int]));
    }
    assert(le@.reverse().subrange(0, 16) =~= le@.reverse());
}

/// Appends the little-endian bytes of a 16-bit value.
pub fn push_u16_le(bytes: &mut Vec<u8>, x: u16)
    ensures
        final(bytes)@ == old(bytes)@ + spec_u16_to_le_bytes(x),
{
    let mut b = u16_to_le_bytes(x);
    bytes.append(&mut b);
}

/// Appends the little-endian bytes of a 32-bit value.
pub fn push_u32_le(bytes: &mut Vec<u8>, x: u32)
    ensures
        final(bytes)@ == old(bytes)@ + spec_u32_to_le_bytes(x),
{
    let mut b = u32_to_le_bytes(x);
    bytes.append(&mut b);
}

/// Appends the little-endian bytes of a 64-bit value.
pub fn push_u64_le(bytes: &mut Vec<u8>, x: u64)
    ensures
        final(bytes)@ == old(bytes)@ + spec_u64_to_le_bytes(x),
{
    let mut b = u64_to_le_bytes(x);
    bytes.append(&mut b);
}

impl Ehdr64 {
    /// The header of an empty relocatable x86_64 object file.
    pub fn new_for_object_file() -> (h: Self)
        ensures
            h.e_ident == object_file_ident(),
            h.e_type == ET_REL,
            h.e_machine == EM_X86_64,
            h.e_version == 1,
            h.e_entry == 0,
            h.e_phoff == 0,
            h.e_shoff == 0,
            h.e_flags == 0,
            h.e_ehsize == 0x40,
            h.e_phentsize == 0x38,
            h.e_phnum == 0,
            h.e_shentsize == 0x40,
            h.e_shnum == 0,
            h.e_shstrndx == 0,
    {
        let ident = Self::magic_number() | Self::elf_class64() | Self::elf_lsb()
            | Self::current_version() | Self::elf_osabi_sysv();
        assert(0x7f454c46000000000000000000000000u128 | 0x020000000000000000000000u128
            | 0x0100000000000000000000u128 | 0x01000000000000000000u128 | 0u128
            == 0x7f454c46020101000000000000000000u128) by (bit_vector);
        Self {
            e_ident: ident,
            e_type: ET_REL,
            e_machine: EM_X86_64,
            e_version: 1,
            e_entry: 0x0,
            e_phoff: 0x0,
            e_shoff: 0x0,
            e_flags: 0x0,
            e_ehsize: Self::size(),
            e_phentsize: Phdr64::size() as Elf64Half,
            e_phnum: 0x0,
            e_shentsize: Shdr64::size() as Elf64Half,
            e_shnum: 0x0,
            e_shstrndx: 0x0,
        }
    }

    /// The header's file image (see `ehdr_bytes`), always `size()` bytes long.
    pub fn to_binary(&self) -> (bytes: Vec<u8>)
        ensures
            bytes@ == ehdr_bytes(*self),
            bytes@.len() == 0x40,
    {
        proof {
            lemma_auto_spec_u16_to_from_le_bytes();
            lemma_auto_spec_u32_to_from_le_bytes();
            lemma_auto_spec_u64_to_from_le_bytes();
            lemma_auto_spec_u128_to_from_le_bytes();
        }
        let mut bytes: Vec<u8> = Vec::new();
        push_u128_be(&mut bytes, self.e_ident);
        push_u16_le(&mut bytes, self.e_type);
        push_u16_le(&mut bytes, self.e_machine);
        push_u32_le(&mut bytes, self.e_version);
        push_u64_le(&mut bytes, self.e_entry);
        push_u64_le(&mut bytes, self.e_phoff);
        push_u64_le(&mut bytes, self.e_shoff);
        push_u32_le(&mut bytes, self.e_flags);
        push_u16_le(&mut bytes, self.e_ehsize);
        push_u16_le(&mut bytes, self.e_phentsize);
        push_u16_le(&mut bytes, self.e_phnum);
        push_u16_le(&mut bytes, self.e_shentsize);
        push_u16_le(&mut bytes, self.e_shnum);
        push_u16_le(&mut bytes, self.e_shstrndx);
        assert(bytes@ =~= ehdr_bytes(*self));
        bytes
    }

    /// The size of an ELF header in the file.
    pub fn size() -> (n: u16)
        ensures
            n == 0x40,
    {
        0x40
    }

    /// The magic number `\x7fELF` in the top four identification bytes.
    pub fn magic_number() -> (n: NIdentSize)
        ensures
            n == 0x7f454c46000000000000000000000000,
    {
        assert(0x7f454c46u128 << 96u128 == 0x7f454c46000000000000000000000000u128) by (bit_vector);
        0x7f454c46 << 96
    }

    /// The class byte (64-bit objects) in its identification position.
    pub fn elf_class64() -> (n: NIdentSize)
        ensures
            n == 0x020000000000000000000000,
    {
        assert(2u128 << 88u128 == 0x020000000000000000000000u128) by (bit_vector);
        ELFCLASS64 << 88
    }

    /// The data-encoding byte (little-endian) in its identification position.
    pub fn elf_lsb() -> (n: NIdentSize)
        ensures
            n == 0x0100000000000000000000,
    {
        assert(1u128 << 80u128 == 0x0100000000000000000000u128) by (bit_vector);
        ELFDATA2LSB << 80
    }

    /// The version byte in its identification position.
    pub fn current_version() -> (n: NIdentSize)
        ensures
            n == 0x01000000000000000000,
    {
        assert(1u128 << 72u128 == 0x01000000000000000000u128) by (bit_vector);
        EV_CURRENT << 72
    }

    /// The OS/ABI byte (System V) in its identification position.
    pub fn elf_osabi_sysv() -> (n: NIdentSize)
        ensures
            n == 0,
    {
        assert(0u128 << 64u128 == 0u128) by (bit_vector);
        ELFOSABI_SYSV << 64
    }
}

} // verus!
