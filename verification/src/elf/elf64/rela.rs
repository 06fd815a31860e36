use vstd::prelude::*;
use vstd::bytes::*;
use vstd::slice::slice_subrange;

use crate::elf::elf64::{Elf64Addr, Elf64Sxword, Elf64Xword};
use crate::elf::elf64::ehdr::push_u64_le;

verus! {

/// A relocation entry with addend.
pub struct Rela64 {
    pub r_offset: Elf64Addr,
    pub r_info: Elf64Xword,
    pub r_addend: Elf64Sxword,
}

/// The file image of a relocation: every field little-endian (the addend in
/// two's complement), in order.
pub open spec fn rela_bytes(r: Rela64) -> Seq<u8> {
    spec_u64_to_le_bytes(r.r_offset) + spec_u64_to_le_bytes(r.r_info)
        + spec_u64_to_le_bytes(r.r_addend as u64)
}

/// The relocation whose file image starts `b` (which holds at least 24 bytes).
pub open spec fn rela_from_bytes(b: Seq<u8>) -> Rela64 {
    Rela64 {
        r_offset: spec_u64_from_le_bytes(b.subrange(0, 8)),
        r_info: spec_u64_from_le_bytes(b.subrange(8, 16)),
        r_addend: spec_u64_from_le_bytes(b.subrange(16, 24)) as i64,
    }
}

/// Reading back the image of a relocation gives the relocation.
pub proof fn lemma_rela_roundtrip(r: Rela64)
    ensures
        rela_bytes(r).len() == 24,
        rela_from_bytes(rela_bytes(r)) == r,
{
    lemma_auto_spec_u64_to_from_le_bytes();
    let b = rela_bytes(r);
    assert(b.subrange(0, 8) =~= spec_u64_to_le_bytes(r.r_offset));
    assert(b.subrange(8, 16) =~= spec_u64_to_le_bytes(r.r_info));
    assert(b.subrange(16, 24) =~= spec_u64_to_le_bytes(r.r_addend as u64));
    let a = r.r_addend;
    assert((a as u64) as i64 == a) by (bit_vector);
}

/// Writing out a relocation read from 24 bytes gives those bytes back.
pub proof fn lemma_rela_bytes_roundtrip(b: Seq<u8>)
    requires
        b.len() >= 24,
    ensures
        rela_bytes(rela_from_bytes(b)) == b.subrange(0, 24),
{
    lemma_auto_spec_u64_to_from_le_bytes();
    assert(b.subrange(0, 8).len() == 8);
    assert(b.subrange(8, 16).len() == 8);
    assert(b.subrange(16, 24).len() == 8);
    let x = spec_u64_from_le_bytes(b.subrange(16, 24));
    assert((x as i64) as u64 == x) by (bit_vector);
    assert(rela_bytes(rela_from_bytes(b)) =~= b.subrange(0, 24));
}

impl Rela64 {
    /// A relocation at offset 0 with info 0 and the given addend.
    pub fn new(addend: Elf64Sxword) -> (r: Self)
        ensures
            r == (Rela64 { r_offset: 0, r_info: 0, r_addend: addend }),
    {
        Self { r_offset: 0, r_info: 0, r_addend: addend }
    }

    /// Reads the relocation whose image starts `binary`.
    pub fn new_unsafe(binary: Vec<u8>) -> (r: Self)
        requires
            binary@.len() >= 24,
        ensures
            r == rela_from_bytes(binary@),
    {
        let b = binary.as_slice();
        let addend = u64_from_le_bytes(slice_subrange(b, 16, 24));
        Self {
            r_offset: u64_from_le_bytes(slice_subrange(b, 0, 8)),
            r_info: u64_from_le_bytes(slice_subrange(b, 8, 16)),
            r_addend: addend as i64,
        }
    }

    /// The symbol table index held in the upper half of `info`.
    pub fn bind(info: u64) -> (idx: usize)
        ensures
            idx == info >> 32u64,
    {
        assert(info >> 32u64 <= 0xffff_ffffu64) by (bit_vector);
        (info >> 32) as usize
    }

    /// The size of one relocation entry.
    pub fn size() -> (n: usize)
        ensures
            n == 24,
    {
        24
    }

    /// The relocation's file image (see `rela_bytes`), always 24 bytes long.
    pub fn to_binary(&self) -> (bytes: Vec<u8>)
        ensures
            bytes@ == rela_bytes(*self),
            bytes@.len() == 24,
    {
        proof {
            lemma_auto_spec_u64_to_from_le_bytes();
        }
        let mut bytes: Vec<u8> = Vec::new();
        push_u64_le(&mut bytes, self.r_offset);
        push_u64_le(&mut bytes, self.r_info);
        push_u64_le(&mut bytes, self.r_addend as u64);
        assert(bytes@ =~= rela_bytes(*self));
        bytes
    }
}

} // verus!
