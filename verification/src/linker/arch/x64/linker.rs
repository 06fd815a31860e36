use vstd::prelude::*;
use vstd::bytes::*;

use crate::elf::elf64::{contents_len, section_binary, section_position, sections_contents, ELF64};
use crate::elf::elf64::ehdr::{Ehdr64, ET_EXEC};
use crate::elf::elf64::phdr::{Phdr64, PF_R, PF_W, PF_X, PT_LOAD};
use crate::elf::elf64::rela::{rela_from_bytes, Rela64};
use crate::elf::elf64::section::Section64;
use crate::elf::elf64::shdr::Shdr64;
use crate::elf::elf64::symbol::{null_symbol, symbol_from_bytes, symbols_bytes, Symbol64};

verus! {

/// The address the executable is loaded at.
pub const BASE_ADDRESS: u64 = 0x400000;

/// The page size that the loadable segment is aligned to.
pub const PAGE_SIZE: u64 = 0x1000;

/// A static linker for x86_64: it turns one object file into an executable.
pub struct X64StaticLinker {
    pub exec_file: ELF64,
}

/// The symbols of `.symtab` as they are read: the null symbol, then every
/// later 24-byte entry.
pub open spec fn symbols_read(ss: Seq<Section64>) -> Seq<Symbol64> {
    let bin = section_binary(ss, ".symtab"@);
    Seq::new(bin.len() / 24, |i: int| if i == 0 { null_symbol() } else { symbol_from_bytes(bin.skip(i * 24)) })
}

/// The relocations of `.rela.text`, every 24-byte entry read in order.
pub open spec fn relocs_read(ss: Seq<Section64>) -> Seq<Rela64> {
    let bin = section_binary(ss, ".rela.text"@);
    Seq::new(bin.len() / 24, |i: int| rela_from_bytes(bin.skip(i * 24)))
}

/// The program header of the one loadable segment: `text_len` bytes of
/// code read from the second page and loaded at the base address, readable,
/// writable and executable.
pub open spec fn load_phdr(text_len: int) -> Phdr64 {
    Phdr64 {
        p_type: PT_LOAD,
        p_flags: PF_R | PF_X | PF_W,
        p_offset: PAGE_SIZE,
        p_vaddr: BASE_ADDRESS,
        p_paddr: BASE_ADDRESS,
        p_filesz: text_len as u64,
        p_memsz: text_len as u64,
        p_align: PAGE_SIZE,
    }
}

/// A symbol with its value moved by the base address.
pub open spec fn relocated(s: Symbol64) -> Symbol64 {
    Symbol64 { st_value: (s.st_value + BASE_ADDRESS) as u64, ..s }
}

/// Whether a symbol names a startup routine: its name starts with `_`.
pub open spec fn is_startup(s: Symbol64, strtab: Seq<u8>) -> bool {
    strtab[s.st_name as int] == 0x5fu8
}

/// The entry point after the symbols are linked: the moved value of the
/// last startup symbol, or `entry` when there is none.
pub open spec fn entry_of(syms: Seq<Symbol64>, strtab: Seq<u8>, entry: u64) -> u64
    decreases syms.len(),
{
    if syms.len() == 0 {
        entry
    } else if is_startup(syms.last(), strtab) {
        (BASE_ADDRESS + syms.last().st_value) as u64
    } else {
        entry_of(syms.drop_last(), strtab, entry)
    }
}

/// The symbols can be linked: every name index lies inside the string
/// table, and every moved value fits.
pub open spec fn symbols_linkable(syms: Seq<Symbol64>, strtab: Seq<u8>) -> bool {
    forall|i: int|
        0 <= i < syms.len() ==> (#[trigger] syms[i]).st_name < strtab.len() && syms[i].st_value + BASE_ADDRESS
            <= u64::MAX
}

/// `text` with `b` written over it at `off`.
pub open spec fn patch(text: Seq<u8>, off: int, b: Seq<u8>) -> Seq<u8> {
    text.subrange(0, off) + b + text.subrange(off + b.len(), text.len() as int)
}

/// The address a relocation writes: the low 32 bits of its symbol's value.
pub open spec fn reloc_address(r: Rela64, syms: Seq<Symbol64>) -> u32 {
    syms[(r.r_info >> 32u64) as int].st_value as u32
}

/// The code after the relocations, in order, wrote their addresses.
pub open spec fn apply_relocs(text: Seq<u8>, rs: Seq<Rela64>, syms: Seq<Symbol64>) -> Seq<u8>
    decreases rs.len(),
{
    if rs.len() == 0 {
        text
    } else {
        patch(
            apply_relocs(text, rs.drop_last(), syms),
            rs.last().r_offset as int,
            spec_u32_to_le_bytes(reloc_address(rs.last(), syms)),
        )
    }
}

/// The relocations can be applied: each names a symbol that exists and
/// writes inside the code.
pub open spec fn relocs_applicable(rs: Seq<Rela64>, nsyms: int, text_len: int) -> bool {
    forall|i: int|
        0 <= i < rs.len() ==> ((#[trigger] rs[i]).r_info >> 32u64) < nsyms && rs[i].r_offset + 4 <= text_len
}

/// `b` is `a` with only the contents of section `i` changed.
pub open spec fn only_bytes_changed(a: Seq<Section64>, b: Seq<Section64>, i: int) -> bool {
    &&& b.len() == a.len()
    &&& forall|j: int| 0 <= j < a.len() && j != i ==> #[trigger] b[j] == a[j]
    &&& b[i].name == a[i].name
    &&& b[i].header == a[i].header
}

/// The names of two lists of sections agree.
pub open spec fn same_names(a: Seq<Section64>, b: Seq<Section64>) -> bool {
    &&& b.len() == a.len()
    &&& forall|j: int| 0 <= j < a.len() ==> (#[trigger] b[j]).name@ == a[j].name@
}

/// Where a section is found depends only on the names.
pub proof fn lemma_section_position_names(a: Seq<Section64>, b: Seq<Section64>, name: Seq<char>)
    requires
        same_names(a, b),
    ensures
        section_position(b, name) == section_position(a, name),
    decreases a.len(),
{
    if a.len() > 0 {
        assert(same_names(a.drop_last(), b.drop_last()));
        lemma_section_position_names(a.drop_last(), b.drop_last(), name);
    }
}

/// The contents of a section found by name, after only the contents of
/// section `i` changed.
pub proof fn lemma_binary_after_change(a: Seq<Section64>, b: Seq<Section64>, i: int, name: Seq<char>)
    requires
        0 <= i < a.len(),
        only_bytes_changed(a, b, i),
    ensures
        section_position(b, name) == section_position(a, name),
        section_position(a, name) != Some(i) ==> section_binary(b, name) == section_binary(a, name),
        section_position(a, name) == Some(i) ==> section_binary(b, name) == b[i].bytes@,
{
    assert(same_names(a, b));
    lemma_section_position_names(a, b, name);
    crate::elf::elf64::lemma_section_position_range(a, name);
}

impl X64StaticLinker {
    /// A linker over the object file `obj_file`.
    pub fn new(obj_file: ELF64) -> (l: Self)
        ensures
            l.exec_file == obj_file,
    {
        Self { exec_file: obj_file }
    }

    /// Adds the program header of the loadable segment that holds `.text`.
    pub fn init_phdr(&mut self)
        ensures
            final(self).exec_file.ehdr == old(self).exec_file.ehdr,
            final(self).exec_file.sections == old(self).exec_file.sections,
            final(self).exec_file.phdrs@ == old(self).exec_file.phdrs@.push(
                load_phdr(section_binary(old(self).exec_file.sections@, ".text"@).len() as int),
            ),
    {
        let mut phdr: Phdr64 = Phdr64::new();
        phdr.p_type = PT_LOAD;
        phdr.p_offset = PAGE_SIZE;
        phdr.p_align = PAGE_SIZE;
        phdr.p_vaddr = BASE_ADDRESS;
        phdr.p_paddr = BASE_ADDRESS;
        let text: Vec<u8> = self.exec_file.get_section_binary(".text");
        phdr.p_filesz = text.len() as u64;
        phdr.p_memsz = text.len() as u64;
        phdr.p_flags = PF_R | PF_X | PF_W;
        self.exec_file.phdrs.push(phdr);
    }

    /// Makes the header that of an executable: its type, where the program
    /// headers are and how many, and where the section headers go once the
    /// contents start at the second page.
    pub fn prepare_ehdr_for_staticlink(&mut self)
        requires
            PAGE_SIZE + contents_len(old(self).exec_file.sections@) <= u64::MAX,
        ensures
            final(self).exec_file.ehdr == (Ehdr64 {
                e_type: ET_EXEC,
                e_phoff: 0x40,
                e_phnum: old(self).exec_file.phdrs@.len() as u16,
                e_phentsize: 56,
                e_shoff: (PAGE_SIZE + contents_len(old(self).exec_file.sections@)) as u64,
                ..old(self).exec_file.ehdr
            }),
            final(self).exec_file.sections == old(self).exec_file.sections,
            final(self).exec_file.phdrs == old(self).exec_file.phdrs,
    {
        self.exec_file.ehdr.e_type = ET_EXEC;
        self.exec_file.ehdr.e_phoff = Ehdr64::size() as u64;
        self.exec_file.ehdr.e_phnum = self.exec_file.phdrs.len() as u16;
        self.exec_file.ehdr.e_phentsize = Phdr64::size() as u16;
        let all_section_size = self.exec_file.sum_given_and_section_sizes(0);
        self.exec_file.ehdr.e_shoff = PAGE_SIZE + all_section_size;
    }

    /// Pads the null section with zero bytes so that, after the file header
    /// and the program headers, the section contents start at the second page.
    pub fn padding_null_byte_to_null_section(&mut self)
        requires
            old(self).exec_file.sections@.len() > 0,
            0x40 + 56 * old(self).exec_file.phdrs@.len() <= PAGE_SIZE,
            old(self).exec_file.sections@[0].bytes@.len() + PAGE_SIZE <= usize::MAX,
        ensures
            only_bytes_changed(old(self).exec_file.sections@, final(self).exec_file.sections@, 0),
            final(self).exec_file.sections@[0].bytes@ == old(self).exec_file.sections@[0].bytes@ + Seq::new(
                (PAGE_SIZE - 0x40 - 56 * old(self).exec_file.phdrs@.len()) as nat,
                |i: int| 0u8,
            ),
            final(self).exec_file.ehdr == old(self).exec_file.ehdr,
            final(self).exec_file.phdrs == old(self).exec_file.phdrs,
    {
        let ph_table_size = Phdr64::size() as u64 * self.exec_file.phdrs.len() as u64;
        let pad = PAGE_SIZE - Ehdr64::size() as u64 - ph_table_size;
        let ghost ss0 = self.exec_file.sections@;
        let ghost b0 = ss0[0].bytes@;
        let mut k: u64 = 0;
        while k < pad
            invariant
                0 <= k <= pad,
                pad <= PAGE_SIZE,
                b0.len() + PAGE_SIZE <= usize::MAX,
                ss0 == old(self).exec_file.sections@,
                ss0.len() > 0,
                b0 == ss0[0].bytes@,
                only_bytes_changed(ss0, self.exec_file.sections@, 0),
                self.exec_file.sections@[0].bytes@ == b0 + Seq::new(k as nat, |i: int| 0u8),
                self.exec_file.ehdr == old(self).exec_file.ehdr,
                self.exec_file.phdrs == old(self).exec_file.phdrs,
            decreases pad - k,
        {
            self.exec_file.sections[0].bytes.push(0x00);
            proof {
                assert(self.exec_file.sections@[0].bytes@ =~= b0 + Seq::new((k + 1) as nat, |i: int| 0u8));
            }
            k = k + 1;
        }
    }

    /// Moves every section's offset past the padding and gives `.text` the
    /// entry point as its address.
    pub fn conditioning_section_offset(&mut self)
        requires
            forall|i: int|
                0 <= i < old(self).exec_file.sections@.len() ==> (#[trigger] old(self).exec_file.sections@[i]).header.sh_offset
                    + (PAGE_SIZE - 0x40) <= u64::MAX,
            section_position(old(self).exec_file.sections@, ".text"@) is Some,
        ensures
            final(self).exec_file.ehdr == old(self).exec_file.ehdr,
            final(self).exec_file.phdrs == old(self).exec_file.phdrs,
            final(self).exec_file.sections@.len() == old(self).exec_file.sections@.len(),
            forall|i: int|
                0 <= i < old(self).exec_file.sections@.len() ==> {
                    let a = old(self).exec_file.sections@[i];
                    let b = #[trigger] final(self).exec_file.sections@[i];
                    &&& b.name == a.name
                    &&& b.bytes == a.bytes
                    &&& b.header == (Shdr64 {
                        sh_offset: (a.header.sh_offset + (PAGE_SIZE - 0x40)) as u64,
                        sh_addr: if section_position(old(self).exec_file.sections@, ".text"@) == Some(i) {
                            old(self).exec_file.ehdr.e_entry
                        } else {
                            a.header.sh_addr
                        },
                        ..a.header
                    })
                },
    {
        let ghost ss0 = self.exec_file.sections@;
        let n = self.exec_file.sections.len();
        let mut i: usize = 0;
        while i < n
            invariant
                n == ss0.len(),
                0 <= i <= n,
                ss0 == old(self).exec_file.sections@,
                forall|j: int| 0 <= j < n ==> (#[trigger] ss0[j]).header.sh_offset + (PAGE_SIZE - 0x40) <= u64::MAX,
                self.exec_file.sections@.len() == n,
                self.exec_file.ehdr == old(self).exec_file.ehdr,
                self.exec_file.phdrs == old(self).exec_file.phdrs,
                forall|j: int| i <= j < n ==> #[trigger] self.exec_file.sections@[j] == ss0[j],
                forall|j: int|
                    0 <= j < i ==> {
                        let a = ss0[j];
                        let b = #[trigger] self.exec_file.sections@[j];
                        &&& b.name == a.name
                        &&& b.bytes == a.bytes
                        &&& b.header == (Shdr64 { sh_offset: (a.header.sh_offset + (PAGE_SIZE - 0x40)) as u64, ..a.header })
                    },
            decreases n - i,
        {
            let off = self.exec_file.sections[i].header.sh_offset;
            self.exec_file.sections[i].header.sh_offset = PAGE_SIZE - Ehdr64::size() as u64 + off;
            i = i + 1;
        }
        proof {
            assert(same_names(ss0, self.exec_file.sections@));
            lemma_section_position_names(ss0, self.exec_file.sections@, ".text"@);
            crate::elf::elf64::lemma_section_position_range(ss0, ".text"@);
        }
        let text_number: usize = self.exec_file.get_section_number(".text");
        let entry = self.exec_file.ehdr.e_entry;
        self.exec_file.sections[text_number].header.sh_addr = entry;
    }
}


/// Writing over a run of code keeps its length.
pub proof fn lemma_apply_relocs_len(text: Seq<u8>, rs: Seq<Rela64>, syms: Seq<Symbol64>)
    requires
        forall|i: int| 0 <= i < rs.len() ==> (#[trigger] rs[i]).r_offset + 4 <= text.len(),
    ensures
        apply_relocs(text, rs, syms).len() == text.len(),
    decreases rs.len(),
{
    if rs.len() > 0 {
        assert forall|i: int| 0 <= i < rs.drop_last().len() implies (#[trigger] rs.drop_last()[i]).r_offset + 4
            <= text.len() by {
            assert(rs.drop_last()[i] == rs[i]);
        }
        lemma_apply_relocs_len(text, rs.drop_last(), syms);
        lemma_auto_spec_u32_to_from_le_bytes();
        assert(rs[rs.len() - 1] == rs.last());
    }
}

impl X64StaticLinker {
    /// Moves every symbol to the load address and makes the last symbol
    /// whose name starts with `_` the entry point; `.symtab` is written back.
    pub fn link_symbols(&mut self)
        requires
            section_binary(old(self).exec_file.sections@, ".symtab"@).len() >= 24,
            symbols_linkable(
                symbols_read(old(self).exec_file.sections@),
                section_binary(old(self).exec_file.sections@, ".strtab"@),
            ),
        ensures
            section_position(old(self).exec_file.sections@, ".symtab"@) matches Some(p) && {
                &&& only_bytes_changed(old(self).exec_file.sections@, final(self).exec_file.sections@, p)
                &&& final(self).exec_file.sections@[p].bytes@ == symbols_bytes(
                    symbols_read(old(self).exec_file.sections@).map_values(|s: Symbol64| relocated(s)),
                )
            },
            final(self).exec_file.ehdr == (Ehdr64 {
                e_entry: entry_of(
                    symbols_read(old(self).exec_file.sections@),
                    section_binary(old(self).exec_file.sections@, ".strtab"@),
                    old(self).exec_file.ehdr.e_entry,
                ),
                ..old(self).exec_file.ehdr
            }),
            final(self).exec_file.phdrs == old(self).exec_file.phdrs,
    {
        let ghost ss0 = self.exec_file.sections@;
        let strtab: Vec<u8> = self.exec_file.get_section_binary(".strtab");
        let mut symbols: Vec<Symbol64> = self.exec_file.get_symbol_table();
        let ghost syms = symbols@;
        proof {
            assert(syms =~= symbols_read(ss0));
        }
        let n = symbols.len();
        let mut i: usize = 0;
        while i < n
            invariant
                n == syms.len(),
                0 <= i <= n,
                syms == symbols_read(ss0),
                ss0 == old(self).exec_file.sections@,
                strtab@ == section_binary(ss0, ".strtab"@),
                symbols_linkable(syms, strtab@),
                symbols@.len() == n,
                forall|j: int| 0 <= j < i ==> #[trigger] symbols@[j] == relocated(syms[j]),
                forall|j: int| i <= j < n ==> #[trigger] symbols@[j] == syms[j],
                self.exec_file.ehdr == (Ehdr64 {
                    e_entry: entry_of(syms.take(i as int), strtab@, old(self).exec_file.ehdr.e_entry),
                    ..old(self).exec_file.ehdr
                }),
                self.exec_file.sections == old(self).exec_file.sections,
                self.exec_file.phdrs == old(self).exec_file.phdrs,
            decreases n - i,
        {
            assert(syms.take(i + 1).drop_last() =~= syms.take(i as int));
            assert(syms[i as int] == symbols@[i as int]);
            let name_index = symbols[i].st_name as usize;
            if strtab[name_index] == 0x5f {
                self.exec_file.ehdr.e_entry = BASE_ADDRESS + symbols[i].st_value;
            }
            let moved = Symbol64 {
                st_name: symbols[i].st_name,
                st_info: symbols[i].st_info,
                st_other: symbols[i].st_other,
                st_shndx: symbols[i].st_shndx,
                st_value: symbols[i].st_value + BASE_ADDRESS,
                st_size: symbols[i].st_size,
            };
            symbols.set(i, moved);
            i = i + 1;
        }
        proof {
            assert(syms.take(n as int) =~= syms);
            assert(symbols@ =~= syms.map_values(|s: Symbol64| relocated(s)));
            crate::elf::elf64::lemma_section_position_range(ss0, ".symtab"@);
        }
        let symtab_number: usize = self.exec_file.get_section_number(".symtab");
        self.exec_file.sections[symtab_number].bytes = Symbol64::symbols_to_binary(symbols);
    }

    /// Writes, for every relocation of `.rela.text` in order, the low 32
    /// bits of its symbol's value into `.text` at its offset.
    pub fn resolve_symbols(&mut self)
        requires
            section_binary(old(self).exec_file.sections@, ".symtab"@).len() >= 24,
            section_position(old(self).exec_file.sections@, ".text"@) is Some,
            relocs_applicable(
                relocs_read(old(self).exec_file.sections@),
                symbols_read(old(self).exec_file.sections@).len() as int,
                section_binary(old(self).exec_file.sections@, ".text"@).len() as int,
            ),
        ensures
            section_position(old(self).exec_file.sections@, ".text"@) matches Some(p) && {
                &&& only_bytes_changed(old(self).exec_file.sections@, final(self).exec_file.sections@, p)
                &&& final(self).exec_file.sections@[p].bytes@ == apply_relocs(
                    section_binary(old(self).exec_file.sections@, ".text"@),
                    relocs_read(old(self).exec_file.sections@),
                    symbols_read(old(self).exec_file.sections@),
                )
            },
            final(self).exec_file.ehdr == old(self).exec_file.ehdr,
            final(self).exec_file.phdrs == old(self).exec_file.phdrs,
    {
        let ghost ss0 = self.exec_file.sections@;
        let symbols: Vec<Symbol64> = self.exec_file.get_symbol_table();
        let relas: Vec<Rela64> = self.exec_file.get_reloc_table(".rela.text");
        let ghost syms = symbols@;
        let ghost rs = relas@;
        proof {
            assert(syms =~= symbols_read(ss0));
            assert(rs =~= relocs_read(ss0));
            crate::elf::elf64::lemma_section_position_range(ss0, ".text"@);
        }
        let text_number: usize = self.exec_file.get_section_number(".text");
        let ghost t = text_number as int;
        let ghost text0 = ss0[t].bytes@;
        let n = relas.len();
        let mut k: usize = 0;
        proof {
            assert(rs.take(0) =~= Seq::<Rela64>::empty());
        }
        while k < n
            invariant
                n == rs.len(),
                0 <= k <= n,
                rs == relas@,
                syms == symbols@,
                ss0 == old(self).exec_file.sections@,
                0 <= t < ss0.len(),
                t == text_number,
                section_position(ss0, ".text"@) == Some(t),
                text0 == ss0[t].bytes@,
                text0 == section_binary(ss0, ".text"@),
                relocs_applicable(rs, syms.len() as int, text0.len() as int),
                only_bytes_changed(ss0, self.exec_file.sections@, t),
                self.exec_file.sections@[t].bytes@ == apply_relocs(text0, rs.take(k as int), syms),
                self.exec_file.ehdr == old(self).exec_file.ehdr,
                self.exec_file.phdrs == old(self).exec_file.phdrs,
            decreases n - k,
        {
            let idx = Rela64::bind(relas[k].r_info);
            let address = symbols[idx].st_value as u32;
            let bytes = u32_to_le_bytes(address);
            let off = relas[k].r_offset as usize;
            let ghost prev = self.exec_file.sections@[t].bytes@;
            let text_len = self.exec_file.sections[text_number].bytes.len();
            proof {
                assert(rs.take(k as int).len() == k);
                assert forall|i: int| 0 <= i < rs.take(k as int).len() implies (#[trigger] rs.take(k as int)[i]).r_offset
                    + 4 <= text0.len() by {
                    assert(rs.take(k as int)[i] == rs[i]);
                }
                lemma_apply_relocs_len(text0, rs.take(k as int), syms);
                assert(rs[k as int].r_offset + 4 <= text0.len());
                assert(off as int == rs[k as int].r_offset as int);
                assert(address == reloc_address(rs[k as int], syms));
            }
            let mut j: usize = 0;
            while j < 4
                invariant
                    0 <= j <= 4,
                    bytes@.len() == 4,
                    off + 4 <= prev.len(),
                    prev.len() == text_len,
                    0 <= t < ss0.len(),
                    t == text_number,
                    only_bytes_changed(ss0, self.exec_file.sections@, t),
                    self.exec_file.sections@[t].bytes@ == prev.subrange(0, off as int) + bytes@.take(j as int)
                        + prev.subrange(off + j, prev.len() as int),
                    self.exec_file.ehdr == old(self).exec_file.ehdr,
                    self.exec_file.phdrs == old(self).exec_file.phdrs,
                decreases 4 - j,
            {
                let b = bytes[j];
                self.exec_file.sections[text_number].bytes.set(off + j, b);
                proof {
                    assert(self.exec_file.sections@[t].bytes@ =~= prev.subrange(0, off as int) + bytes@.take(j + 1)
                        + prev.subrange(off + j + 1, prev.len() as int));
                }
                j = j + 1;
            }
            proof {
                assert(bytes@.take(4) =~= bytes@);
                assert(rs.take(k + 1).drop_last() =~= rs.take(k as int));
                assert(rs.take(k + 1).last() == rs[k as int]);
                assert(apply_relocs(text0, rs.take(k + 1), syms) == patch(
                    apply_relocs(text0, rs.take(k as int), syms),
                    rs[k as int].r_offset as int,
                    spec_u32_to_le_bytes(reloc_address(rs[k as int], syms)),
                ));
                assert(self.exec_file.sections@[t].bytes@ =~= patch(prev, off as int, bytes@));
            }
            k = k + 1;
        }
        proof {
            assert(rs.take(n as int) =~= rs);
        }
    }
}


/// The symbols as `.symtab` reads after linking: the null symbol, then
/// every other symbol moved.
pub open spec fn symbols_after_link(syms: Seq<Symbol64>) -> Seq<Symbol64> {
    Seq::new(syms.len(), |i: int| if i == 0 { null_symbol() } else { relocated(syms[i]) })
}

/// An object file can be linked: it has the null section first and sections
/// `.symtab` (with at least the null symbol), `.strtab` and `.text` after
/// it, the program headers and the padding fit the first page, the sizes
/// and offsets fit, every symbol can be moved and every relocation applied.
pub open spec fn linkable(e: ELF64) -> bool {
    let ss = e.sections@;
    &&& ss.len() > 0
    &&& 0x40 + 56 * (e.phdrs@.len() + 1) <= PAGE_SIZE
    &&& ss[0].bytes@.len() + PAGE_SIZE <= usize::MAX
    &&& PAGE_SIZE + contents_len(ss) <= u64::MAX
    &&& forall|i: int| 0 <= i < ss.len() ==> (#[trigger] ss[i]).header.sh_offset + (PAGE_SIZE - 0x40) <= u64::MAX
    &&& section_position(ss, ".symtab"@) != Some(0int)
    &&& section_position(ss, ".strtab"@) != Some(0int)
    &&& section_position(ss, ".rela.text"@) != Some(0int)
    &&& section_position(ss, ".text"@) matches Some(p) && p != 0
    &&& section_binary(ss, ".symtab"@).len() >= 24
    &&& symbols_linkable(symbols_read(ss), section_binary(ss, ".strtab"@))
    &&& relocs_applicable(relocs_read(ss), symbols_read(ss).len() as int, section_binary(ss, ".text"@).len() as int)
}

/// The entry point of the executable linked from `e`.
pub open spec fn linked_entry(e: ELF64) -> u64 {
    entry_of(symbols_read(e.sections@), section_binary(e.sections@, ".strtab"@), e.ehdr.e_entry)
}

/// The contents of section `i` of the executable linked from `e`: the null
/// section padded with zeros up to the second page, `.symtab` with every
/// symbol moved, `.text` with the relocations applied, the rest unchanged.
pub open spec fn linked_bytes(e: ELF64, i: int) -> Seq<u8> {
    let ss = e.sections@;
    if i == 0 {
        ss[0].bytes@ + Seq::new((PAGE_SIZE - 0x40 - 56 * (e.phdrs@.len() + 1)) as nat, |j: int| 0u8)
    } else if section_position(ss, ".symtab"@) == Some(i) {
        symbols_bytes(symbols_read(ss).map_values(|s: Symbol64| relocated(s)))
    } else if section_position(ss, ".text"@) == Some(i) {
        apply_relocs(ss[i].bytes@, relocs_read(ss), symbols_after_link(symbols_read(ss)))
    } else {
        ss[i].bytes@
    }
}

/// `b` is the executable linked from the object file `a`.
pub open spec fn linked(a: ELF64, b: ELF64) -> bool {
    let ss = a.sections@;
    &&& b.ehdr == (Ehdr64 {
        e_type: ET_EXEC,
        e_entry: linked_entry(a),
        e_phoff: 0x40,
        e_phnum: (a.phdrs@.len() + 1) as u16,
        e_phentsize: 56,
        e_shoff: (PAGE_SIZE + contents_len(ss)) as u64,
        ..a.ehdr
    })
    &&& b.phdrs@ == a.phdrs@.push(load_phdr(section_binary(ss, ".text"@).len() as int))
    &&& b.sections@.len() == ss.len()
    &&& forall|i: int|
        0 <= i < ss.len() ==> {
            let x = ss[i];
            let y = #[trigger] b.sections@[i];
            &&& y.name == x.name
            &&& y.bytes@ == linked_bytes(a, i)
            &&& y.header == (Shdr64 {
                sh_offset: (x.header.sh_offset + (PAGE_SIZE - 0x40)) as u64,
                sh_addr: if section_position(ss, ".text"@) == Some(i) {
                    linked_entry(a)
                } else {
                    x.header.sh_addr
                },
                ..x.header
            })
        }
}

/// Reading a symbol needs only the first 24 bytes.
pub proof fn lemma_symbol_from_prefix(a: Seq<u8>, b: Seq<u8>)
    requires
        a.len() >= 24,
    ensures
        symbol_from_bytes(a + b) == symbol_from_bytes(a),
{
    assert((a + b).subrange(0, 4) =~= a.subrange(0, 4));
    assert((a + b).subrange(6, 8) =~= a.subrange(6, 8));
    assert((a + b).subrange(8, 16) =~= a.subrange(8, 16));
    assert((a + b).subrange(16, 24) =~= a.subrange(16, 24));
}

/// The image of a list of symbols reads back as the list.
pub proof fn lemma_symbols_readback(s: Seq<Symbol64>)
    ensures
        symbols_bytes(s).len() == 24 * s.len(),
        forall|i: int| 0 <= i < s.len() ==> #[trigger] symbol_from_bytes(symbols_bytes(s).skip(i * 24)) == s[i],
    decreases s.len(),
{
    if s.len() > 0 {
        let p = s.drop_last();
        lemma_symbols_readback(p);
        crate::elf::elf64::symbol::lemma_symbol_roundtrip(s.last());
        let pb = symbols_bytes(p);
        let lb = crate::elf::elf64::symbol::symbol_bytes(s.last());
        assert(symbols_bytes(s) == pb + lb);
        assert forall|i: int| 0 <= i < s.len() implies #[trigger] symbol_from_bytes(symbols_bytes(s).skip(i * 24))
            == s[i] by {
            if i < s.len() - 1 {
                assert(i * 24 + 24 <= pb.len()) by (nonlinear_arith)
                    requires
                        i < p.len(),
                        pb.len() == 24 * p.len(),
                ;
                assert((pb + lb).skip(i * 24) =~= pb.skip(i * 24) + lb);
                lemma_symbol_from_prefix(pb.skip(i * 24), lb);
                assert(symbol_from_bytes(pb.skip(i * 24)) == p[i]);
            } else {
                assert(i * 24 == pb.len());
                assert((pb + lb).skip(i * 24) =~= lb);
            }
        }
    }
}

/// A name not found at the first section is not the first section's name.
pub proof fn lemma_first_name(ss: Seq<Section64>, name: Seq<char>)
    requires
        ss.len() > 0,
        section_position(ss, name) != Some(0int),
    ensures
        ss[0].name@ != name,
{
    if ss[0].name@ == name {
        assert(ss.take(0) =~= Seq::<Section64>::empty());
        crate::elf::elf64::lemma_section_position_prefix(ss, name, 1);
    }
}

/// A section named differently from the one changed reads as before.
pub proof fn lemma_other_binary(a: Seq<Section64>, b: Seq<Section64>, i: int, name: Seq<char>)
    requires
        0 <= i < a.len(),
        only_bytes_changed(a, b, i),
        a[i].name@ != name,
    ensures
        section_position(b, name) == section_position(a, name),
        section_binary(b, name) == section_binary(a, name),
{
    lemma_binary_after_change(a, b, i, name);
    crate::elf::elf64::lemma_section_position_range(a, name);
}

impl X64StaticLinker {
    /// Links the object file into an executable (see `linked`): adds the
    /// program header of the loadable segment, makes the header that of an
    /// executable, pads the first page, moves the symbols, applies the
    /// relocations and moves the section offsets.
    #[verifier::rlimit(60)]
    pub fn link(&mut self)
        requires
            linkable(old(self).exec_file),
        ensures
            linked(old(self).exec_file, final(self).exec_file),
    {
        let ghost e0 = self.exec_file;
        let ghost ss = e0.sections@;
        proof {
            reveal_strlit(".symtab");
            reveal_strlit(".strtab");
            reveal_strlit(".text");
            reveal_strlit(".rela.text");
            crate::elf::elf64::lemma_section_position_range(ss, ".symtab"@);
            crate::elf::elf64::lemma_section_position_range(ss, ".strtab"@);
            crate::elf::elf64::lemma_section_position_range(ss, ".text"@);
            crate::elf::elf64::lemma_section_position_range(ss, ".rela.text"@);
            assert(section_position(ss, ".symtab"@) is Some);
            assert(".symtab"@.len() == 7);
            assert(".text"@.len() == 5);
            assert(".strtab"@[2] == 't');
            assert(".symtab"@[2] == 'y');
            assert(".rela.text"@.len() == 10);
            lemma_first_name(ss, ".symtab"@);
            lemma_first_name(ss, ".strtab"@);
            lemma_first_name(ss, ".text"@);
            lemma_first_name(ss, ".rela.text"@);
        }
        let ghost p = section_position(ss, ".symtab"@)->0;
        let ghost q = section_position(ss, ".text"@)->0;
        let ghost syms = symbols_read(ss);
        let ghost strtab = section_binary(ss, ".strtab"@);
        let ghost rs = relocs_read(ss);
        let ghost moved = syms.map_values(|s: Symbol64| relocated(s));
        assert(p != q);
        self.init_phdr();
        self.prepare_ehdr_for_staticlink();
        self.padding_null_byte_to_null_section();
        let ghost s3 = self.exec_file.sections@;
        proof {
            lemma_other_binary(ss, s3, 0, ".symtab"@);
            lemma_other_binary(ss, s3, 0, ".strtab"@);
            lemma_other_binary(ss, s3, 0, ".text"@);
            lemma_other_binary(ss, s3, 0, ".rela.text"@);
            assert(symbols_read(s3) == syms);
        }
        self.link_symbols();
        let ghost s4 = self.exec_file.sections@;
        proof {
            lemma_other_binary(s3, s4, p, ".strtab"@);
            lemma_other_binary(s3, s4, p, ".text"@);
            lemma_other_binary(s3, s4, p, ".rela.text"@);
            lemma_binary_after_change(s3, s4, p, ".symtab"@);
            lemma_symbols_readback(moved);
            assert(section_binary(s4, ".symtab"@) == symbols_bytes(moved));
            assert(symbols_read(s4) =~= symbols_after_link(syms));
            assert(relocs_read(s4) == rs);
        }
        self.resolve_symbols();
        let ghost s5 = self.exec_file.sections@;
        proof {
            lemma_binary_after_change(s4, s5, q, ".text"@);
            assert(forall|i: int| 0 <= i < ss.len() ==> #[trigger] s5[i].header == ss[i].header);
        }
        self.conditioning_section_offset();
        proof {
            let b = self.exec_file.sections@;
            assert forall|i: int| 0 <= i < ss.len() implies (#[trigger] b[i]).bytes@ == linked_bytes(e0, i) by {
                if i == 0 {
                } else if i == p {
                } else if i == q {
                    assert(section_binary(ss, ".text"@) == ss[q].bytes@);
                } else {
                }
            }
        }
    }
}


/// The summed contents grow by what the first section grows by when the
/// others keep their lengths.
pub proof fn lemma_contents_len_grow_first(a: Seq<Section64>, b: Seq<Section64>, extra: int)
    requires
        a.len() == b.len(),
        a.len() > 0,
        b[0].bytes@.len() == a[0].bytes@.len() + extra,
        forall|i: int| 1 <= i < a.len() ==> (#[trigger] b[i]).bytes@.len() == a[i].bytes@.len(),
    ensures
        contents_len(b) == contents_len(a) + extra,
    decreases a.len(),
{
    assert(sections_contents(a) == sections_contents(a.drop_last()) + a.last().bytes@);
    assert(sections_contents(b) == sections_contents(b.drop_last()) + b.last().bytes@);
    if a.len() > 1 {
        lemma_contents_len_grow_first(a.drop_last(), b.drop_last(), extra);
        assert(b.last().bytes@.len() == a.last().bytes@.len());
    } else {
        assert(sections_contents(a.drop_last()).len() == 0);
        assert(sections_contents(b.drop_last()).len() == 0);
    }
}

/// In an executable linked from an object file whose `.symtab` holds whole
/// entries, the section header table starts right after the file header,
/// the program headers and the section contents.
pub proof fn lemma_linked_header_table(a: ELF64, b: ELF64)
    requires
        linkable(a),
        linked(a, b),
        section_binary(a.sections@, ".symtab"@).len() % 24 == 0,
    ensures
        b.ehdr.e_shoff == crate::elf::elf64::ehdr::ehdr_bytes(b.ehdr).len() + crate::elf::elf64::phdrs_bytes(
            b.phdrs@,
        ).len() + contents_len(b.sections@),
{
    let ss = a.sections@;
    let bs = b.sections@;
    crate::elf::elf64::lemma_ehdr_bytes_len(b.ehdr);
    crate::elf::elf64::lemma_phdrs_bytes_len(b.phdrs@);
    crate::elf::elf64::lemma_section_position_range(ss, ".symtab"@);
    crate::elf::elf64::lemma_section_position_range(ss, ".text"@);
    let pad = PAGE_SIZE - 0x40 - 56 * (a.phdrs@.len() + 1);
    assert forall|i: int| 1 <= i < ss.len() implies (#[trigger] bs[i]).bytes@.len() == ss[i].bytes@.len() by {
        if section_position(ss, ".symtab"@) == Some(i) {
            let syms = symbols_read(ss);
            lemma_symbols_readback(syms.map_values(|s: Symbol64| relocated(s)));
        } else if section_position(ss, ".text"@) == Some(i) {
            let rs = relocs_read(ss);
            assert forall|k: int| 0 <= k < rs.len() implies (#[trigger] rs[k]).r_offset + 4 <= ss[i].bytes@.len() by {
                assert(relocs_applicable(rs, symbols_read(ss).len() as int, section_binary(ss, ".text"@).len() as int));
            }
            lemma_apply_relocs_len(ss[i].bytes@, rs, symbols_after_link(symbols_read(ss)));
        }
    }
    lemma_contents_len_grow_first(ss, bs, pad);
}

} // verus!
