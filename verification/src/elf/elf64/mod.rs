use vstd::prelude::*;
use vstd::string::*;
use vstd::utf8::*;

use crate::text::str_eq;

pub mod ehdr;
pub mod phdr;
pub mod rela;
pub mod section;
pub mod shdr;
pub mod symbol;

verus! {

/// A 16-bit quantity.
pub type Elf64Half = u16;

/// An unsigned 32-bit quantity.
pub type Elf64Word = u32;

/// A signed 32-bit quantity.
pub type Elf64Sword = i32;

/// An unsigned 64-bit quantity.
pub type Elf64Xword = u64;

/// A signed 64-bit quantity.
pub type Elf64Sxword = i64;

/// An address.
pub type Elf64Addr = u64;

/// A file offset.
pub type Elf64Off = u64;

/// A section index.
pub type Elf64Section = u16;

/// Version symbol information.
pub type Elf64Versym = Elf64Half;

/// The identification bytes of the file header, held as one integer.
pub type NIdentSize = u128;

/// An ELF file: its header, its sections (contents and headers) and its
/// program headers.
pub struct ELF64 {
    pub ehdr: ehdr::Ehdr64,
    pub sections: Vec<section::Section64>,
    pub phdrs: Vec<phdr::Phdr64>,
}

/// The program header table: every header's image in order.
pub open spec fn phdrs_bytes(ps: Seq<phdr::Phdr64>) -> Seq<u8>
    decreases ps.len(),
{
    if ps.len() == 0 {
        Seq::empty()
    } else {
        phdrs_bytes(ps.drop_last()) + phdr::phdr_bytes(ps.last())
    }
}

/// The contents of every section, one after another.
pub open spec fn sections_contents(ss: Seq<section::Section64>) -> Seq<u8>
    decreases ss.len(),
{
    if ss.len() == 0 {
        Seq::empty()
    } else {
        sections_contents(ss.drop_last()) + ss.last().bytes@
    }
}

/// The section header table: every section's header image in order.
pub open spec fn shdrs_bytes(ss: Seq<section::Section64>) -> Seq<u8>
    decreases ss.len(),
{
    if ss.len() == 0 {
        Seq::empty()
    } else {
        shdrs_bytes(ss.drop_last()) + shdr::shdr_bytes(ss.last().header)
    }
}

/// The file image of an ELF file: header, program headers, section
/// contents, section headers.
pub open spec fn elf_bytes(e: ELF64) -> Seq<u8> {
    ehdr::ehdr_bytes(e.ehdr) + phdrs_bytes(e.phdrs@) + sections_contents(e.sections@)
        + shdrs_bytes(e.sections@)
}

/// The summed sizes that the headers of `ss` declare.
pub open spec fn declared_sizes(ss: Seq<section::Section64>) -> int
    decreases ss.len(),
{
    if ss.len() == 0 {
        0
    } else {
        declared_sizes(ss.drop_last()) + ss.last().header.sh_size
    }
}

/// The index of the first section named `name`, if there is one.
pub open spec fn section_position(ss: Seq<section::Section64>, name: Seq<char>) -> Option<int>
    decreases ss.len(),
{
    if ss.len() == 0 {
        None
    } else {
        match section_position(ss.drop_last(), name) {
            Some(i) => Some(i),
            None => if ss.last().name@ == name {
                Some(ss.len() - 1)
            } else {
                None
            },
        }
    }
}

/// The contents of the first section named `name`, or nothing when there is none.
pub open spec fn section_binary(ss: Seq<section::Section64>, name: Seq<char>) -> Seq<u8> {
    match section_position(ss, name) {
        Some(i) => ss[i].bytes@,
        None => Seq::empty(),
    }
}

/// A string table of `names`: a null byte, each name's UTF-8 bytes followed
/// by a null byte.
pub open spec fn names_table(names: Seq<Seq<char>>) -> Seq<u8>
    decreases names.len(),
{
    if names.len() == 0 {
        seq![0u8]
    } else {
        names_table(names.drop_last()) + encode_utf8(names.last()) + seq![0u8]
    }
}

/// The string table of `names` padded with one to four null bytes to a
/// multiple of four bytes.
pub open spec fn strtab_bytes(names: Seq<Seq<char>>) -> Seq<u8> {
    let t = names_table(names);
    t + Seq::new((4 - t.len() % 4) as nat, |i: int| 0u8)
}

/// The number of zero bytes among the first `i` bytes of `b`.
pub open spec fn zeros_before(b: Seq<u8>, i: int) -> nat
    decreases i,
{
    if i <= 0 {
        0
    } else {
        zeros_before(b, i - 1) + if b[i - 1] == 0 {
            1nat
        } else {
            0nat
        }
    }
}

/// Position `p` holds the zero byte that comes after exactly `k` others.
pub open spec fn is_zero_number(b: Seq<u8>, p: int, k: int) -> bool {
    0 <= p < b.len() && b[p] == 0 && zeros_before(b, p) == k
}

/// Section names assigned by `finalize`: for each section index `idx` with
/// `1 <= idx < min(zeros - 1, count)`, the name offset is one past the
/// (`idx - 1`)-th zero byte of the section-name table, counted from the one
/// past its first zero byte.
pub open spec fn names_assigned(
    before: Seq<section::Section64>,
    after: Seq<section::Section64>,
    table: Seq<u8>,
    count: int,
) -> bool {
    &&& after.len() == before.len()
    &&& forall|idx: int|
        #![trigger after[idx]]
        0 <= idx < after.len() ==> {
            &&& after[idx].name == before[idx].name
            &&& after[idx].bytes == before[idx].bytes
            &&& after[idx].header.sh_type == before[idx].header.sh_type
            &&& after[idx].header.sh_flags == before[idx].header.sh_flags
            &&& after[idx].header.sh_addr == before[idx].header.sh_addr
            &&& after[idx].header.sh_offset == before[idx].header.sh_offset
            &&& after[idx].header.sh_size == before[idx].header.sh_size
            &&& after[idx].header.sh_link == before[idx].header.sh_link
            &&& after[idx].header.sh_info == before[idx].header.sh_info
            &&& after[idx].header.sh_addralign == before[idx].header.sh_addralign
            &&& after[idx].header.sh_entsize == before[idx].header.sh_entsize
            &&& if 1 <= idx < count && idx + 1 < zeros_before(table, table.len() as int) {
                forall|p: int, q: int|
                    #![trigger is_zero_number(table, p, 0), is_zero_number(table, q, idx - 1)]
                    is_zero_number(table, p, 0) && is_zero_number(table, q, idx - 1)
                        ==> after[idx].header.sh_name == 1 + q - p
            } else {
                after[idx].header.sh_name == before[idx].header.sh_name
            }
        }
}

/// Sections whose headers are those of `before` with `base` plus the sizes
/// of all earlier sections added to each offset.
pub open spec fn offsets_shifted(
    before: Seq<section::Section64>,
    after: Seq<section::Section64>,
    base: int,
) -> bool {
    &&& after.len() == before.len()
    &&& forall|i: int|
        #![trigger after[i]]
        0 <= i < after.len() ==> {
            &&& after[i].name == before[i].name
            &&& after[i].bytes == before[i].bytes
            &&& after[i].header == (shdr::Shdr64 {
                sh_offset: (before[i].header.sh_offset + base + declared_sizes(
                    before.take(i),
                )) as u64,
                ..before[i].header
            })
        }
}

/// `ss` with `base` plus the sizes of all earlier sections added to each offset.
pub open spec fn shifted_sections(ss: Seq<section::Section64>, base: int) -> Seq<section::Section64> {
    Seq::new(
        ss.len(),
        |i: int|
            section::Section64 {
                header: shdr::Shdr64 {
                    sh_offset: (ss[i].header.sh_offset + base + declared_sizes(ss.take(i))) as u64,
                    ..ss[i].header
                },
                ..ss[i]
            },
    )
}

/// The index of the section-name table for `n` sections (the last one,
/// counted modulo 2^16 as the header field holds it).
pub open spec fn shstrndx_for(n: nat) -> int {
    (n as u16) - 1
}

/// What `finalize` needs: at least one section once the count is truncated
/// to 16 bits, offsets and total size that fit in 64 bits, and a section-name
/// table with a null byte and fewer than 2^32 - 1 bytes.
pub open spec fn finalize_ok(e: ELF64) -> bool {
    let n = e.sections@.len();
    &&& (n as u16) >= 1
    &&& offsets_fit(e.sections@, 64)
    &&& 64 + contents_len(e.sections@) <= u64::MAX
    &&& zeros_before(
        e.sections@[shstrndx_for(n)].bytes@,
        e.sections@[shstrndx_for(n)].bytes@.len() as int,
    ) >= 1
    &&& e.sections@[shstrndx_for(n)].bytes@.len() < u32::MAX
}

/// The offsets `clean_sections_offset(base)` computes fit in 64 bits.
pub open spec fn offsets_fit(ss: Seq<section::Section64>, base: int) -> bool {
    &&& base + declared_sizes(ss) <= u64::MAX
    &&& forall|i: int|
        0 <= i < ss.len() ==> #[trigger] ss[i].header.sh_offset + base + declared_sizes(ss.take(i))
            <= u64::MAX
}

/// The length of every section's contents, summed.
pub open spec fn contents_len(ss: Seq<section::Section64>) -> int {
    sections_contents(ss).len() as int
}

pub proof fn lemma_sections_contents_take(ss: Seq<section::Section64>, i: int)
    requires
        0 <= i < ss.len(),
    ensures
        sections_contents(ss.take(i + 1)) == sections_contents(ss.take(i)) + ss[i].bytes@,
{
    assert(ss.take(i + 1).drop_last() =~= ss.take(i));
}

pub proof fn lemma_declared_sizes_take(ss: Seq<section::Section64>, i: int)
    requires
        0 <= i < ss.len(),
    ensures
        declared_sizes(ss.take(i + 1)) == declared_sizes(ss.take(i)) + ss[i].header.sh_size,
{
    assert(ss.take(i + 1).drop_last() =~= ss.take(i));
}

impl ELF64 {
    /// An object file with a fresh header and no sections or program headers.
    pub fn new_object_file() -> (e: Self)
        ensures
            e.ehdr == (ehdr::Ehdr64 {
                e_ident: ehdr::object_file_ident(),
                e_type: ehdr::ET_REL,
                e_machine: ehdr::EM_X86_64,
                e_version: 1,
                e_entry: 0,
                e_phoff: 0,
                e_shoff: 0,
                e_flags: 0,
                e_ehsize: 0x40,
                e_phentsize: 0x38,
                e_phnum: 0,
                e_shentsize: 0x40,
                e_shnum: 0,
                e_shstrndx: 0,
            }),
            e.sections@.len() == 0,
            e.phdrs@.len() == 0,
    {
        Self {
            ehdr: ehdr::Ehdr64::new_for_object_file(),
            sections: Vec::new(),
            phdrs: Vec::new(),
        }
    }

    /// The file image (see `elf_bytes`).
    pub fn to_binary(&self) -> (binary: Vec<u8>)
        ensures
            binary@ == elf_bytes(*self),
    {
        let mut binary = self.ehdr.to_binary();
        let mut i: usize = 0;
        while i < self.phdrs.len()
            invariant
                0 <= i <= self.phdrs@.len(),
                binary@ == ehdr::ehdr_bytes(self.ehdr) + phdrs_bytes(self.phdrs@.take(i as int)),
            decreases self.phdrs@.len() - i,
        {
            let mut one = self.phdrs[i].to_binary();
            binary.append(&mut one);
            assert(self.phdrs@.take(i + 1).drop_last() =~= self.phdrs@.take(i as int));
            i = i + 1;
        }
        assert(self.phdrs@.take(i as int) =~= self.phdrs@);
        let ghost head = binary@;
        let mut i: usize = 0;
        while i < self.sections.len()
            invariant
                0 <= i <= self.sections@.len(),
                binary@ == head + sections_contents(self.sections@.take(i as int)),
            decreases self.sections@.len() - i,
        {
            let mut one = copy_bytes(&self.sections[i].bytes);
            binary.append(&mut one);
            proof {
                lemma_sections_contents_take(self.sections@, i as int);
            }
            i = i + 1;
        }
        assert(self.sections@.take(i as int) =~= self.sections@);
        let ghost head2 = binary@;
        let mut i: usize = 0;
        while i < self.sections.len()
            invariant
                0 <= i <= self.sections@.len(),
                binary@ == head2 + shdrs_bytes(self.sections@.take(i as int)),
            decreases self.sections@.len() - i,
        {
            let mut one = self.sections[i].header.to_binary();
            binary.append(&mut one);
            assert(self.sections@.take(i + 1).drop_last() =~= self.sections@.take(i as int));
            i = i + 1;
        }
        assert(self.sections@.take(i as int) =~= self.sections@);
        assert(binary@ =~= elf_bytes(*self));
        binary
    }

    /// The index of the first section named `name`, if any.
    pub fn find_section(&self, name: &str) -> (r: Option<usize>)
        ensures
            r matches Some(i) ==> section_position(self.sections@, name@) == Some(i as int),
            r is None ==> section_position(self.sections@, name@) is None,
            r matches Some(i) ==> i < self.sections@.len(),
    {
        let mut i: usize = 0;
        while i < self.sections.len()
            invariant
                0 <= i <= self.sections@.len(),
                section_position(self.sections@.take(i as int), name@) is None,
            decreases self.sections@.len() - i,
        {
            assert(self.sections@.take(i + 1).drop_last() =~= self.sections@.take(i as int));
            if str_eq(self.sections[i].name.as_str(), name) {
                proof {
                    lemma_section_position_prefix(self.sections@, name@, i as int + 1);
                }
                return Some(i);
            }
            i = i + 1;
        }
        assert(self.sections@.take(i as int) =~= self.sections@);
        None
    }

    /// The contents of the first section named `name`, or an empty vector
    /// when no section has that name.
    pub fn get_section_binary(&self, name: &str) -> (bytes: Vec<u8>)
        ensures
            bytes@ == section_binary(self.sections@, name@),
    {
        match self.find_section(name) {
            Some(i) => copy_bytes(&self.sections[i].bytes),
            None => Vec::new(),
        }
    }

    /// The index of the first section named `name`, or 42 when no section
    /// has that name.
    pub fn get_section_number(&self, name: &str) -> (n: usize)
        ensures
            (match section_position(self.sections@, name@) {
                Some(i) => n == i,
                None => n == 42,
            }),
    {
        proof {
            lemma_section_position_range(self.sections@, name@);
        }
        match self.find_section(name) {
            Some(i) => i,
            None => 42,
        }
    }

    /// The symbols of `.symtab`: the null symbol, then every entry after the
    /// first read from its 24 bytes.
    pub fn get_symbol_table(&self) -> (symbols: Vec<symbol::Symbol64>)
        requires
            section_binary(self.sections@, ".symtab"@).len() >= 24,
        ensures
            symbols@.len() == section_binary(self.sections@, ".symtab"@).len() / 24,
            symbols@[0] == symbol::null_symbol(),
            forall|i: int|
                1 <= i < symbols@.len() ==> #[trigger] symbols@[i] == symbol::symbol_from_bytes(
                    section_binary(self.sections@, ".symtab"@).skip(i * 24),
                ),
    {
        let one_sym_size = symbol::Symbol64::size();
        let symbol_table_binary: Vec<u8> = self.get_section_binary(".symtab");
        let total = symbol_table_binary.len();
        let symbol_count: usize = total / one_sym_size;
        let mut symbols: Vec<symbol::Symbol64> = vec![symbol::Symbol64::new_null_symbol()];
        let ghost bin = symbol_table_binary@;
        let mut i: usize = 0;
        while i < symbol_count - 1
            invariant
                bin == symbol_table_binary@,
                one_sym_size == 24,
                total == bin.len(),
                symbol_count == bin.len() / 24,
                symbol_count >= 1,
                0 <= i <= symbol_count - 1,
                symbols@.len() == i + 1,
                symbols@[0] == symbol::null_symbol(),
                forall|j: int|
                    1 <= j < symbols@.len() ==> #[trigger] symbols@[j]
                        == symbol::symbol_from_bytes(bin.skip(j * 24)),
            decreases symbol_count - 1 - i,
        {
            assert((i + 1) * 24 <= bin.len()) by (nonlinear_arith)
                requires
                    i + 1 <= symbol_count,
                    symbol_count == bin.len() / 24,
            ;
            let start = (i + 1) * one_sym_size;
            let entry_bytes = slice_tail(&symbol_table_binary, start);
            let entry = symbol::Symbol64::new_unsafe(entry_bytes);
            symbols.push(entry);
            i = i + 1;
        }
        symbols
    }

    /// The relocations of the section named `name`, each read from its 24 bytes.
    pub fn get_reloc_table(&self, name: &str) -> (relocs: Vec<rela::Rela64>)
        ensures
            relocs@.len() == section_binary(self.sections@, name@).len() / 24,
            forall|i: int|
                0 <= i < relocs@.len() ==> #[trigger] relocs@[i] == rela::rela_from_bytes(
                    section_binary(self.sections@, name@).skip(i * 24),
                ),
    {
        let one_rel_size = rela::Rela64::size();
        let reloc_table_binary: Vec<u8> = self.get_section_binary(name);
        let total = reloc_table_binary.len();
        let reloc_count: usize = total / one_rel_size;
        let mut relocs: Vec<rela::Rela64> = Vec::new();
        let ghost bin = reloc_table_binary@;
        let mut i: usize = 0;
        while i < reloc_count
            invariant
                bin == reloc_table_binary@,
                one_rel_size == 24,
                total == bin.len(),
                reloc_count == bin.len() / 24,
                0 <= i <= reloc_count,
                relocs@.len() == i,
                forall|j: int|
                    0 <= j < relocs@.len() ==> #[trigger] relocs@[j] == rela::rela_from_bytes(
                        bin.skip(j * 24),
                    ),
            decreases reloc_count - i,
        {
            assert((i + 1) * 24 <= bin.len()) by (nonlinear_arith)
                requires
                    i + 1 <= reloc_count,
                    reloc_count == bin.len() / 24,
            ;
            assert(i * 24 + 24 <= bin.len()) by (nonlinear_arith)
                requires
                    (i + 1) * 24 <= bin.len(),
            ;
            let entry_bytes = slice_tail(&reloc_table_binary, i * one_rel_size);
            relocs.push(rela::Rela64::new_unsafe(entry_bytes));
            i = i + 1;
        }
        relocs
    }

    /// Appends the null section.
    pub fn add_null_section(&mut self)
        ensures
            final(self).ehdr == old(self).ehdr,
            final(self).phdrs == old(self).phdrs,
            final(self).sections@.len() == old(self).sections@.len() + 1,
            forall|i: int|
                0 <= i < old(self).sections@.len() ==> #[trigger] final(self).sections@[i] == old(
                    self,
                ).sections@[i],
            final(self).sections@.last().name@ == "null"@,
            final(self).sections@.last().header == shdr::shdr_with(0, 0, 0, 0, 0, 0, 0),
            final(self).sections@.last().bytes@.len() == 0,
    {
        self.sections.push(section::Section64::new_null_section());
    }

    /// Appends a section with the given contents, header and name.
    pub fn add_section(&mut self, bytes: Vec<u8>, header: shdr::Shdr64, name: &str)
        ensures
            final(self).ehdr == old(self).ehdr,
            final(self).phdrs == old(self).phdrs,
            final(self).sections@.len() == old(self).sections@.len() + 1,
            forall|i: int|
                0 <= i < old(self).sections@.len() ==> #[trigger] final(self).sections@[i] == old(
                    self,
                ).sections@[i],
            final(self).sections@.last().name@ == name@,
            final(self).sections@.last().header == header,
            final(self).sections@.last().bytes@ == bytes@,
    {
        let section = section::Section64::new(name.to_string(), header, bytes);
        self.sections.push(section);
    }

    /// Adds `base` plus the declared sizes of all earlier sections to each
    /// section's offset.
    pub fn clean_sections_offset(&mut self, base: u64)
        requires
            offsets_fit(old(self).sections@, base as int),
        ensures
            final(self).ehdr == old(self).ehdr,
            final(self).phdrs == old(self).phdrs,
            offsets_shifted(old(self).sections@, final(self).sections@, base as int),
    {
        let ghost before = self.sections@;
        let mut base = base;
        let ghost base0 = base as int;
        let mut i: usize = 0;
        while i < self.sections.len()
            invariant
                before.len() == self.sections@.len(),
                offsets_fit(before, base0),
                0 <= i <= before.len(),
                base == base0 + declared_sizes(before.take(i as int)),
                self.ehdr == old(self).ehdr,
                self.phdrs == old(self).phdrs,
                forall|j: int|
                    i <= j < before.len() ==> #[trigger] self.sections@[j] == before[j],
                forall|j: int|
                    #![trigger self.sections@[j]]
                    0 <= j < i ==> {
                        &&& self.sections@[j].name == before[j].name
                        &&& self.sections@[j].bytes == before[j].bytes
                        &&& self.sections@[j].header == (shdr::Shdr64 {
                            sh_offset: (before[j].header.sh_offset + base0 + declared_sizes(
                                before.take(j),
                            )) as u64,
                            ..before[j].header
                        })
                    },
            decreases before.len() - i,
        {
            proof {
                lemma_declared_sizes_take(before, i as int);
                lemma_declared_sizes_prefix_bound(before, i as int + 1);
            }
            let size = self.sections[i].header.sh_size;
            let off = self.sections[i].header.sh_offset;
            self.sections[i].header.sh_offset = off + base;
            base = base + size;
            i = i + 1;
        }
    }

    /// Completes the headers: every section's offset (file start after the
    /// ELF header), the section header table's offset (after all contents),
    /// the section count, the index of the section-name table (the last
    /// section) and every section's name offset into that table (see
    /// `names_assigned`).
    pub fn finalize(&mut self)
        requires
            finalize_ok(*old(self)),
        ensures
            final(self).phdrs == old(self).phdrs,
            final(self).ehdr == (ehdr::Ehdr64 {
                e_shoff: (64 + contents_len(old(self).sections@)) as u64,
                e_shnum: old(self).sections@.len() as u16,
                e_shstrndx: shstrndx_for(old(self).sections@.len()) as u16,
                ..old(self).ehdr
            }),
            names_assigned(
                shifted_sections(old(self).sections@, 64),
                final(self).sections@,
                old(self).sections@[shstrndx_for(old(self).sections@.len())].bytes@,
                old(self).sections@.len() as u16 as int,
            ),
    {
        let file_offset = ehdr::Ehdr64::size() as u64;
        self.clean_sections_offset(file_offset);
        let ghost mid = self.sections@;
        proof {
            assert(mid =~= shifted_sections(old(self).sections@, 64));
            assert forall|i: int| 0 <= i < mid.len() implies mid[i].bytes@ == #[trigger] old(
                self,
            ).sections@[i].bytes@ by {}
            lemma_contents_len_same(old(self).sections@, mid);
        }
        self.ehdr.e_shoff = self.sum_given_and_section_sizes(ehdr::Ehdr64::size() as u64);
        self.ehdr.e_shnum = self.sections.len() as u16;
        self.ehdr.e_shstrndx = self.ehdr.e_shnum - 1;
        let strndx = self.ehdr.e_shstrndx as usize;
        let table = copy_bytes(&self.sections[strndx].bytes);
        let shnum = self.ehdr.e_shnum as usize;
        self.assign_section_names(&table, shnum);
    }

    /// Gives each section `idx` with `1 <= idx < min(zeros - 1, count)` the
    /// offset of its name in `table` (see `names_assigned`).
    fn assign_section_names(&mut self, table: &Vec<u8>, count: usize)
        requires
            zeros_before(table@, table@.len() as int) >= 1,
            table@.len() < u32::MAX,
            count <= old(self).sections@.len(),
        ensures
            final(self).ehdr == old(self).ehdr,
            final(self).phdrs == old(self).phdrs,
            names_assigned(old(self).sections@, final(self).sections@, table@, count as int),
    {
        let ghost before = self.sections@;
        let ghost t = table@;
        let zeros = count_zeros(table);
        let name_count = zeros - 1;
        let mut sh_name: u32 = 1;
        let mut cur_len: u32 = 0;
        let mut idx: usize = 0;
        let ghost mut zs: Seq<int> = Seq::empty();
        let mut i: usize = 0;
        while i < table.len()
            invariant
                t == table@,
                t.len() < u32::MAX,
                zeros == zeros_before(t, t.len() as int),
                name_count == zeros - 1,
                count <= before.len(),
                before.len() == self.sections@.len(),
                self.ehdr == old(self).ehdr,
                self.phdrs == old(self).phdrs,
                0 <= i <= t.len(),
                idx == zeros_before(t, i as int),
                zs.len() == idx,
                forall|k: int| 0 <= k < idx ==> #[trigger] is_zero_number(t, zs[k], k),
                forall|k: int| 0 <= k < idx ==> zs[k] < i,
                idx >= 1 ==> cur_len == i - zs[idx - 1] - 1,
                idx == 0 ==> cur_len == i,
                1 <= idx <= name_count && idx <= count ==> sh_name == 1 + zs[idx - 1] - zs[0],
                idx == 0 ==> sh_name == 1,
                forall|j: int|
                    #![trigger self.sections@[j]]
                    0 <= j < before.len() ==> {
                        &&& self.sections@[j].name == before[j].name
                        &&& self.sections@[j].bytes == before[j].bytes
                        &&& self.sections@[j].header == (shdr::Shdr64 {
                            sh_name: self.sections@[j].header.sh_name,
                            ..before[j].header
                        })
                        &&& if 1 <= j < idx && j < count && j < name_count {
                            self.sections@[j].header.sh_name == 1 + zs[j - 1] - zs[0]
                        } else {
                            self.sections@[j].header.sh_name == before[j].header.sh_name
                        }
                    },
            decreases t.len() - i,
        {
            proof {
                lemma_zeros_before_le(t, i as int);
            }
            if table[i] == 0 {
                if idx < name_count && idx != 0 && idx < count {
                    self.sections[idx].header.sh_name = sh_name;
                    assert(is_zero_number(t, zs[0], 0));
                    assert(sh_name + cur_len + 1 == 1 + i - zs[0]);
                    sh_name = sh_name + cur_len + 1;
                } else if idx == 0 {
                    sh_name = 1;
                }
                proof {
                    zs = zs.push(i as int);
                }
                idx = idx + 1;
                cur_len = 0;
            } else {
                if idx >= 1 {
                    assert(is_zero_number(t, zs[idx - 1], idx - 1));
                }
                cur_len = cur_len + 1;
            }
            i = i + 1;
        }
        proof {
            assert forall|idx2: int|
                #![trigger self.sections@[idx2]]
                0 <= idx2 < self.sections@.len() && 1 <= idx2 < count && idx2 + 1 < zeros_before(
                    t,
                    t.len() as int,
                ) implies forall|p: int, q: int|
                #![trigger is_zero_number(t, p, 0), is_zero_number(t, q, idx2 - 1)]
                is_zero_number(t, p, 0) && is_zero_number(t, q, idx2 - 1)
                    ==> self.sections@[idx2].header.sh_name == 1 + q - p by {
                assert forall|p: int, q: int|
                    #[trigger] is_zero_number(t, p, 0) && #[trigger] is_zero_number(t, q, idx2 - 1) implies self.sections@[idx2].header.sh_name
                    == 1 + q - p by {
                    assert(is_zero_number(t, zs[0], 0));
                    assert(is_zero_number(t, zs[idx2 - 1], idx2 - 1));
                    lemma_zero_number_unique(t, p, zs[0], 0);
                    lemma_zero_number_unique(t, q, zs[idx2 - 1], idx2 - 1);
                }
            }
        }
    }

    /// `base` plus the lengths of every section's contents.
    pub fn sum_given_and_section_sizes(&self, base: u64) -> (sum: u64)
        requires
            base + contents_len(self.sections@) <= u64::MAX,
        ensures
            sum == base + contents_len(self.sections@),
    {
        let mut sum = base;
        let mut i: usize = 0;
        while i < self.sections.len()
            invariant
                0 <= i <= self.sections@.len(),
                base + contents_len(self.sections@) <= u64::MAX,
                sum == base + contents_len(self.sections@.take(i as int)),
            decreases self.sections@.len() - i,
        {
            proof {
                lemma_sections_contents_take(self.sections@, i as int);
                lemma_contents_len_prefix_bound(self.sections@, i as int + 1);
            }
            sum = sum + self.sections[i].bytes.len() as u64;
            i = i + 1;
        }
        assert(self.sections@.take(i as int) =~= self.sections@);
        sum
    }

    /// The string table of `names` (see `strtab_bytes`).
    pub fn build_strtab_from_names(names: Vec<&str>) -> (table: Vec<u8>)
        ensures
            table@ == strtab_bytes(names@.map_values(|n: &str| n@)),
            table@.len() % 4 == 0,
    {
        let ghost views = names@.map_values(|n: &str| n@);
        let mut string_table: Vec<u8> = vec![0x00];
        let mut i: usize = 0;
        while i < names.len()
            invariant
                0 <= i <= names@.len(),
                views == names@.map_values(|n: &str| n@),
                string_table@ == names_table(views.take(i as int)),
            decreases names@.len() - i,
        {
            let bytes = names[i].as_bytes();
            let mut j: usize = 0;
            let ghost start = string_table@;
            while j < bytes.len()
                invariant
                    0 <= j <= bytes@.len(),
                    bytes@ == names@[i as int].spec_bytes(),
                    string_table@ == start + bytes@.take(j as int),
                decreases bytes@.len() - j,
            {
                string_table.push(bytes[j]);
                assert(bytes@.take(j + 1) =~= bytes@.take(j as int).push(bytes@[j as int]));
                j = j + 1;
            }
            assert(bytes@.take(j as int) =~= bytes@);
            string_table.push(0x00);
            assert(views.take(i + 1).drop_last() =~= views.take(i as int));
            assert(views[i as int] == names@[i as int]@);
            i = i + 1;
        }
        assert(views.take(i as int) =~= views);
        let ghost t = string_table@;
        let md = string_table.len() % 4;
        let mut k: usize = 0;
        while k < 4 - md
            invariant
                md == t.len() % 4,
                0 <= k <= 4 - md,
                string_table@ == t + Seq::new(k as nat, |i: int| 0u8),
            decreases 4 - md - k,
        {
            string_table.push(0x00);
            assert(Seq::new((k + 1) as nat, |i: int| 0u8) =~= Seq::new(k as nat, |i: int| 0u8).push(0u8));
            k = k + 1;
        }
        assert(string_table@ =~= strtab_bytes(views));
        string_table
    }
}

/// A copy of `v`.
pub fn copy_bytes(v: &Vec<u8>) -> (c: Vec<u8>)
    ensures
        c@ == v@,
{
    let c = v.clone();
    assert(c@ =~= v@);
    c
}

/// The bytes of `v` from `start` on.
pub fn slice_tail(v: &Vec<u8>, start: usize) -> (tail: Vec<u8>)
    requires
        start <= v@.len(),
    ensures
        tail@ == v@.skip(start as int),
{
    let mut tail: Vec<u8> = Vec::new();
    let mut i = start;
    while i < v.len()
        invariant
            start <= i <= v@.len(),
            tail@ == v@.subrange(start as int, i as int),
        decreases v@.len() - i,
    {
        tail.push(v[i]);
        assert(v@.subrange(start as int, i + 1) =~= v@.subrange(start as int, i as int).push(v@[i as int]));
        i = i + 1;
    }
    tail
}

/// The number of zero bytes in `v`.
pub fn count_zeros(v: &Vec<u8>) -> (n: usize)
    ensures
        n == zeros_before(v@, v@.len() as int),
{
    let mut n: usize = 0;
    let mut i: usize = 0;
    while i < v.len()
        invariant
            0 <= i <= v@.len(),
            n == zeros_before(v@, i as int),
            n <= i,
        decreases v@.len() - i,
    {
        if v[i] == 0 {
            n = n + 1;
        }
        i = i + 1;
    }
    n
}

pub proof fn lemma_zeros_before_le(b: Seq<u8>, i: int)
    requires
        0 <= i,
    ensures
        zeros_before(b, i) <= i,
    decreases i,
{
    if i > 0 {
        lemma_zeros_before_le(b, i - 1);
    }
}

pub proof fn lemma_zeros_before_mono(b: Seq<u8>, i: int, j: int)
    requires
        0 <= i <= j,
    ensures
        zeros_before(b, i) <= zeros_before(b, j),
    decreases j - i,
{
    if i < j {
        lemma_zeros_before_mono(b, i, j - 1);
    }
}

/// Each zero byte has its own number.
pub proof fn lemma_zero_number_unique(b: Seq<u8>, p: int, q: int, k: int)
    requires
        is_zero_number(b, p, k),
        is_zero_number(b, q, k),
    ensures
        p == q,
{
    if p < q {
        lemma_zeros_before_mono(b, p + 1, q);
    } else if q < p {
        lemma_zeros_before_mono(b, q + 1, p);
    }
}

pub proof fn lemma_contents_len_same(a: Seq<section::Section64>, b: Seq<section::Section64>)
    requires
        a.len() == b.len(),
        forall|i: int| 0 <= i < a.len() ==> #[trigger] b[i].bytes@ == a[i].bytes@,
    ensures
        sections_contents(a) == sections_contents(b),
    decreases a.len(),
{
    if a.len() > 0 {
        lemma_contents_len_same(a.drop_last(), b.drop_last());
    }
}

/// A section found in a prefix is found at the same place in the whole list.
pub proof fn lemma_section_position_prefix(ss: Seq<section::Section64>, name: Seq<char>, k: int)
    requires
        0 < k <= ss.len(),
        section_position(ss.take(k - 1), name) is None,
        ss[k - 1].name@ == name,
    ensures
        section_position(ss, name) == Some(k - 1),
    decreases ss.len() - k,
{
    if k == ss.len() {
        assert(ss.drop_last() =~= ss.take(k - 1));
    } else {
        assert(ss.drop_last().take(k - 1) =~= ss.take(k - 1));
        lemma_section_position_prefix(ss.drop_last(), name, k);
    }
}

/// A section position lies inside the list.
pub proof fn lemma_section_position_range(ss: Seq<section::Section64>, name: Seq<char>)
    ensures
        section_position(ss, name) matches Some(i) ==> 0 <= i < ss.len() && ss[i].name@ == name,
    decreases ss.len(),
{
    if ss.len() > 0 {
        lemma_section_position_range(ss.drop_last(), name);
    }
}

pub proof fn lemma_declared_sizes_prefix_bound(ss: Seq<section::Section64>, k: int)
    requires
        0 <= k <= ss.len(),
    ensures
        declared_sizes(ss.take(k)) <= declared_sizes(ss),
        declared_sizes(ss.take(k)) >= 0,
    decreases ss.len() - k,
{
    if k == ss.len() {
        assert(ss.take(k) =~= ss);
        lemma_declared_sizes_nonneg(ss);
    } else {
        lemma_declared_sizes_prefix_bound(ss.drop_last(), k);
        assert(ss.drop_last().take(k) =~= ss.take(k));
        lemma_declared_sizes_nonneg(ss.drop_last());
    }
}

pub proof fn lemma_declared_sizes_nonneg(ss: Seq<section::Section64>)
    ensures
        declared_sizes(ss) >= 0,
    decreases ss.len(),
{
    if ss.len() > 0 {
        lemma_declared_sizes_nonneg(ss.drop_last());
    }
}

pub proof fn lemma_contents_len_prefix_bound(ss: Seq<section::Section64>, k: int)
    requires
        0 <= k <= ss.len(),
    ensures
        contents_len(ss.take(k)) <= contents_len(ss),
    decreases ss.len() - k,
{
    if k == ss.len() {
        assert(ss.take(k) =~= ss);
    } else {
        lemma_contents_len_prefix_bound(ss.drop_last(), k);
        assert(ss.drop_last().take(k) =~= ss.take(k));
    }
}

} // verus!

verus! {

pub proof fn lemma_ehdr_bytes_len(h: ehdr::Ehdr64)
    ensures
        ehdr::ehdr_bytes(h).len() == 64,
{
    vstd::bytes::lemma_auto_spec_u16_to_from_le_bytes();
    vstd::bytes::lemma_auto_spec_u32_to_from_le_bytes();
    vstd::bytes::lemma_auto_spec_u64_to_from_le_bytes();
    vstd::bytes::lemma_auto_spec_u128_to_from_le_bytes();
}

pub proof fn lemma_phdrs_bytes_len(ps: Seq<phdr::Phdr64>)
    ensures
        phdrs_bytes(ps).len() == 56 * ps.len(),
    decreases ps.len(),
{
    vstd::bytes::lemma_auto_spec_u32_to_from_le_bytes();
    vstd::bytes::lemma_auto_spec_u64_to_from_le_bytes();
    if ps.len() > 0 {
        lemma_phdrs_bytes_len(ps.drop_last());
    }
}

pub proof fn lemma_shdrs_bytes_len(ss: Seq<section::Section64>)
    ensures
        shdrs_bytes(ss).len() == 64 * ss.len(),
    decreases ss.len(),
{
    vstd::bytes::lemma_auto_spec_u32_to_from_le_bytes();
    vstd::bytes::lemma_auto_spec_u64_to_from_le_bytes();
    if ss.len() > 0 {
        lemma_shdrs_bytes_len(ss.drop_last());
    }
}

/// Inside the concatenated contents, section `i` starts after the contents of
/// all earlier sections.
pub proof fn lemma_contents_piece(ss: Seq<section::Section64>, i: int)
    requires
        0 <= i < ss.len(),
    ensures
        sections_contents(ss).subrange(
            contents_len(ss.take(i)),
            contents_len(ss.take(i)) + ss[i].bytes@.len(),
        ) == ss[i].bytes@,
        contents_len(ss.take(i)) + ss[i].bytes@.len() <= contents_len(ss),
    decreases ss.len(),
{
    if i == ss.len() - 1 {
        assert(ss.take(i) =~= ss.drop_last());
        assert(sections_contents(ss) == sections_contents(ss.drop_last()) + ss[i].bytes@);
        assert(sections_contents(ss).subrange(
            contents_len(ss.take(i)),
            contents_len(ss.take(i)) + ss[i].bytes@.len(),
        ) =~= ss[i].bytes@);
    } else {
        lemma_contents_piece(ss.drop_last(), i);
        assert(ss.drop_last().take(i) =~= ss.take(i));
        let d = sections_contents(ss.drop_last());
        assert(sections_contents(ss) == d + ss.last().bytes@);
        assert(sections_contents(ss).subrange(
            contents_len(ss.take(i)),
            contents_len(ss.take(i)) + ss[i].bytes@.len(),
        ) =~= d.subrange(contents_len(ss.take(i)), contents_len(ss.take(i)) + ss[i].bytes@.len()));
    }
}

/// Law of the file layout: in the image of a file without program headers,
/// a section whose offset is the ELF header size plus the contents of all
/// earlier sections finds its contents exactly at that offset.
pub proof fn lemma_contents_at_offsets(e: ELF64, i: int)
    requires
        e.phdrs@.len() == 0,
        0 <= i < e.sections@.len(),
        e.sections@[i].header.sh_offset == 64 + contents_len(e.sections@.take(i)),
    ensures
        elf_bytes(e).subrange(
            e.sections@[i].header.sh_offset as int,
            e.sections@[i].header.sh_offset + e.sections@[i].bytes@.len(),
        ) == e.sections@[i].bytes@,
{
    lemma_ehdr_bytes_len(e.ehdr);
    lemma_contents_piece(e.sections@, i);
    assert(phdrs_bytes(e.phdrs@) =~= Seq::<u8>::empty());
    let head = ehdr::ehdr_bytes(e.ehdr);
    let c = sections_contents(e.sections@);
    let t = shdrs_bytes(e.sections@);
    assert(elf_bytes(e) =~= head + c + t);
    let a = contents_len(e.sections@.take(i));
    let l = e.sections@[i].bytes@.len() as int;
    assert(elf_bytes(e).subrange(64 + a, 64 + a + l) =~= c.subrange(a, a + l));
}

/// Law of the file layout: when `e_shoff` is the size of the ELF header, the
/// program header table and every section's contents, the section header
/// table sits at `e_shoff` and ends the image.
pub proof fn lemma_header_table_at_shoff(e: ELF64)
    requires
        e.ehdr.e_shoff == 64 + 56 * e.phdrs@.len() + contents_len(e.sections@),
    ensures
        elf_bytes(e).len() == e.ehdr.e_shoff + 64 * e.sections@.len(),
        elf_bytes(e).subrange(e.ehdr.e_shoff as int, elf_bytes(e).len() as int) == shdrs_bytes(
            e.sections@,
        ),
{
    lemma_ehdr_bytes_len(e.ehdr);
    lemma_phdrs_bytes_len(e.phdrs@);
    lemma_shdrs_bytes_len(e.sections@);
    let pre = ehdr::ehdr_bytes(e.ehdr) + phdrs_bytes(e.phdrs@) + sections_contents(e.sections@);
    assert(elf_bytes(e) == pre + shdrs_bytes(e.sections@));
    assert(elf_bytes(e).subrange(e.ehdr.e_shoff as int, elf_bytes(e).len() as int) =~= shdrs_bytes(
        e.sections@,
    ));
}

pub proof fn lemma_declared_sizes_match(ss: Seq<section::Section64>)
    requires
        forall|i: int| 0 <= i < ss.len() ==> #[trigger] ss[i].header.sh_size == ss[i].bytes@.len(),
    ensures
        declared_sizes(ss) == contents_len(ss),
    decreases ss.len(),
{
    if ss.len() > 0 {
        lemma_declared_sizes_match(ss.drop_last());
    }
}

/// Law of `finalize`: when every section starts with offset 0 and declares
/// the size of its contents, `finalize` places each section right after the
/// ELF header and all earlier contents, so that (without program headers)
/// `lemma_contents_at_offsets` and `lemma_header_table_at_shoff` apply.
pub proof fn lemma_finalize_places_sections(
    before: Seq<section::Section64>,
    after: Seq<section::Section64>,
    table: Seq<u8>,
    count: int,
)
    requires
        forall|i: int|
            0 <= i < before.len() ==> (#[trigger] before[i]).header.sh_offset == 0
                && before[i].header.sh_size == before[i].bytes@.len(),
        offsets_fit(before, 64),
        names_assigned(shifted_sections(before, 64), after, table, count),
    ensures
        after.len() == before.len(),
        contents_len(after) == contents_len(before),
        forall|i: int|
            0 <= i < after.len() ==> (#[trigger] after[i]).header.sh_offset == 64 + contents_len(
                after.take(i),
            ),
{
    let mid = shifted_sections(before, 64);
    assert forall|i: int| 0 <= i < after.len() implies (#[trigger] after[i]).header.sh_offset
        == 64 + contents_len(after.take(i)) by {
        assert(after[i].header.sh_offset == mid[i].header.sh_offset);
        lemma_declared_sizes_prefix_bound(before, i);
        assert forall|j: int| 0 <= j < before.take(i).len() implies #[trigger] before.take(
            i,
        )[j].header.sh_size == before.take(i)[j].bytes@.len() by {
            assert(before.take(i)[j] == before[j]);
        }
        lemma_declared_sizes_match(before.take(i));
        assert forall|j: int| 0 <= j < before.take(i).len() implies #[trigger] after.take(
            i,
        )[j].bytes@ == before.take(i)[j].bytes@ by {
            assert(after[j].bytes == mid[j].bytes);
        }
        lemma_contents_len_same(before.take(i), after.take(i));
    }
    assert forall|j: int| 0 <= j < before.len() implies #[trigger] after[j].bytes@
        == before[j].bytes@ by {
        assert(after[j].bytes == mid[j].bytes);
    }
    lemma_contents_len_same(before, after);
}

} // verus!
