use cminus::elf::elf64::ehdr::{Ehdr64, ET_EXEC};
use cminus::elf::elf64::rela::Rela64;
use cminus::elf::elf64::section::Section64;
use cminus::elf::elf64::shdr::Shdr64;
use cminus::elf::elf64::symbol::Symbol64;
use cminus::elf::elf64::ELF64;
use cminus::linker;
use cminus::linker::arch::x64::linker::{X64StaticLinker, BASE_ADDRESS, PAGE_SIZE};

fn text_bytes() -> Vec<u8> {
    vec![0xb8, 0x00, 0x00, 0x00, 0x00, 0xc3, 0x90, 0x90]
}

fn sample_object() -> ELF64 {
    let mut text_header = Shdr64::init_text_header(8);
    text_header.sh_offset = 0x40;
    let symbols = vec![Symbol64::new_null_symbol(), Symbol64::new_global_function(1, 8, 0)];
    let symtab = Symbol64::symbols_to_binary(symbols);
    let strtab = b"\0_start\0".to_vec();
    let rela = Rela64 { r_offset: 1, r_info: (1u64 << 32) | 1, r_addend: 0 };
    ELF64 {
        ehdr: Ehdr64::new_for_object_file(),
        sections: vec![
            Section64::new_null_section(),
            Section64::new(".text".to_string(), text_header, text_bytes()),
            Section64::new(".symtab".to_string(), Shdr64::init_symtab_header(48), symtab),
            Section64::new(".strtab".to_string(), Shdr64::init_strtab_header(8), strtab),
            Section64::new(".rela.text".to_string(), Shdr64::init_relatext_header(24), rela.to_binary()),
        ],
        phdrs: Vec::new(),
    }
}

#[test]
fn link_sets_up_an_executable_header() {
    let exec = linker::link(sample_object());
    assert_eq!(exec.ehdr.e_type, ET_EXEC);
    assert_eq!(exec.ehdr.e_entry, BASE_ADDRESS);
    assert_eq!(exec.ehdr.e_phoff, 0x40);
    assert_eq!(exec.ehdr.e_phnum, 1);
    assert_eq!(exec.ehdr.e_phentsize, 56);
    assert_eq!(exec.ehdr.e_shoff, PAGE_SIZE + 88);
}

#[test]
fn link_adds_one_loadable_segment() {
    let exec = linker::link(sample_object());
    assert_eq!(exec.phdrs.len(), 1);
    let p = &exec.phdrs[0];
    assert_eq!(p.p_type, 1);
    assert_eq!(p.p_flags, 7);
    assert_eq!(p.p_offset, 0x1000);
    assert_eq!(p.p_vaddr, 0x400000);
    assert_eq!(p.p_paddr, 0x400000);
    assert_eq!(p.p_filesz, 8);
    assert_eq!(p.p_memsz, 8);
    assert_eq!(p.p_align, 0x1000);
}

#[test]
fn link_pads_the_first_page() {
    let exec = linker::link(sample_object());
    assert_eq!(exec.sections[0].bytes.len(), 0x1000 - 0x40 - 56);
    assert!(exec.sections[0].bytes.iter().all(|b| *b == 0));
}

#[test]
fn link_writes_symbol_address_into_text() {
    let exec = linker::link(sample_object());
    assert_eq!(exec.sections[1].bytes, vec![0xb8, 0x00, 0x00, 0x40, 0x00, 0xc3, 0x90, 0x90]);
}

#[test]
fn link_moves_symbols_to_the_load_address() {
    let exec = linker::link(sample_object());
    let symbols = exec.get_symbol_table();
    assert_eq!(symbols.len(), 2);
    assert_eq!(symbols[1].st_value, 0x400000);
    assert_eq!(symbols[1].st_name, 1);
    let symtab = &exec.sections[2].bytes;
    assert_eq!(symtab[8..16].to_vec(), 0x400000u64.to_le_bytes().to_vec());
}

#[test]
fn link_moves_section_offsets_and_text_address() {
    let exec = linker::link(sample_object());
    assert_eq!(exec.sections[1].header.sh_offset, 0x40 + 0x1000 - 0x40);
    assert_eq!(exec.sections[1].header.sh_addr, 0x400000);
    assert_eq!(exec.sections[2].header.sh_offset, 0x1000 - 0x40);
    assert_eq!(exec.sections[2].header.sh_addr, 0);
}

#[test]
fn link_places_section_headers_after_contents() {
    let exec = linker::link(sample_object());
    let contents: usize = exec.sections.iter().map(|s| s.bytes.len()).sum();
    assert_eq!(exec.ehdr.e_shoff as usize, 0x40 + 56 * exec.phdrs.len() + contents);
    let image = exec.to_binary();
    assert_eq!(image.len(), exec.ehdr.e_shoff as usize + 64 * exec.sections.len());
}

#[test]
fn link_without_startup_symbol_keeps_entry() {
    let mut obj = sample_object();
    obj.sections[3].bytes = b"\0start\0\0".to_vec();
    obj.ehdr.e_entry = 7;
    let exec = linker::link(obj);
    assert_eq!(exec.ehdr.e_entry, 7);
}

#[test]
fn linker_steps_one_by_one() {
    let mut l = X64StaticLinker::new(sample_object());
    l.init_phdr();
    assert_eq!(l.exec_file.phdrs.len(), 1);
    l.prepare_ehdr_for_staticlink();
    assert_eq!(l.exec_file.ehdr.e_shoff, 0x1000 + 88);
    l.padding_null_byte_to_null_section();
    assert_eq!(l.exec_file.sections[0].bytes.len(), 3976);
    l.link_symbols();
    assert_eq!(l.exec_file.ehdr.e_entry, 0x400000);
    l.resolve_symbols();
    assert_eq!(l.exec_file.sections[1].bytes[3], 0x40);
    l.conditioning_section_offset();
    assert_eq!(l.exec_file.sections[4].header.sh_offset, 0x1000 - 0x40);
}

#[test]
fn symbol_image_reads_back() {
    let s = Symbol64::new_global_function(5, 16, 0x20);
    let back = Symbol64::new_unsafe(s.to_binary());
    assert_eq!(back.st_name, 5);
    assert_eq!(back.st_info, 0x12);
    assert_eq!(back.st_shndx, 1);
    assert_eq!(back.st_value, 0x20);
    assert_eq!(back.st_size, 16);
}

#[test]
fn relocation_image_reads_back() {
    let r = Rela64 { r_offset: 9, r_info: (3u64 << 32) | 2, r_addend: -4 };
    let back = Rela64::new_unsafe(r.to_binary());
    assert_eq!(back.r_offset, 9);
    assert_eq!(back.r_info, (3u64 << 32) | 2);
    assert_eq!(back.r_addend, -4);
    assert_eq!(Rela64::bind(back.r_info), 3);
}
