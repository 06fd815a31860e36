use cminus::elf::elf64::ehdr::{Ehdr64, EM_X86_64, ET_REL, EV_CURRENT};
use cminus::elf::elf64::Elf64Word;

#[test]
fn test_new_object_file() {
    let ehdr = Ehdr64::new_for_object_file();
    assert_eq!(0x7f454c46020101000000000000000000, ehdr.e_ident);
    assert_eq!(ET_REL, ehdr.e_type);
    assert_eq!(EM_X86_64, ehdr.e_machine);
    assert_eq!(EV_CURRENT as Elf64Word, ehdr.e_version);
    assert_eq!(0x00, ehdr.e_entry);
    assert_eq!(0x00, ehdr.e_phoff);
    assert_eq!(0x00, ehdr.e_shoff);
    assert_eq!(0x00, ehdr.e_flags);
    assert_eq!(0x40, ehdr.e_ehsize);
    assert_eq!(0x38, ehdr.e_phentsize);
    assert_eq!(0x00, ehdr.e_phnum);
    assert_eq!(0x40, ehdr.e_shentsize);
    assert_eq!(0x00, ehdr.e_shnum);
    assert_eq!(0x00, ehdr.e_shstrndx);
}

#[test]
fn test_magic_number() {
    assert_eq!(0x7f454c46000000000000000000000000, Ehdr64::magic_number());
}

#[test]
fn test_elf_class64() {
    assert_eq!(0x020000000000000000000000, Ehdr64::elf_class64());
}

#[test]
fn test_elf_lsb() {
    assert_eq!(0x0100000000000000000000, Ehdr64::elf_lsb());
}

#[test]
fn test_current_version() {
    assert_eq!(0x01000000000000000000, Ehdr64::current_version());
}

#[test]
fn test_elf_osabi_sysv() {
    assert_eq!(0x00, Ehdr64::elf_osabi_sysv());
}
