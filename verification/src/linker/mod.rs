pub mod arch;

use vstd::prelude::*;

use crate::elf::elf64;
use crate::linker::arch::x64::linker::{linkable, linked};
use crate::target::Architecture;

verus! {

/// The architecture an object file is for: only x86_64 objects are made,
/// so every object file is taken to be one.
pub fn check_elf_architecture(_ehdr: &elf64::ehdr::Ehdr64) -> (a: Architecture)
    ensures
        a is X86_64,
{
    Architecture::X86_64
}

/// Links an object file into an executable, with the linker of its
/// architecture (see `linked`).
pub fn link(object_file: elf64::ELF64) -> (exec: elf64::ELF64)
    requires
        linkable(object_file),
    ensures
        linked(object_file, exec),
{
    match check_elf_architecture(&object_file.ehdr) {
        Architecture::X86_64 => arch::x64::link(object_file),
        Architecture::INVALID => object_file,
    }
}

} // verus!
