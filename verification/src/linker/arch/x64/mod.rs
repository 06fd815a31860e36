pub mod linker;

use vstd::prelude::*;

use crate::elf::elf64;
use crate::linker::arch::x64::linker::{linkable, linked, X64StaticLinker};

verus! {

/// Links an x86_64 object file statically into an executable (see `linked`).
pub fn link(object_file: elf64::ELF64) -> (exec: elf64::ELF64)
    requires
        linkable(object_file),
    ensures
        linked(object_file, exec),
{
    let mut x64_linker = X64StaticLinker::new(object_file);
    x64_linker.link();
    x64_linker.exec_file
}

} // verus!
