use vstd::prelude::*;

use crate::elf::elf64::shdr::{shdr_with, Shdr64};

verus! {

/// A section of an ELF file: its name, its header and its contents.
pub struct Section64 {
    pub name: String,
    pub header: Shdr64,
    pub bytes: Vec<u8>,
}

impl Section64 {
    /// A section made of the given parts.
    pub fn new(name: String, header: Shdr64, bytes: Vec<u8>) -> (s: Self)
        ensures
            s.name@ == name@,
            s.header == header,
            s.bytes@ == bytes@,
    {
        Self { name, header, bytes }
    }

    /// The null section: named "null", with a zero header and no contents.
    pub fn new_null_section() -> (s: Self)
        ensures
            s.name@ == "null"@,
            s.header == shdr_with(0, 0, 0, 0, 0, 0, 0),
            s.bytes@.len() == 0,
    {
        Self { name: String::from_str("null"), header: Shdr64::new_null_shdr(), bytes: Vec::new() }
    }
}

} // verus!
