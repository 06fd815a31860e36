use vstd::prelude::*;

verus! {

/// A source file: its path and its contents.
pub struct SrcFile {
    pub abs_path: String,
    pub contents: String,
}

} // verus!
