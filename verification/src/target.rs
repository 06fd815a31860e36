use vstd::prelude::*;

verus! {

/// The operating system a build is meant for.
pub enum OS {
    Linux,
    INVALID,
}

/// The processor architecture a build is meant for.
pub enum Architecture {
    X86_64,
    INVALID,
}

/// The platform that the compiler generates code for.
pub struct Target {
    pub os: OS,
    pub arch: Architecture,
}

impl Target {
    /// A target made of the given operating system and architecture.
    pub fn new(os: OS, arch: Architecture) -> (t: Self)
        ensures
            t.os == os,
            t.arch == arch,
    {
        Self { os, arch }
    }

    /// Whether code is generated for x86_64.
    pub fn is_x86_64(&self) -> (b: bool)
        ensures
            b <==> self.arch is X86_64,
    {
        if let Architecture::X86_64 = self.arch {
            return true;
        }
        false
    }
}

} // verus!
