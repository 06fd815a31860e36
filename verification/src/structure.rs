use vstd::prelude::*;

use crate::target::Target;

verus! {

/// Assembly text together with the platform it is meant for and the syntax
/// it is written in.
pub struct AssemblyFile {
    pub code: String,
    pub target: Target,
    pub syntax: Syntax,
}

/// The two syntaxes of x86_64 assembly.
pub enum Syntax {
    ATANDT,
    INTEL,
}

/// `p` occurs in `s` as a run of consecutive characters.
pub open spec fn occurs_in(p: Seq<char>, s: Seq<char>) -> bool {
    exists|i: int| 0 <= i && i + p.len() <= s.len() && #[trigger] s.subrange(i, i + p.len()) == p
}

/// `p` occurs in `s` at position `i`.
pub open spec fn occurs_at(p: Seq<char>, s: Seq<char>, i: int) -> bool {
    0 <= i && i + p.len() <= s.len() && s.subrange(i, i + p.len()) == p
}

/// Whether `p` occurs at position `i` of `s`.
fn matches_at(s: &str, p: &str, i: usize) -> (b: bool)
    requires
        i + p@.len() <= s@.len(),
    ensures
        b == (s@.subrange(i as int, i + p@.len()) == p@),
{
    let total = s.unicode_len();
    let n = p.unicode_len();
    let mut j: usize = 0;
    while j < n
        invariant
            total == s@.len(),
            n == p@.len(),
            i + n <= s@.len(),
            0 <= j <= n,
            forall|k: int| 0 <= k < j ==> s@[i + k] == p@[k],
        decreases n - j,
    {
        if s.get_char(i + j) != p.get_char(j) {
            assert(s@.subrange(i as int, i + n)[j as int] != p@[j as int]);
            return false;
        }
        j = j + 1;
    }
    assert(s@.subrange(i as int, i + n) =~= p@);
    true
}

/// Whether `p` occurs in `s`.
pub fn str_contains(s: &str, p: &str) -> (b: bool)
    ensures
        b == occurs_in(p@, s@),
{
    let n = s.unicode_len();
    let m = p.unicode_len();
    if m > n {
        return false;
    }
    if m == 0 {
        assert(s@.subrange(0, 0 + p@.len() as int) =~= p@);
        assert(occurs_at(p@, s@, 0));
        return true;
    }
    let mut i: usize = 0;
    while i <= n - m
        invariant
            n == s@.len(),
            m == p@.len(),
            0 < m <= n,
            0 <= i <= n - m + 1,
            forall|k: int| 0 <= k < i ==> !occurs_at(p@, s@, k),
        decreases n - m + 1 - i,
    {
        if matches_at(s, p, i) {
            assert(s@.subrange(i as int, i + p@.len()) == p@);
            return true;
        }
        i = i + 1;
    }
    assert forall|k: int| 0 <= k && k + m <= n implies #[trigger] s@.subrange(k, k + m) != p@ by {
        assert(!occurs_at(p@, s@, k));
    }
    false
}

/// Whether `s` ends with `p`.
pub fn str_ends_with(s: &str, p: &str) -> (b: bool)
    ensures
        b == (p@.len() <= s@.len() && s@.subrange(s@.len() - p@.len(), s@.len() as int) == p@),
{
    let n = s.unicode_len();
    let m = p.unicode_len();
    if m > n {
        return false;
    }
    matches_at(s, p, n - m)
}

impl AssemblyFile {
    /// Intel-syntax assembly for `target`.
    pub fn new_intel_file(code: String, target: Target) -> (f: Self)
        ensures
            f == (AssemblyFile { code, target, syntax: Syntax::INTEL }),
    {
        Self { code, target, syntax: Syntax::INTEL }
    }

    /// AT&T-syntax assembly for `target`.
    pub fn new_atandt_file(code: String, target: Target) -> (f: Self)
        ensures
            f == (AssemblyFile { code, target, syntax: Syntax::ATANDT }),
    {
        Self { code, target, syntax: Syntax::ATANDT }
    }

    /// Assembly given as a source file: Intel syntax where the text holds
    /// `.intel_syntax`, AT&T syntax otherwise.
    pub fn from_assembly_source(code: String, target: Target) -> (f: Self)
        ensures
            f.code == code,
            f.target == target,
            f.syntax == (if occurs_in(".intel_syntax"@, code@) {
                Syntax::INTEL
            } else {
                Syntax::ATANDT
            }),
    {
        if str_contains(code.as_str(), ".intel_syntax") {
            Self::new_intel_file(code, target)
        } else {
            Self::new_atandt_file(code, target)
        }
    }
}

} // verus!
