//! Text primitives of std that the compiler's passes build on.
use vstd::prelude::*;
use vstd::utf8::*;

verus! {

/// Whether two string slices hold the same characters (std's `==` on `str`).
#[verifier::external_body]
pub(crate) fn str_eq(a: &str, b: &str) -> (r: bool)
    ensures
        r == (a@ == b@),
{
    a == b
}

/// Appends one character to a string (std's `String::push`).
#[verifier::external_body]
pub(crate) fn push_char(s: &mut String, c: char)
    ensures
        final(s)@ == old(s)@.push(c),
{
    s.push(c)
}

/// Appends a string slice to a string (std's `String::push_str`).
#[verifier::external_body]
pub(crate) fn push_str(s: &mut String, t: &str)
    ensures
        final(s)@ == old(s)@ + t@,
{
    s.push_str(t)
}

/// The Unicode `Alphabetic` property of a character, as std reports it.
pub uninterp spec fn unicode_alphabetic(c: char) -> bool;

/// The Unicode `White_Space` property of a character: the controls from
/// tab to carriage return, the space, the next-line control, the no-break
/// space, the Ogham space mark, the spaces from en quad to hair space, the
/// line and paragraph separators, the narrow no-break space, the medium
/// mathematical space and the ideographic space.
pub open spec fn unicode_whitespace(c: char) -> bool {
    ||| '\u{9}' <= c <= '\u{d}'
    ||| c == ' '
    ||| c == '\u{85}'
    ||| c == '\u{a0}'
    ||| c == '\u{1680}'
    ||| '\u{2000}' <= c <= '\u{200a}'
    ||| c == '\u{2028}'
    ||| c == '\u{2029}'
    ||| c == '\u{202f}'
    ||| c == '\u{205f}'
    ||| c == '\u{3000}'
}

/// std's `char::is_alphabetic`: whether the character has the Unicode
/// `Alphabetic` property. The property itself is named, not spelled out;
/// of it the contract states only that ASCII letters have it.
#[verifier::external_body]
pub(crate) fn char_is_alphabetic(c: char) -> (r: bool)
    ensures
        r == unicode_alphabetic(c),
        ('a' <= c && c <= 'z') || ('A' <= c && c <= 'Z') ==> r,
{
    c.is_alphabetic()
}

/// Whether the character has the Unicode `White_Space` property, the
/// property std's `char::is_whitespace` tests.
pub fn char_is_whitespace(c: char) -> (r: bool)
    ensures
        r == unicode_whitespace(c),
{
    ('\u{9}' <= c && c <= '\u{d}') || c == ' ' || c == '\u{85}' || c == '\u{a0}' || c == '\u{1680}' || ('\u{2000}'
        <= c && c <= '\u{200a}') || c == '\u{2028}' || c == '\u{2029}' || c == '\u{202f}' || c == '\u{205f}' || c
        == '\u{3000}'
}

/// The number of UTF-8 bytes of the first `k` characters of `s`.
pub open spec fn prefix_bytes(s: Seq<char>, k: int) -> nat {
    encode_utf8(s.take(k)).len()
}

/// std's `String::drain(..n)` on a byte index `n` that ends some prefix of
/// characters: what is left is the text after that prefix.
#[verifier::external_body]
pub(crate) fn drain_prefix_bytes(s: &mut String, n: usize)
    requires
        exists|k: int| 0 <= k <= old(s)@.len() && prefix_bytes(old(s)@, k) == n,
    ensures
        forall|k: int|
            0 <= k <= old(s)@.len() && prefix_bytes(old(s)@, k) == n ==> final(s)@ == old(
                s,
            )@.skip(k),
{
    s.drain(..n);
}

/// The UTF-8 encoding of a concatenation is the concatenation of the encodings.
pub proof fn lemma_encode_utf8_concat(a: Seq<char>, b: Seq<char>)
    ensures
        encode_utf8(a + b) == encode_utf8(a) + encode_utf8(b),
    decreases a.len(),
{
    if a.len() == 0 {
        assert(a + b =~= b);
    } else {
        lemma_encode_utf8_concat(a.drop_first(), b);
        assert((a + b).drop_first() =~= a.drop_first() + b);
        assert(encode_utf8(a) =~= encode_scalar(a[0] as u32) + encode_utf8(a.drop_first()));
        assert(encode_utf8(a + b) =~= encode_scalar(a[0] as u32) + encode_utf8(a.drop_first() + b));
    }
}

/// Taking one more character adds that character's encoding length.
pub proof fn lemma_prefix_bytes_step(s: Seq<char>, k: int)
    requires
        0 <= k < s.len(),
    ensures
        prefix_bytes(s, k + 1) == prefix_bytes(s, k) + encode_utf8(seq![s[k]]).len(),
{
    assert(s.take(k + 1) =~= s.take(k) + seq![s[k]]);
    lemma_encode_utf8_concat(s.take(k), seq![s[k]]);
}

/// The number of UTF-8 bytes of one character.
pub fn char_bytes(c: char) -> (n: usize)
    ensures
        n == encode_utf8(seq![c]).len(),
{
    proof {
        assert(encode_utf8(seq![c]) =~= encode_scalar(c as u32) + encode_utf8(seq![c].drop_first()));
        assert(encode_utf8(seq![c].drop_first()) =~= Seq::<u8>::empty());
    }
    let v = c as u32;
    if v <= 0x7f {
        1
    } else if v <= 0x7ff {
        2
    } else if v <= 0xffff {
        3
    } else {
        4
    }
}

/// Whether `start` plus the UTF-8 bytes of the first `k` characters of `s`
/// fits `usize`.
pub fn prefix_bytes_fit(s: &str, k: usize, start: usize) -> (b: bool)
    requires
        k <= s@.len(),
    ensures
        b == (start + prefix_bytes(s@, k as int) <= usize::MAX),
{
    let mut acc: usize = start;
    let mut i: usize = 0;
    proof {
        assert(s@.take(0) =~= Seq::<char>::empty());
    }
    while i < k
        invariant
            k <= s@.len(),
            0 <= i <= k,
            acc == start + prefix_bytes(s@, i as int),
        decreases k - i,
    {
        let c = s.get_char(i);
        let b = char_bytes(c);
        proof {
            lemma_prefix_bytes_step(s@, i as int);
        }
        if b > usize::MAX - acc {
            proof {
                if i + 1 < k {
                    lemma_prefix_bytes_strict(s@, i + 1, k as int);
                }
            }
            return false;
        }
        acc = acc + b;
        i = i + 1;
    }
    true
}

/// Every character takes at least one byte, so prefix lengths grow strictly.
pub proof fn lemma_prefix_bytes_strict(s: Seq<char>, j: int, k: int)
    requires
        0 <= j < k <= s.len(),
    ensures
        prefix_bytes(s, j) < prefix_bytes(s, k),
    decreases k - j,
{
    lemma_prefix_bytes_step(s, k - 1);
    assert(encode_utf8(seq![s[k - 1]]).len() >= 1) by {
        assert(encode_utf8(seq![s[k - 1]]) =~= encode_scalar(s[k - 1] as u32) + encode_utf8(
            seq![s[k - 1]].drop_first(),
        ));
    }
    if j < k - 1 {
        lemma_prefix_bytes_strict(s, j, k - 1);
    }
}

} // verus!
