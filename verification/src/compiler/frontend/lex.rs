use vstd::prelude::*;
use vstd::string::StringSliceAdditionalSpecFns;

use crate::compiler::frontend::manager::Manager;
use crate::compiler::frontend::token::{eof_at, kind_eq, Position, Token, TokenKind};
use crate::text::{
    char_is_alphabetic, char_is_whitespace, drain_prefix_bytes, lemma_prefix_bytes_step, prefix_bytes, prefix_bytes_fit, push_char, str_eq,
    unicode_alphabetic, unicode_whitespace,
};

verus! {

/// A decimal digit.
pub open spec fn is_digit(c: char) -> bool {
    '0' <= c && c <= '9'
}

/// An ASCII letter.
pub open spec fn is_ascii_alpha(c: char) -> bool {
    ('a' <= c && c <= 'z') || ('A' <= c && c <= 'Z')
}

/// A character that continues a word: a letter, `_` or a digit.
pub open spec fn is_word_char(c: char) -> bool {
    unicode_alphabetic(c) || c == '_' || is_digit(c)
}

/// A character that continues a run of blanks.
pub open spec fn is_blank_char(c: char) -> bool {
    unicode_whitespace(c) || c == '\t'
}

/// The number of leading characters of `s` that satisfy `p`.
pub open spec fn leading(s: Seq<char>, p: spec_fn(char) -> bool) -> nat
    decreases s.len(),
{
    if s.len() == 0 || !p(s[0]) {
        0
    } else {
        1 + leading(s.drop_first(), p)
    }
}

/// The value of a run of decimal digits.
pub open spec fn digits_value(s: Seq<char>) -> int
    decreases s.len(),
{
    if s.len() == 0 {
        0
    } else {
        digits_value(s.drop_last()) * 10 + (s.last() as int - '0' as int)
    }
}

/// The token kind of a one-character symbol.
pub open spec fn symbol_of(c: char) -> Option<TokenKind> {
    if c == '+' {
        Some(TokenKind::PLUS)
    } else if c == '-' {
        Some(TokenKind::MINUS)
    } else if c == '*' {
        Some(TokenKind::ASTERISK)
    } else if c == '/' {
        Some(TokenKind::SLASH)
    } else if c == ':' {
        Some(TokenKind::COLON)
    } else if c == ';' {
        Some(TokenKind::SEMICOLON)
    } else if c == '(' {
        Some(TokenKind::LPAREN)
    } else if c == ')' {
        Some(TokenKind::RPAREN)
    } else if c == '{' {
        Some(TokenKind::LBRACE)
    } else if c == '}' {
        Some(TokenKind::RBRACE)
    } else if c == '=' {
        Some(TokenKind::ASSIGN)
    } else if c == ',' {
        Some(TokenKind::COMMA)
    } else {
        None
    }
}

/// The kind the keyword table gives a word: the first entry for it.
pub open spec fn keyword_lookup(kws: Seq<(String, TokenKind)>, w: Seq<char>) -> Option<TokenKind>
    decreases kws.len(),
{
    if kws.len() == 0 {
        None
    } else if kws[0].0@ == w {
        Some(kws[0].1)
    } else {
        keyword_lookup(kws.drop_first(), w)
    }
}

/// A kind a keyword can have.
pub open spec fn is_keyword_kind(k: TokenKind) -> bool {
    k is RETURN || k is INT || k is VOID || k is GOTO || k is IF || k is ELSE || k is FOR || k is DO || k is WHILE
}

/// The keyword table holds only keyword kinds.
pub open spec fn keywords_wf(kws: Seq<(String, TokenKind)>) -> bool {
    forall|i: int| 0 <= i < kws.len() ==> is_keyword_kind(#[trigger] kws[i].1)
}

/// A lookup in a table of keyword kinds gives a keyword kind.
pub proof fn lemma_lookup_keyword(kws: Seq<(String, TokenKind)>, w: Seq<char>)
    requires
        keywords_wf(kws),
    ensures
        keyword_lookup(kws, w) matches Some(k) ==> is_keyword_kind(k),
    decreases kws.len(),
{
    if kws.len() > 0 {
        assert(is_keyword_kind(kws[0].1));
        assert forall|i: int| 0 <= i < kws.drop_first().len() implies is_keyword_kind(#[trigger] kws.drop_first()[i].1) by {
            assert(kws.drop_first()[i] == kws[i + 1]);
        }
        lemma_lookup_keyword(kws.drop_first(), w);
    }
}

/// How many characters one scan takes from `s`: a run of digits, one
/// symbol, a word, a run of blanks or one newline; none at the end of the
/// input or before a character that starts no token.
pub open spec fn scan_len(s: Seq<char>) -> nat {
    if s.len() == 0 {
        0
    } else {
        let c = s[0];
        if is_digit(c) {
            leading(s, |x: char| is_digit(x))
        } else if symbol_of(c) is Some {
            1
        } else if is_ascii_alpha(c) || c == '_' {
            leading(s, |x: char| is_word_char(x))
        } else if c == ' ' || c == '\t' {
            leading(s, |x: char| is_blank_char(x))
        } else if c == '\n' {
            1
        } else {
            0
        }
    }
}

/// The next scan gives a token the lexer drops: blanks or a newline.
pub open spec fn is_ignored(s: Seq<char>) -> bool {
    s.len() > 0 && (s[0] == ' ' || s[0] == '\t' || s[0] == '\n')
}

/// The row after one scan: a newline moves to the next row.
pub open spec fn next_row(row: usize, s: Seq<char>) -> int {
    if s.len() > 0 && s[0] == '\n' {
        row + 1
    } else {
        row as int
    }
}

/// The column after one scan: a newline returns to column 1; otherwise the
/// column moves by the bytes taken.
pub open spec fn next_col(col: usize, s: Seq<char>) -> int {
    if s.len() > 0 && s[0] == '\n' {
        1
    } else {
        col + prefix_bytes(s, scan_len(s) as int)
    }
}

/// `tok` is the token that a scan of `s` at (`row`, `col`) gives, when the
/// scan starts a number, a symbol or a word.
pub open spec fn token_ok(kws: Seq<(String, TokenKind)>, row: usize, col: usize, s: Seq<char>, tok: Token) -> bool {
    let c = s[0];
    let k = scan_len(s) as int;
    if is_digit(c) {
        tok == (Token { position: (row, col), kind: TokenKind::INTEGER(digits_value(s.take(k)) as i128) })
    } else if symbol_of(c) is Some {
        tok == (Token { position: (row, col), kind: symbol_of(c)->0 })
    } else {
        &&& tok.position == (row, col)
        &&& match keyword_lookup(kws, s.take(k)) {
            Some(kd) => kind_eq(tok.kind, kd),
            None => tok.kind matches TokenKind::IDENTIFIER(n) && n@ == s.take(k),
        }
    }
}

/// What one scan of `s` at (`row`, `col`) gives: the end-of-input token at
/// the end, nothing before a character that starts no token, blank and
/// newline tokens at (0, 0), otherwise the token `token_ok` describes.
pub open spec fn scan_token(kws: Seq<(String, TokenKind)>, row: usize, col: usize, s: Seq<char>, t: Option<Token>) -> bool {
    if s.len() == 0 {
        t == Some(eof_at((row, col)))
    } else if scan_len(s) == 0 {
        t is None
    } else if s[0] == '\n' {
        t == Some(Token { position: (0, 0), kind: TokenKind::NEWLINE })
    } else if is_ignored(s) {
        t == Some(Token { position: (0, 0), kind: TokenKind::BLANK })
    } else {
        t matches Some(tok) && token_ok(kws, row, col, s, tok)
    }
}

/// One scan of `s` fits the machine: a number fits `i128`, and the row and
/// column fit `usize`.
pub open spec fn scan_ok(row: usize, col: usize, s: Seq<char>) -> bool {
    &&& next_row(row, s) <= usize::MAX
    &&& next_col(col, s) <= usize::MAX
    &&& s.len() > 0 && is_digit(s[0]) ==> digits_value(s.take(scan_len(s) as int)) <= i128::MAX
}

/// The tokens the lexer gives for `s` from (`row`, `col`): blanks and
/// newlines dropped, ending at the end-of-input token, or cut short before a
/// character that starts no token.
pub open spec fn lexed(kws: Seq<(String, TokenKind)>, row: usize, col: usize, s: Seq<char>, toks: Seq<Token>) -> bool
    decreases s.len(),
{
    if s.len() == 0 {
        toks == seq![eof_at((row, col))]
    } else if scan_len(s) == 0 {
        toks.len() == 0
    } else {
        proof {
            lemma_scan_len(s);
        }
        let s2 = s.skip(scan_len(s) as int);
        if is_ignored(s) {
            lexed(kws, next_row(row, s) as usize, next_col(col, s) as usize, s2, toks)
        } else {
            &&& toks.len() > 0
            &&& token_ok(kws, row, col, s, toks[0])
            &&& lexed(kws, row, next_col(col, s) as usize, s2, toks.drop_first())
        }
    }
}

/// Every scan of `s` from (`row`, `col`) fits the machine.
pub open spec fn lex_ok(row: usize, col: usize, s: Seq<char>) -> bool
    decreases s.len(),
{
    if s.len() == 0 || scan_len(s) == 0 {
        true
    } else {
        proof {
            lemma_scan_len(s);
        }
        scan_ok(row, col, s) && lex_ok(next_row(row, s) as usize, next_col(col, s) as usize, s.skip(scan_len(s) as int))
    }
}

/// `leading` counts a prefix of characters that satisfy the predicate and
/// stops at one that does not.
pub proof fn lemma_leading(s: Seq<char>, p: spec_fn(char) -> bool)
    ensures
        leading(s, p) <= s.len(),
        forall|j: int| 0 <= j < leading(s, p) ==> p(#[trigger] s[j]),
        leading(s, p) < s.len() ==> !p(s[leading(s, p) as int]),
    decreases s.len(),
{
    if s.len() > 0 && p(s[0]) {
        lemma_leading(s.drop_first(), p);
        assert forall|j: int| 0 <= j < leading(s, p) implies p(#[trigger] s[j]) by {
            if j > 0 {
                assert(s[j] == s.drop_first()[j - 1]);
            }
        }
    }
}

/// A prefix whose characters satisfy the predicate, ended by one that does
/// not (or by the end), is what `leading` counts.
pub proof fn lemma_leading_unique(s: Seq<char>, p: spec_fn(char) -> bool, k: int)
    requires
        0 <= k <= s.len(),
        forall|j: int| 0 <= j < k ==> p(#[trigger] s[j]),
        k < s.len() ==> !p(s[k]),
    ensures
        leading(s, p) == k,
    decreases s.len(),
{
    if k > 0 {
        assert(p(s[0]));
        assert forall|j: int| 0 <= j < k - 1 implies p(#[trigger] s.drop_first()[j]) by {
            assert(s.drop_first()[j] == s[j + 1]);
        }
        if k - 1 < s.drop_first().len() {
            assert(s.drop_first()[k - 1] == s[k]);
        }
        lemma_leading_unique(s.drop_first(), p, k - 1);
    }
}

/// One scan takes no more characters than there are.
pub proof fn lemma_scan_len(s: Seq<char>)
    ensures
        scan_len(s) <= s.len(),
{
    lemma_leading(s, |x: char| is_digit(x));
    lemma_leading(s, |x: char| is_word_char(x));
    lemma_leading(s, |x: char| is_blank_char(x));
}

/// A run of digits has a value at least that of each of its prefixes.
pub proof fn lemma_digits_prefix(s: Seq<char>, j: int)
    requires
        0 <= j <= s.len(),
        forall|i: int| 0 <= i < s.len() ==> is_digit(#[trigger] s[i]),
    ensures
        0 <= digits_value(s.take(j)) <= digits_value(s),
    decreases s.len(),
{
    if s.len() > 0 {
        if j == s.len() {
            assert(s.take(j) =~= s);
            lemma_digits_prefix(s.drop_last(), j - 1);
            assert(s.drop_last().take(j - 1) =~= s.drop_last());
        } else {
            lemma_digits_prefix(s.drop_last(), j);
            assert(s.drop_last().take(j) =~= s.take(j));
            lemma_digits_prefix(s.drop_last(), s.len() - 1);
            assert(s.drop_last().take(s.len() - 1) =~= s.drop_last());
        }
    } else {
        assert(s.take(j) =~= s);
    }
}

/// Whether the character continues a word (see `is_word_char`).
pub fn word_char(c: &char) -> (b: bool)
    ensures
        b == is_word_char(*c),
        is_ascii_alpha(*c) ==> b,
{
    char_is_alphabetic(*c) || *c == '_' || ('0' <= *c && *c <= '9')
}

/// Whether the character is a decimal digit.
pub fn digit_char(c: &char) -> (b: bool)
    ensures
        b == is_digit(*c),
{
    '0' <= *c && *c <= '9'
}

/// Whether the character continues a run of blanks (see `is_blank_char`).
pub fn blank_char(c: &char) -> (b: bool)
    ensures
        b == is_blank_char(*c),
        *c == ' ' ==> b,
{
    char_is_whitespace(*c) || *c == '\t'
}

/// The lexer's state: where it is, what is left of the input, and its
/// keyword table.
pub struct Lexer {
    pub column: usize,
    pub row: usize,
    pub contents: String,
    pub keywords: Vec<(String, TokenKind)>,
}

impl Lexer {
    /// A lexer at row 1, column 1 of `contents`, with no keywords yet.
    pub fn new(contents: String) -> (l: Self)
        ensures
            l.row == 1,
            l.column == 1,
            l.contents == contents,
            l.keywords@.len() == 0,
    {
        Self { row: 1, column: 1, contents, keywords: Vec::new() }
    }

    /// All tokens of what is left of the input (see `lexed`).
    pub fn build_tokens(&mut self) -> (tokens: Vec<Token>)
        requires
            lex_ok(old(self).row, old(self).column, old(self).contents@),
            keywords_wf(old(self).keywords@),
        ensures
            lexed(old(self).keywords@, old(self).row, old(self).column, old(self).contents@, tokens@),
            final(self).keywords == old(self).keywords,
    {
        let ghost kws = self.keywords@;
        let ghost row0 = self.row;
        let ghost col0 = self.column;
        let ghost s0 = self.contents@;
        let mut tokens: Vec<Token> = Vec::new();
        loop
            invariant_except_break
                forall|rest: Seq<Token>|
                    #[trigger] lexed(kws, self.row, self.column, self.contents@, rest) ==> lexed(kws, row0, col0, s0, tokens@ + rest),
            invariant
                self.keywords == old(self).keywords,
                kws == self.keywords@,
                keywords_wf(kws),
                lex_ok(self.row, self.column, self.contents@),
            ensures
                lexed(kws, row0, col0, s0, tokens@),
                self.keywords == old(self).keywords,
            decreases self.contents@.len(),
        {
            let ghost r = self.row;
            let ghost c = self.column;
            let ghost s = self.contents@;
            proof {
                lemma_scan_len(s);
            }
            let scanned = self.scan_one_token();
            proof {
                if s.len() > 0 && scan_len(s) > 0 && !is_ignored(s) && !is_digit(s[0]) && !(symbol_of(s[0]) is Some) {
                    lemma_lookup_keyword(kws, s.take(scan_len(s) as int));
                }
            }
            match scanned {
                None => {
                    proof {
                        assert(lexed(kws, r, c, s, Seq::empty()));
                        assert(tokens@ + Seq::<Token>::empty() =~= tokens@);
                    }
                    break;
                },
                Some(t) => {
                    if t.should_ignore() {
                        proof {
                            assert forall|rest: Seq<Token>|
                                #[trigger] lexed(kws, self.row, self.column, self.contents@, rest) implies lexed(
                                kws,
                                row0,
                                col0,
                                s0,
                                tokens@ + rest,
                            ) by {
                                assert(lexed(kws, r, c, s, rest));
                            }
                        }
                        continue;
                    }
                    if let TokenKind::EOF = t.kind {
                        let ghost t0 = t;
                        let ghost before = tokens@;
                        tokens.push(t);
                        proof {
                            assert(s.len() == 0);
                            assert(lexed(kws, r, c, s, seq![t0]));
                            assert(lexed(kws, row0, col0, s0, before + seq![t0]));
                            assert(tokens@ =~= before + seq![t0]);
                        }
                        break;
                    }
                    let ghost t0 = t;
                    let ghost before = tokens@;
                    tokens.push(t);
                    proof {
                        assert forall|rest: Seq<Token>|
                            #[trigger] lexed(kws, self.row, self.column, self.contents@, rest) implies lexed(
                            kws,
                            row0,
                            col0,
                            s0,
                            tokens@ + rest,
                        ) by {
                            let full = seq![t0] + rest;
                            assert(full.drop_first() =~= rest);
                            assert(lexed(kws, r, c, s, full));
                            assert(before + full =~= tokens@ + rest);
                        }
                    }
                },
            }
        }
        tokens
    }

    /// Whether a run of decimal digits has a value that fits `i128`.
    pub fn digits_fit_i128(digits: &str) -> (b: bool)
        requires
            forall|i: int| 0 <= i < digits@.len() ==> is_digit(#[trigger] digits@[i]),
        ensures
            b == (digits_value(digits@) <= i128::MAX),
    {
        let n = digits.unicode_len();
        let mut value: i128 = 0;
        let mut i: usize = 0;
        while i < n
            invariant
                n == digits@.len(),
                0 <= i <= n,
                forall|j: int| 0 <= j < digits@.len() ==> is_digit(#[trigger] digits@[j]),
                value == digits_value(digits@.take(i as int)),
                0 <= value,
            decreases n - i,
        {
            let c = digits.get_char(i);
            proof {
                assert(digits@.take(i + 1).drop_last() =~= digits@.take(i as int));
                assert(digits@.take(i + 1).last() == c);
            }
            let d = (c as u32 - '0' as u32) as i128;
            if value > (i128::MAX - d) / 10 {
                proof {
                    lemma_digits_prefix(digits@, i + 1);
                }
                return false;
            }
            value = value * 10 + d;
            i = i + 1;
        }
        assert(digits@.take(n as int) =~= digits@);
        true
    }

    /// Whether one scan from where the lexer stands fits the machine (see
    /// `scan_ok`).
    pub fn scan_fits(&self) -> (b: bool)
        ensures
            b == scan_ok(self.row, self.column, self.contents@),
    {
        let ghost s = self.contents@;
        if self.contents.as_str().is_empty() {
            proof {
                assert(s.take(0) =~= Seq::<char>::empty());
            }
            return true;
        }
        let head_char = self.contents.as_str().get_char(0);
        if head_char == '\n' {
            return self.row < usize::MAX;
        }
        if '0' <= head_char && head_char <= '9' {
            let digits = Self::take_conditional_string(self.contents.as_str(), digit_char);
            let ghost k = digits@.len() as int;
            proof {
                assert(digits@ == s.take(k));
                lemma_leading_unique(s, |x: char| is_digit(x), k);
                assert forall|i: int| 0 <= i < digits@.len() implies is_digit(#[trigger] digits@[i]) by {
                    assert(digits@[i] == s[i]);
                }
            }
            let len = digits.as_str().unicode_len();
            assert(scan_len(s) == k);
            return prefix_bytes_fit(self.contents.as_str(), len, self.column) && Self::digits_fit_i128(digits.as_str());
        }
        let is_symbol = head_char == '+' || head_char == '-' || head_char == '*' || head_char == '/' || head_char == ':'
            || head_char == ';' || head_char == '(' || head_char == ')' || head_char == '{' || head_char == '}'
            || head_char == '=' || head_char == ',';
        if is_symbol {
            proof {
                lemma_prefix_bytes_step(s, 0);
                assert(prefix_bytes(s, 0) == 0);
                assert(vstd::utf8::encode_utf8(seq![s[0]]) =~= vstd::utf8::encode_scalar(s[0] as u32) + vstd::utf8::encode_utf8(
                    seq![s[0]].drop_first(),
                ));
            }
            return self.column < usize::MAX;
        }
        if ('a' <= head_char && head_char <= 'z') || ('A' <= head_char && head_char <= 'Z') || head_char == '_' {
            let word = Self::take_conditional_string(self.contents.as_str(), word_char);
            let ghost k = word@.len() as int;
            proof {
                assert(word@ == s.take(k));
                lemma_leading_unique(s, |x: char| is_word_char(x), k);
            }
            let len = word.as_str().unicode_len();
            assert(scan_len(s) == k);
            return prefix_bytes_fit(self.contents.as_str(), len, self.column);
        }
        if head_char == ' ' || head_char == '\t' {
            let blanks = Self::take_conditional_string(self.contents.as_str(), blank_char);
            let ghost k = blanks@.len() as int;
            proof {
                assert(blanks@ == s.take(k));
                lemma_leading_unique(s, |x: char| is_blank_char(x), k);
            }
            let len = blanks.as_str().unicode_len();
            assert(scan_len(s) == k);
            return prefix_bytes_fit(self.contents.as_str(), len, self.column);
        }
        proof {
            assert(s.take(0) =~= Seq::<char>::empty());
        }
        true
    }

    /// Scans one token (see `scan_token`); the lexer moves past what it took.
    pub fn scan_one_token(&mut self) -> (t: Option<Token>)
        requires
            scan_ok(old(self).row, old(self).column, old(self).contents@),
            keywords_wf(old(self).keywords@),
        ensures
            scan_token(old(self).keywords@, old(self).row, old(self).column, old(self).contents@, t),
            final(self).row == next_row(old(self).row, old(self).contents@),
            final(self).column == next_col(old(self).column, old(self).contents@),
            final(self).contents@ == old(self).contents@.skip(scan_len(old(self).contents@) as int),
            final(self).keywords == old(self).keywords,
    {
        let ghost s = self.contents@;
        if self.contents.as_str().is_empty() {
            let cur_position = self.current_position();
            assert(s.skip(0) =~= s);
            return Some(Token::new(cur_position, TokenKind::EOF));
        }
        let head_char = self.contents.as_str().get_char(0);
        if '0' <= head_char && head_char <= '9' {
            return Some(self.scan_number());
        }
        let symbol = if head_char == '+' {
            Some(TokenKind::PLUS)
        } else if head_char == '-' {
            Some(TokenKind::MINUS)
        } else if head_char == '*' {
            Some(TokenKind::ASTERISK)
        } else if head_char == '/' {
            Some(TokenKind::SLASH)
        } else if head_char == ':' {
            Some(TokenKind::COLON)
        } else if head_char == ';' {
            Some(TokenKind::SEMICOLON)
        } else if head_char == '(' {
            Some(TokenKind::LPAREN)
        } else if head_char == ')' {
            Some(TokenKind::RPAREN)
        } else if head_char == '{' {
            Some(TokenKind::LBRACE)
        } else if head_char == '}' {
            Some(TokenKind::RBRACE)
        } else if head_char == '=' {
            Some(TokenKind::ASSIGN)
        } else if head_char == ',' {
            Some(TokenKind::COMMA)
        } else {
            None
        };
        if let Some(kind) = symbol {
            proof {
                lemma_prefix_bytes_step(s, 0);
                assert(prefix_bytes(s, 0) == 0);
                assert(vstd::utf8::encode_utf8(seq![s[0]]) =~= vstd::utf8::encode_scalar(s[0] as u32) + vstd::utf8::encode_utf8(
                    seq![s[0]].drop_first(),
                ));
            }
            return Some(self.scan_symbol(kind));
        }
        if ('a' <= head_char && head_char <= 'z') || ('A' <= head_char && head_char <= 'Z') || head_char == '_' {
            return Some(self.scan_word());
        }
        if head_char == ' ' || head_char == '\t' {
            return Some(self.skip_whitespace());
        }
        if head_char == '\n' {
            self.column = 1;
            self.row = self.row + 1;
            proof {
                lemma_prefix_bytes_step(s, 0);
                assert(prefix_bytes(s, 0) == 0);
                assert(vstd::utf8::encode_utf8(seq![s[0]]) =~= vstd::utf8::encode_scalar(s[0] as u32) + vstd::utf8::encode_utf8(
                    seq![s[0]].drop_first(),
                ));
            }
            drain_prefix_bytes(&mut self.contents, 1);
            return Some(Token::new((0, 0), TokenKind::NEWLINE));
        }
        assert(s.skip(0) =~= s);
        None
    }

    /// Scans a word: a keyword from the table, or an identifier.
    pub fn scan_word(&mut self) -> (t: Token)
        requires
            old(self).contents@.len() > 0,
            is_ascii_alpha(old(self).contents@[0]) || old(self).contents@[0] == '_',
            scan_ok(old(self).row, old(self).column, old(self).contents@),
        ensures
            token_ok(old(self).keywords@, old(self).row, old(self).column, old(self).contents@, t),
            scan_len(old(self).contents@) > 0,
            final(self).row == old(self).row,
            final(self).column == next_col(old(self).column, old(self).contents@),
            final(self).contents@ == old(self).contents@.skip(scan_len(old(self).contents@) as int),
            final(self).keywords == old(self).keywords,
    {
        let ghost s = self.contents@;
        let cur_position = self.current_position();
        let word = Self::take_conditional_string(
            self.contents.as_str(),
            word_char,
        );
        let ghost k = word@.len() as int;
        proof {
            assert(word@ == s.take(k));
            lemma_leading_unique(s, |x: char| is_word_char(x), k);
        }
        let len = word.as_str().len();
        self.skip_offset(len);
        let found = Self::find_keyword(&self.keywords, word.as_str());
        match found {
            Some(t_kind) => Token::new(cur_position, t_kind),
            None => Token::new(cur_position, TokenKind::IDENTIFIER(word)),
        }
    }

    /// The kind the keyword table gives `word` (see `keyword_lookup`).
    pub fn find_keyword(keywords: &Vec<(String, TokenKind)>, word: &str) -> (r: Option<TokenKind>)
        ensures
            match keyword_lookup(keywords@, word@) {
                Some(kd) => r matches Some(k) && kind_eq(k, kd),
                None => r is None,
            },
    {
        let mut i: usize = 0;
        assert(keywords@.skip(0) =~= keywords@);
        while i < keywords.len()
            invariant
                0 <= i <= keywords@.len(),
                keyword_lookup(keywords@, word@) == keyword_lookup(keywords@.skip(i as int), word@),
            decreases keywords@.len() - i,
        {
            assert(keywords@.skip(i as int).drop_first() =~= keywords@.skip(i + 1));
            if str_eq(keywords[i].0.as_str(), word) {
                return Some(keywords[i].1.duplicate());
            }
            i = i + 1;
        }
        None
    }

    /// Scans a run of digits into an integer token.
    pub fn scan_number(&mut self) -> (t: Token)
        requires
            old(self).contents@.len() > 0,
            is_digit(old(self).contents@[0]),
            scan_ok(old(self).row, old(self).column, old(self).contents@),
        ensures
            token_ok(old(self).keywords@, old(self).row, old(self).column, old(self).contents@, t),
            scan_len(old(self).contents@) > 0,
            final(self).row == old(self).row,
            final(self).column == next_col(old(self).column, old(self).contents@),
            final(self).contents@ == old(self).contents@.skip(scan_len(old(self).contents@) as int),
            final(self).keywords == old(self).keywords,
    {
        let ghost s = self.contents@;
        let digits = Self::take_conditional_string(
            self.contents.as_str(),
            digit_char,
        );
        let ghost k = digits@.len() as int;
        proof {
            assert(digits@ == s.take(k));
            lemma_leading_unique(s, |x: char| is_digit(x), k);
        }
        let number_length = digits.as_str().len();
        let decimal_value = Self::digits_to_i128(digits.as_str());
        let cur_position = self.current_position();
        self.skip_offset(number_length);
        Token::new(cur_position, TokenKind::INTEGER(decimal_value))
    }

    /// The value of a run of decimal digits that fits `i128`.
    pub fn digits_to_i128(digits: &str) -> (v: i128)
        requires
            forall|i: int| 0 <= i < digits@.len() ==> is_digit(#[trigger] digits@[i]),
            digits_value(digits@) <= i128::MAX,
        ensures
            v == digits_value(digits@),
    {
        let n = digits.unicode_len();
        let mut value: i128 = 0;
        let mut i: usize = 0;
        while i < n
            invariant
                n == digits@.len(),
                0 <= i <= n,
                forall|j: int| 0 <= j < digits@.len() ==> is_digit(#[trigger] digits@[j]),
                digits_value(digits@) <= i128::MAX,
                value == digits_value(digits@.take(i as int)),
            decreases n - i,
        {
            let c = digits.get_char(i);
            proof {
                lemma_digits_prefix(digits@, i + 1);
                assert(digits@.take(i + 1).drop_last() =~= digits@.take(i as int));
                assert(digits@.take(i + 1).last() == c);
            }
            let d = (c as u32 - '0' as u32) as i128;
            value = value * 10 + d;
            i = i + 1;
        }
        assert(digits@.take(n as int) =~= digits@);
        value
    }

    /// Scans a one-character symbol into a token of the given kind.
    pub fn scan_symbol(&mut self, kind: TokenKind) -> (t: Token)
        requires
            old(self).contents@.len() > 0,
            prefix_bytes(old(self).contents@, 1) == 1,
            old(self).column + 1 <= usize::MAX,
        ensures
            t == (Token { position: (old(self).row, old(self).column), kind }),
            final(self).row == old(self).row,
            final(self).column == old(self).column + 1,
            final(self).contents@ == old(self).contents@.skip(1),
            final(self).keywords == old(self).keywords,
    {
        let cur_position = self.current_position();
        self.skip_offset(1);
        Token::new(cur_position, kind)
    }

    /// Skips a run of blanks, giving a blank token.
    pub fn skip_whitespace(&mut self) -> (t: Token)
        requires
            old(self).contents@.len() > 0,
            old(self).contents@[0] == ' ' || old(self).contents@[0] == '\t',
            scan_ok(old(self).row, old(self).column, old(self).contents@),
        ensures
            t == (Token { position: (0, 0), kind: TokenKind::BLANK }),
            scan_len(old(self).contents@) > 0,
            final(self).row == old(self).row,
            final(self).column == next_col(old(self).column, old(self).contents@),
            final(self).contents@ == old(self).contents@.skip(scan_len(old(self).contents@) as int),
            final(self).keywords == old(self).keywords,
    {
        let ghost s = self.contents@;
        let blanks = Self::take_conditional_string(
            self.contents.as_str(),
            blank_char,
        );
        let ghost k = blanks@.len() as int;
        proof {
            assert(blanks@ == s.take(k));
            lemma_leading_unique(s, |x: char| is_blank_char(x), k);
        }
        let ws_length = blanks.as_str().len();
        self.skip_offset(ws_length);
        Token::new((0, 0), TokenKind::BLANK)
    }

    /// Fills the keyword table with the language's keywords.
    pub fn build_keywords(&mut self)
        requires
            keywords_wf(old(self).keywords@),
        ensures
            keywords_wf(final(self).keywords@),
            final(self).row == old(self).row,
            final(self).column == old(self).column,
            final(self).contents == old(self).contents,
            forall|w: Seq<char>|
                #![trigger keyword_lookup(final(self).keywords@, w)]
                keyword_lookup(final(self).keywords@, w) == keyword_of(w, keyword_lookup(old(self).keywords@, w)),
    {
        let ghost kws0 = self.keywords@;
        Self::insert_keyword(&mut self.keywords, "return", TokenKind::RETURN);
        Self::insert_keyword(&mut self.keywords, "int", TokenKind::INT);
        Self::insert_keyword(&mut self.keywords, "void", TokenKind::VOID);
        Self::insert_keyword(&mut self.keywords, "goto", TokenKind::GOTO);
        Self::insert_keyword(&mut self.keywords, "if", TokenKind::IF);
        Self::insert_keyword(&mut self.keywords, "else", TokenKind::ELSE);
        Self::insert_keyword(&mut self.keywords, "for", TokenKind::FOR);
        Self::insert_keyword(&mut self.keywords, "do", TokenKind::DO);
        Self::insert_keyword(&mut self.keywords, "while", TokenKind::WHILE);
    }

    /// Enters `name` into the keyword table with `kind`, replacing an
    /// entry it already has.
    pub fn insert_keyword(keywords: &mut Vec<(String, TokenKind)>, name: &str, kind: TokenKind)
        ensures
            keywords_wf(old(keywords)@) && is_keyword_kind(kind) ==> keywords_wf(final(keywords)@),
            forall|w: Seq<char>|
                #![trigger keyword_lookup(final(keywords)@, w)]
                keyword_lookup(final(keywords)@, w) == if w == name@ {
                    Some(kind)
                } else {
                    keyword_lookup(old(keywords)@, w)
                },
    {
        let ghost kws0 = keywords@;
        let mut i: usize = 0;
        while i < keywords.len()
            invariant
                keywords@ == kws0,
                kws0 == old(keywords)@,
                0 <= i <= keywords@.len(),
                forall|j: int| 0 <= j < i ==> (#[trigger] keywords@[j]).0@ != name@,
            decreases keywords@.len() - i,
        {
            if str_eq(keywords[i].0.as_str(), name) {
                let entry = (keywords[i].0.clone(), kind);
                keywords.set(i, entry);
                proof {
                    assert forall|w: Seq<char>| #[trigger] keyword_lookup(keywords@, w) == if w == name@ {
                        Some(kind)
                    } else {
                        keyword_lookup(kws0, w)
                    } by {
                        lemma_lookup_set(kws0, i as int, entry, w);
                    }
                }
                return;
            }
            i = i + 1;
        }
        let entry = (name.to_string(), kind);
        let ghost e = entry;
        keywords.push(entry);
        proof {
            assert forall|w: Seq<char>| #[trigger] keyword_lookup(keywords@, w) == if w == name@ {
                Some(kind)
            } else {
                keyword_lookup(kws0, w)
            } by {
                lemma_lookup_push(kws0, e, w);
            }
        }
    }

    /// Moves past `len` bytes of input: the column moves by as much.
    pub fn skip_offset(&mut self, len: usize)
        requires
            old(self).column + len <= usize::MAX,
            exists|k: int| 0 <= k <= old(self).contents@.len() && prefix_bytes(old(self).contents@, k) == len,
        ensures
            final(self).column == old(self).column + len,
            final(self).row == old(self).row,
            final(self).keywords == old(self).keywords,
            forall|k: int|
                0 <= k <= old(self).contents@.len() && prefix_bytes(old(self).contents@, k) == len
                    ==> final(self).contents@ == old(self).contents@.skip(k),
    {
        self.column = self.column + len;
        drain_prefix_bytes(&mut self.contents, len);
    }

    /// The longest prefix of `input` whose characters all satisfy `f`.
    pub fn take_conditional_string<F: Fn(&char) -> bool>(input: &str, f: F) -> (r: String)
        requires
            forall|c: &char| #[trigger] f.requires((c,)),
        ensures
            exists|k: int|
                0 <= k <= input@.len() && r@ == input@.take(k) && (forall|j: int|
                    0 <= j < k ==> f.ensures((&input@[j],), true)) && (k < input@.len() ==> f.ensures(
                    (&input@[k],),
                    false,
                )),
    {
        let n = input.unicode_len();
        let mut out = String::new();
        let mut i: usize = 0;
        let mut go = true;
        while go && i < n
            invariant
                n == input@.len(),
                0 <= i <= n,
                forall|c: &char| #[trigger] f.requires((c,)),
                out@ == input@.take(i as int),
                forall|j: int| 0 <= j < i ==> f.ensures((&input@[j],), true),
                !go ==> i < n && f.ensures((&input@[i as int],), false),
            decreases n - i + (if go {
                1int
            } else {
                0int
            }),
        {
            let c = input.get_char(i);
            if f(&c) {
                push_char(&mut out, c);
                proof {
                    assert(input@.take(i + 1) =~= input@.take(i as int).push(c));
                }
                i = i + 1;
            } else {
                go = false;
            }
        }
        out
    }

    /// The number of bytes of the longest prefix of `input` whose characters
    /// all satisfy `f`.
    pub fn count_length<F: Fn(&char) -> bool>(input: &str, f: F) -> (n: usize)
        requires
            forall|c: &char| #[trigger] f.requires((c,)),
        ensures
            exists|k: int|
                0 <= k <= input@.len() && n == prefix_bytes(input@, k) as usize && (forall|j: int|
                    0 <= j < k ==> f.ensures((&input@[j],), true)) && (k < input@.len() ==> f.ensures(
                    (&input@[k],),
                    false,
                )),
    {
        let taken = Self::take_conditional_string(input, f);
        let taken_str = taken.as_str();
        let n = taken_str.len();
        proof {
            let k = choose|k: int|
                0 <= k <= input@.len() && taken@ == input@.take(k) && (forall|j: int|
                    0 <= j < k ==> f.ensures((&input@[j],), true)) && (k < input@.len() ==> f.ensures(
                    (&input@[k],),
                    false,
                ));
            assert(taken_str@ == taken@);
            assert(taken_str.spec_bytes() == vstd::utf8::encode_utf8(taken_str@));
            assert(n == prefix_bytes(input@, k) as usize);
        }
        n
    }

    /// The current row and column.
    pub fn current_position(&mut self) -> (p: Position)
        ensures
            p == (old(self).row, old(self).column),
            *final(self) == *old(self),
    {
        (self.row, self.column)
    }
}

/// The table after `build_keywords`: each keyword of the language has its
/// kind; other words keep what they had.
pub open spec fn keyword_of(w: Seq<char>, before: Option<TokenKind>) -> Option<TokenKind> {
    if w == "while"@ {
        Some(TokenKind::WHILE)
    } else if w == "do"@ {
        Some(TokenKind::DO)
    } else if w == "for"@ {
        Some(TokenKind::FOR)
    } else if w == "else"@ {
        Some(TokenKind::ELSE)
    } else if w == "if"@ {
        Some(TokenKind::IF)
    } else if w == "goto"@ {
        Some(TokenKind::GOTO)
    } else if w == "void"@ {
        Some(TokenKind::VOID)
    } else if w == "int"@ {
        Some(TokenKind::INT)
    } else if w == "return"@ {
        Some(TokenKind::RETURN)
    } else {
        before
    }
}

/// Replacing an entry whose key is the first of its kind changes only that key's lookup.
pub proof fn lemma_lookup_set(kws: Seq<(String, TokenKind)>, i: int, entry: (String, TokenKind), w: Seq<char>)
    requires
        0 <= i < kws.len(),
        entry.0@ == kws[i].0@,
        forall|j: int| 0 <= j < i ==> (#[trigger] kws[j]).0@ != entry.0@,
    ensures
        keyword_lookup(kws.update(i, entry), w) == if w == entry.0@ {
            Some(entry.1)
        } else {
            keyword_lookup(kws, w)
        },
    decreases i,
{
    assert(kws.update(i, entry)[i] == entry);
    if i == 0 {
        assert(kws.update(i, entry).drop_first() =~= kws.drop_first());
    } else {
        assert(kws.update(i, entry)[0] == kws[0]);
        assert(kws[0].0@ != entry.0@);
        assert(kws.update(i, entry).drop_first() =~= kws.drop_first().update(i - 1, entry));
        assert forall|j: int| 0 <= j < i - 1 implies (#[trigger] kws.drop_first()[j]).0@ != entry.0@ by {
            assert(kws.drop_first()[j] == kws[j + 1]);
        }
        lemma_lookup_set(kws.drop_first(), i - 1, entry, w);
    }
}

/// Appending an entry for a key not yet in the table adds just that key.
pub proof fn lemma_lookup_push(kws: Seq<(String, TokenKind)>, entry: (String, TokenKind), w: Seq<char>)
    requires
        forall|j: int| 0 <= j < kws.len() ==> (#[trigger] kws[j]).0@ != entry.0@,
    ensures
        keyword_lookup(kws.push(entry), w) == if w == entry.0@ {
            Some(entry.1)
        } else {
            keyword_lookup(kws, w)
        },
    decreases kws.len(),
{
    if kws.len() > 0 {
        assert(kws.push(entry).drop_first() =~= kws.drop_first().push(entry));
        assert forall|j: int| 0 <= j < kws.drop_first().len() implies (#[trigger] kws.drop_first()[j]).0@ != entry.0@ by {
            assert(kws.drop_first()[j] == kws[j + 1]);
        }
        lemma_lookup_push(kws.drop_first(), entry, w);
    } else {
        assert(kws.push(entry).drop_first() =~= kws);
    }
}


/// Every scan of `s` takes at least one character: the lexer reads the
/// whole input.
pub open spec fn scans_whole(s: Seq<char>) -> bool
    decreases s.len(),
{
    if s.len() == 0 {
        true
    } else if scan_len(s) == 0 {
        false
    } else {
        proof {
            lemma_scan_len(s);
        }
        scans_whole(s.skip(scan_len(s) as int))
    }
}

/// A token of a number, a symbol or a word is never the end-of-input token.
pub proof fn lemma_token_not_eof(kws: Seq<(String, TokenKind)>, row: usize, col: usize, s: Seq<char>, tok: Token)
    requires
        keywords_wf(kws),
        s.len() > 0,
        token_ok(kws, row, col, s, tok),
    ensures
        !(tok.kind is EOF),
{
    lemma_lookup_keyword(kws, s.take(scan_len(s) as int));
}

/// The lexer's tokens hold the end-of-input token at most once, as the last
/// token; when the lexer reads the whole input, the tokens end with it.
pub proof fn lemma_lexed_eof_last(kws: Seq<(String, TokenKind)>, row: usize, col: usize, s: Seq<char>, toks: Seq<Token>)
    requires
        keywords_wf(kws),
        lexed(kws, row, col, s, toks),
    ensures
        forall|i: int| 0 <= i < toks.len() - 1 ==> !(#[trigger] toks[i].kind is EOF),
        scans_whole(s) ==> toks.len() > 0 && toks.last().kind is EOF,
    decreases s.len(),
{
    if s.len() == 0 {
    } else if scan_len(s) == 0 {
    } else {
        lemma_scan_len(s);
        let s2 = s.skip(scan_len(s) as int);
        if is_ignored(s) {
            lemma_lexed_eof_last(kws, next_row(row, s) as usize, next_col(col, s) as usize, s2, toks);
        } else {
            let rest = toks.drop_first();
            lemma_lexed_eof_last(kws, row, next_col(col, s) as usize, s2, rest);
            lemma_token_not_eof(kws, row, col, s, toks[0]);
            assert forall|i: int| 0 <= i < toks.len() - 1 implies !(#[trigger] toks[i].kind is EOF) by {
                if i > 0 {
                    assert(toks[i] == rest[i - 1]);
                }
            }
            if scans_whole(s) {
                assert(toks.last() == rest.last());
            }
        }
    }
}

/// A keyword table of C--: `return`, `int`, `void`, `goto`, `if`, `else`,
/// `for`, `do` and `while`, each with its kind, and nothing else.
pub open spec fn c_keywords(kws: Seq<(String, TokenKind)>) -> bool {
    &&& keywords_wf(kws)
    &&& forall|w: Seq<char>| #[trigger] keyword_lookup(kws, w) == keyword_of(w, None)
}

/// Whether every scan of `contents` from row 1, column 1 fits the machine
/// (see `lex_ok`), as splitting it into tokens needs: every number fits
/// `i128`, and every row and column fits `usize`.
pub fn source_lexes(contents: &String) -> (b: bool)
    ensures
        b == lex_ok(1, 1, contents@),
{
    let mut lexer = Lexer::new(contents.clone());
    let ghost s0 = contents@;
    loop
        invariant
            lex_ok(1, 1, s0) == lex_ok(lexer.row, lexer.column, lexer.contents@),
            lexer.keywords@.len() == 0,
            s0 == contents@,
        decreases lexer.contents@.len(),
    {
        let ghost s = lexer.contents@;
        proof {
            lemma_scan_len(s);
        }
        if lexer.contents.as_str().is_empty() {
            return true;
        }
        if !lexer.scan_fits() {
            return false;
        }
        match lexer.scan_one_token() {
            None => {
                return true;
            },
            Some(_) => {},
        }
    }
}

/// Splits the manager's source text into tokens (see `lexed`), with the
/// keywords of C--, and stores them in the manager.
pub fn tokenize(manager: &mut Manager)
    requires
        lex_ok(1, 1, old(manager).src_file.contents@),
    ensures
        exists|kws: Seq<(String, TokenKind)>|
            #[trigger] c_keywords(kws) && lexed(kws, 1, 1, old(manager).src_file.contents@, final(manager).tokens@),
        final(manager).src_file == old(manager).src_file,
        final(manager).functions == old(manager).functions,
        final(manager).cur_token == old(manager).cur_token,
        final(manager).next_token == old(manager).next_token,
        final(manager).params == old(manager).params,
        final(manager).var_map == old(manager).var_map,
        final(manager).ir_funcs == old(manager).ir_funcs,
        final(manager).cur_bb == old(manager).cur_bb,
        final(manager).virt == old(manager).virt,
        final(manager).label == old(manager).label,
        final(manager).errors == old(manager).errors,
{
    let mut lexer = Lexer::new(manager.src_file.contents.clone());
    assert(keywords_wf(lexer.keywords@));
    lexer.build_keywords();
    let ghost kws = lexer.keywords@;
    assert forall|w: Seq<char>| #[trigger] keyword_lookup(kws, w) == keyword_of(w, None) by {
        assert(keyword_lookup(Seq::<(String, TokenKind)>::empty(), w) is None);
    }
    let tokens = lexer.build_tokens();
    manager.tokens = tokens;
    assert(c_keywords(kws) && lexed(kws, 1, 1, manager.src_file.contents@, manager.tokens@));
}

} // verus!
