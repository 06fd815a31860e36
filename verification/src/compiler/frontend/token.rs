use vstd::prelude::*;

verus! {

/// A column of the source, counted from 1.
pub type Column = usize;

/// A row of the source, counted from 1.
pub type Row = usize;

/// Where a token starts: its row and column.
pub type Position = (Row, Column);

/// A token: where it starts and what it is.
#[derive(PartialEq, Debug)]
pub struct Token {
    pub position: Position,
    pub kind: TokenKind,
}

/// The kinds of tokens.
#[derive(PartialEq, Debug)]
pub enum TokenKind {
    INTEGER(i128),
    IDENTIFIER(String),
    PLUS,
    MINUS,
    ASTERISK,
    SLASH,
    LPAREN,
    RPAREN,
    LBRACE,
    RBRACE,
    COMMA,
    COLON,
    SEMICOLON,
    ASSIGN,
    BLANK,
    NEWLINE,
    EOF,
    IF,
    ELSE,
    FOR,
    DO,
    WHILE,
    INT,
    GOTO,
    VOID,
    RETURN,
}

/// The end-of-input token the parser sees past the last token.
pub open spec fn eof_at(pos: Position) -> Token {
    Token { position: pos, kind: TokenKind::EOF }
}

/// Two kinds are the same kind of token with the same value; identifiers
/// compare by their text.
pub open spec fn kind_eq(a: TokenKind, b: TokenKind) -> bool {
    match (a, b) {
        (TokenKind::IDENTIFIER(x), TokenKind::IDENTIFIER(y)) => x@ == y@,
        (TokenKind::IDENTIFIER(_), _) => false,
        (_, TokenKind::IDENTIFIER(_)) => false,
        _ => a == b,
    }
}

/// The end-of-input token at position (0, 0).
pub fn global_eof_token() -> (t: Token)
    ensures
        t == eof_at((0, 0)),
{
    Token { position: (0, 0), kind: TokenKind::EOF }
}

impl Token {
    /// Whether the lexer drops the token: blanks and newlines.
    pub fn should_ignore(&self) -> (b: bool)
        ensures
            b == (self.kind is BLANK || self.kind is NEWLINE),
    {
        match self.kind {
            TokenKind::BLANK | TokenKind::NEWLINE => true,
            _ => false,
        }
    }

    /// A token of the given kind at the given position.
    pub fn new(position: Position, kind: TokenKind) -> (t: Self)
        ensures
            t == (Token { position, kind }),
    {
        Self { position, kind }
    }

    /// The same token.
    pub fn duplicate(&self) -> (t: Self)
        ensures
            t == *self,
    {
        Token { position: self.position, kind: self.kind.duplicate() }
    }
}

impl TokenKind {
    /// The same kind.
    pub fn duplicate(&self) -> (k: Self)
        ensures
            k == *self,
    {
        match self {
            Self::INTEGER(v) => Self::INTEGER(*v),
            Self::IDENTIFIER(name) => Self::IDENTIFIER(name.clone()),
            Self::PLUS => Self::PLUS,
            Self::MINUS => Self::MINUS,
            Self::ASTERISK => Self::ASTERISK,
            Self::SLASH => Self::SLASH,
            Self::LPAREN => Self::LPAREN,
            Self::RPAREN => Self::RPAREN,
            Self::LBRACE => Self::LBRACE,
            Self::RBRACE => Self::RBRACE,
            Self::COMMA => Self::COMMA,
            Self::COLON => Self::COLON,
            Self::SEMICOLON => Self::SEMICOLON,
            Self::ASSIGN => Self::ASSIGN,
            Self::BLANK => Self::BLANK,
            Self::NEWLINE => Self::NEWLINE,
            Self::EOF => Self::EOF,
            Self::IF => Self::IF,
            Self::ELSE => Self::ELSE,
            Self::FOR => Self::FOR,
            Self::DO => Self::DO,
            Self::WHILE => Self::WHILE,
            Self::INT => Self::INT,
            Self::GOTO => Self::GOTO,
            Self::VOID => Self::VOID,
            Self::RETURN => Self::RETURN,
        }
    }

    /// Whether two kinds are the same kind with the same value (see `kind_eq`).
    pub fn same_kind(&self, other: &TokenKind) -> (b: bool)
        ensures
            b == kind_eq(*self, *other),
    {
        match (self, other) {
            (Self::INTEGER(x), Self::INTEGER(y)) => *x == *y,
            (Self::IDENTIFIER(x), Self::IDENTIFIER(y)) => crate::text::str_eq(x.as_str(), y.as_str()),
            (Self::PLUS, Self::PLUS) => true,
            (Self::MINUS, Self::MINUS) => true,
            (Self::ASTERISK, Self::ASTERISK) => true,
            (Self::SLASH, Self::SLASH) => true,
            (Self::LPAREN, Self::LPAREN) => true,
            (Self::RPAREN, Self::RPAREN) => true,
            (Self::LBRACE, Self::LBRACE) => true,
            (Self::RBRACE, Self::RBRACE) => true,
            (Self::COMMA, Self::COMMA) => true,
            (Self::COLON, Self::COLON) => true,
            (Self::SEMICOLON, Self::SEMICOLON) => true,
            (Self::ASSIGN, Self::ASSIGN) => true,
            (Self::BLANK, Self::BLANK) => true,
            (Self::NEWLINE, Self::NEWLINE) => true,
            (Self::EOF, Self::EOF) => true,
            (Self::IF, Self::IF) => true,
            (Self::ELSE, Self::ELSE) => true,
            (Self::FOR, Self::FOR) => true,
            (Self::DO, Self::DO) => true,
            (Self::WHILE, Self::WHILE) => true,
            (Self::INT, Self::INT) => true,
            (Self::GOTO, Self::GOTO) => true,
            (Self::VOID, Self::VOID) => true,
            (Self::RETURN, Self::RETURN) => true,
            _ => false,
        }
    }
}

} // verus!
