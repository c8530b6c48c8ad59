//! Tokens as the scanner hands them to the parser.

use vstd::prelude::*;

verus! {

/// A position in the source text.
#[derive(Clone, Copy, Debug, PartialEq, Eq, Structural)]
pub struct Cursor {
    pub col: usize,
    pub lin: usize,
}

/// The position used where a node carries none.
pub fn fake_cursor() -> (c: Cursor)
    ensures
        c == spec_fake_cursor(),
{
    Cursor { col: 0, lin: 0 }
}

pub open spec fn spec_fake_cursor() -> Cursor {
    Cursor { col: 0, lin: 0 }
}

/// The kinds of token of the language.
#[derive(Clone, Copy, Debug, PartialEq, Eq, Structural)]
pub enum TokenType {
    MAIN,
    INTEGER,
    DOUBLE,
    IF,
    ELSE,
    WHILE,
    DO,
    STDIN,
    STDOUT,
    ID,
    INT,
    FLOAT,
    SUM,
    MIN,
    TIMES,
    DIV,
    MODULUS,
    POWER,
    INC,
    DEC,
    LT,
    LE,
    GT,
    GE,
    EQ,
    NE,
    AND,
    OR,
    NEG,
    ASSIGN,
    SCOL,
    COMMA,
    LPAR,
    RPAR,
    LBRA,
    RBRA,
}

/// The name of a token kind, as its `Debug` rendering writes it.
pub open spec fn spec_token_type_name(t: TokenType) -> Seq<char> {
    match t {
        TokenType::MAIN => "MAIN"@,
        TokenType::INTEGER => "INTEGER"@,
        TokenType::DOUBLE => "DOUBLE"@,
        TokenType::IF => "IF"@,
        TokenType::ELSE => "ELSE"@,
        TokenType::WHILE => "WHILE"@,
        TokenType::DO => "DO"@,
        TokenType::STDIN => "STDIN"@,
        TokenType::STDOUT => "STDOUT"@,
        TokenType::ID => "ID"@,
        TokenType::INT => "INT"@,
        TokenType::FLOAT => "FLOAT"@,
        TokenType::SUM => "SUM"@,
        TokenType::MIN => "MIN"@,
        TokenType::TIMES => "TIMES"@,
        TokenType::DIV => "DIV"@,
        TokenType::MODULUS => "MODULUS"@,
        TokenType::POWER => "POWER"@,
        TokenType::INC => "INC"@,
        TokenType::DEC => "DEC"@,
        TokenType::LT => "LT"@,
        TokenType::LE => "LE"@,
        TokenType::GT => "GT"@,
        TokenType::GE => "GE"@,
        TokenType::EQ => "EQ"@,
        TokenType::NE => "NE"@,
        TokenType::AND => "AND"@,
        TokenType::OR => "OR"@,
        TokenType::NEG => "NEG"@,
        TokenType::ASSIGN => "ASSIGN"@,
        TokenType::SCOL => "SCOL"@,
        TokenType::COMMA => "COMMA"@,
        TokenType::LPAR => "LPAR"@,
        TokenType::RPAR => "RPAR"@,
        TokenType::LBRA => "LBRA"@,
        TokenType::RBRA => "RBRA"@,
    }
}

/// The name of a token kind, as its `Debug` rendering writes it.
pub fn token_type_name(t: TokenType) -> (s: &'static str)
    ensures
        s@ == spec_token_type_name(t),
{
    match t {
        TokenType::MAIN => "MAIN",
        TokenType::INTEGER => "INTEGER",
        TokenType::DOUBLE => "DOUBLE",
        TokenType::IF => "IF",
        TokenType::ELSE => "ELSE",
        TokenType::WHILE => "WHILE",
        TokenType::DO => "DO",
        TokenType::STDIN => "STDIN",
        TokenType::STDOUT => "STDOUT",
        TokenType::ID => "ID",
        TokenType::INT => "INT",
        TokenType::FLOAT => "FLOAT",
        TokenType::SUM => "SUM",
        TokenType::MIN => "MIN",
        TokenType::TIMES => "TIMES",
        TokenType::DIV => "DIV",
        TokenType::MODULUS => "MODULUS",
        TokenType::POWER => "POWER",
        TokenType::INC => "INC",
        TokenType::DEC => "DEC",
        TokenType::LT => "LT",
        TokenType::LE => "LE",
        TokenType::GT => "GT",
        TokenType::GE => "GE",
        TokenType::EQ => "EQ",
        TokenType::NE => "NE",
        TokenType::AND => "AND",
        TokenType::OR => "OR",
        TokenType::NEG => "NEG",
        TokenType::ASSIGN => "ASSIGN",
        TokenType::SCOL => "SCOL",
        TokenType::COMMA => "COMMA",
        TokenType::LPAR => "LPAR",
        TokenType::RPAR => "RPAR",
        TokenType::LBRA => "LBRA",
        TokenType::RBRA => "RBRA",
    }
}

/// A token: its kind, the text it was read from and where that text stands.
#[derive(Clone, Debug)]
pub struct Token {
    pub token_type: TokenType,
    pub lexemme: String,
    pub start: Cursor,
    pub end: Cursor,
}

impl Token {
    /// A copy of the token.
    pub fn copy(&self) -> (t: Token)
        ensures
            t == *self,
    {
        Token {
            token_type: self.token_type,
            lexemme: self.lexemme.clone(),
            start: self.start,
            end: self.end,
        }
    }
}

} // verus!
