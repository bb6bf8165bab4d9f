//! Token kinds and tokens of the score language.

use vstd::prelude::*;

use crate::interpreter::text::str_eq;

verus! {

/// The keyword table: `let` is the only keyword; every other word is a
/// plain identifier.
pub open spec fn spec_lookup_ident(ident: Seq<char>) -> TokenType {
    if ident == "let"@ {
        TokenType::Let
    } else {
        TokenType::Ident
    }
}

/// The token kind of a word: a keyword where the word is one, `Ident`
/// otherwise.
pub fn lookup_ident(ident: &str) -> (r: TokenType)
    ensures
        r == spec_lookup_ident(ident@),
{
    if str_eq(ident, "let") {
        TokenType::Let
    } else {
        TokenType::Ident
    }
}

/// One token: its kind, its spelling, and the input line it came from.
#[derive(Debug)]
pub struct Token {
    pub ttype: TokenType,
    pub literal: String,
    pub line: usize,
}

impl Token {
    /// An equal copy of this token.
    pub fn dup(&self) -> (r: Self)
        ensures
            r == *self,
    {
        Token { ttype: self.ttype, literal: self.literal.clone(), line: self.line }
    }
}

#[derive(Clone, Debug, Copy, Eq, PartialEq, Hash, Structural)]
pub enum TokenType {
    Illegal,
    Eof,
    // Identifier
    Ident,
    Lt,
    Gt,
    // Literal
    Int,
    // Operators
    Plus,
    Asterisk,
    Slash,
    Minus,
    Eq,
    NotEq,
    // Delimiter
    Comma,
    Semicolon,
    Colon,
    Lparen,
    Rparen,
    Lbrace,
    Rbrace,
    Lbracket,
    Rbracket,
    // Keyword
    If,
    Assign,
    Let,
}

impl Default for TokenType {
    fn default() -> (r: Self)
        ensures
            r == TokenType::Illegal,
    {
        TokenType::Illegal
    }
}

/// The token kind spelled by `s`, `Illegal` where `s` spells none.
pub open spec fn spec_token_type_from_str(s: Seq<char>) -> TokenType {
    if s == "eof"@ { TokenType::Eof }
    else if s == "ident"@ { TokenType::Ident }
    else if s == "int"@ { TokenType::Int }
    else if s == "+"@ { TokenType::Plus }
    else if s == "*"@ { TokenType::Asterisk }
    else if s == ","@ { TokenType::Comma }
    else if s == ";"@ { TokenType::Semicolon }
    else if s == "("@ { TokenType::Lparen }
    else if s == ")"@ { TokenType::Rparen }
    else if s == "{"@ { TokenType::Lbrace }
    else if s == "}"@ { TokenType::Rbrace }
    else if s == "/"@ { TokenType::Slash }
    else if s == "-"@ { TokenType::Minus }
    else if s == "="@ { TokenType::Assign }
    else if s == "let"@ { TokenType::Let }
    else if s == "IF"@ { TokenType::If }
    else { TokenType::Illegal }
}

impl TokenType {
    /// The token kind spelled by `s`, `Illegal` where `s` spells none.
    pub fn from_str(s: &str) -> (r: Self)
        ensures
            r == spec_token_type_from_str(s@),
    {
        if str_eq(s, "eof") { Self::Eof }
        else if str_eq(s, "ident") { Self::Ident }
        else if str_eq(s, "int") { Self::Int }
        else if str_eq(s, "+") { Self::Plus }
        else if str_eq(s, "*") { Self::Asterisk }
        else if str_eq(s, ",") { Self::Comma }
        else if str_eq(s, ";") { Self::Semicolon }
        else if str_eq(s, "(") { Self::Lparen }
        else if str_eq(s, ")") { Self::Rparen }
        else if str_eq(s, "{") { Self::Lbrace }
        else if str_eq(s, "}") { Self::Rbrace }
        else if str_eq(s, "/") { Self::Slash }
        else if str_eq(s, "-") { Self::Minus }
        else if str_eq(s, "=") { Self::Assign }
        else if str_eq(s, "let") { Self::Let }
        else if str_eq(s, "IF") { Self::If }
        else { Self::Illegal }
    }
}

} // verus!
