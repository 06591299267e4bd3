use vstd::prelude::*;

verus! {

/// What a token stands for: a word of the line, or the end of the line.
#[derive(Debug, Clone, Copy, PartialEq, Eq, Structural)]
pub enum TokenType {
    Eof,
    String,
}

/// One token of a scanned line.
#[derive(Debug, Clone)]
pub struct Token {
    pub type_: TokenType,
    /// The text of a word after quotes and escapes are removed; empty at the end.
    pub lexeme: String,
}

impl Token {
    pub fn new(type_: TokenType, lexeme: String) -> (r: Token)
        ensures
            r.type_ == type_,
            r.lexeme@ == lexeme@,
    {
        Token { type_, lexeme }
    }
}

} // verus!
