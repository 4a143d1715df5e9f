use vstd::prelude::*;
use crate::token_type::TokenType;
use crate::value::Value;

verus! {

/// A lexical token: its kind, the exact source text, the value a literal
/// denotes, and the line it starts on.
#[derive(Clone, Debug)]
pub struct Token {
    pub type_: TokenType,
    pub lexeme: String,
    pub literal: Option<Value>,
    pub line: usize,
}

impl Token {
    pub fn new(type_: TokenType, lexeme: &str, literal: Option<Value>, line: usize) -> (r: Self)
        ensures
            r.type_ == type_,
            r.lexeme@ == lexeme@,
            r.literal == literal,
            r.line == line,
    {
        Self { type_, lexeme: String::from_str(lexeme), literal, line }
    }

    /// The token that ends every scanned sequence.
    pub fn eof(line: usize) -> (r: Token)
        ensures
            r.type_ == TokenType::Eof,
            r.lexeme@ == Seq::<char>::empty(),
            r.literal is None,
            r.line == line,
    {
        Token { type_: TokenType::Eof, lexeme: String::new(), literal: None, line }
    }

    /// A copy of the token.
    pub fn duplicate(&self) -> (r: Token)
        ensures
            r == *self,
    {
        let literal = match &self.literal {
            Some(v) => Some(v.duplicate()),
            None => None,
        };
        Token { type_: self.type_, lexeme: self.lexeme.clone(), literal, line: self.line }
    }
}

} // verus!
