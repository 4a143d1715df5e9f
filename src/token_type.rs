use vstd::prelude::*;

verus! {

/// The kinds of lexical tokens.
#[derive(Clone, Copy, Debug, PartialEq, Eq, Structural)]
pub enum TokenType {
    LeftParen,
    RightParen,
    LeftBrace,
    RightBrace,
    Comma,
    Dot,
    Minus,
    Plus,
    Semicolon,
    Slash,
    Star,
    Bang,
    Equal,
    EqualEqual,
    BangEqual,
    Greater,
    GreaterEqual,
    Less,
    LessEqual,
    Identifier,
    String,
    Number,
    And,
    Class,
    Else,
    False,
    Fun,
    For,
    If,
    Nil,
    Or,
    Print,
    Return,
    Super,
    This,
    True,
    Var,
    While,
    Eof,
}

/// The reserved words of the language and the token kind each one scans to.
pub open spec fn keyword_kind(s: Seq<char>) -> Option<TokenType> {
    if s == seq!['a', 'n', 'd'] {
        Some(TokenType::And)
    } else if s == seq!['c', 'l', 'a', 's', 's'] {
        Some(TokenType::Class)
    } else if s == seq!['e', 'l', 's', 'e'] {
        Some(TokenType::Else)
    } else if s == seq!['f', 'a', 'l', 's', 'e'] {
        Some(TokenType::False)
    } else if s == seq!['f', 'o', 'r'] {
        Some(TokenType::For)
    } else if s == seq!['f', 'u', 'n'] {
        Some(TokenType::Fun)
    } else if s == seq!['i', 'f'] {
        Some(TokenType::If)
    } else if s == seq!['n', 'i', 'l'] {
        Some(TokenType::Nil)
    } else if s == seq!['o', 'r'] {
        Some(TokenType::Or)
    } else if s == seq!['p', 'r', 'i', 'n', 't'] {
        Some(TokenType::Print)
    } else if s == seq!['r', 'e', 't', 'u', 'r', 'n'] {
        Some(TokenType::Return)
    } else if s == seq!['s', 'u', 'p', 'e', 'r'] {
        Some(TokenType::Super)
    } else if s == seq!['t', 'h', 'i', 's'] {
        Some(TokenType::This)
    } else if s == seq!['t', 'r', 'u', 'e'] {
        Some(TokenType::True)
    } else if s == seq!['v', 'a', 'r'] {
        Some(TokenType::Var)
    } else if s == seq!['w', 'h', 'i', 'l', 'e'] {
        Some(TokenType::While)
    } else {
        None
    }
}

fn is_word(src: &Vec<char>, start: usize, end: usize, lit: &[char]) -> (r: bool)
    requires
        start <= end <= src@.len(),
    ensures
        r == (src@.subrange(start as int, end as int) == lit@),
{
    if end - start != lit.len() {
        return false;
    }
    let mut i: usize = 0;
    while i < lit.len()
        invariant
            end - start == lit@.len(),
            start <= end <= src@.len(),
            i <= lit@.len(),
            forall|j: int| 0 <= j < i ==> src@[start + j] == lit@[j],
        decreases lit.len() - i,
    {
        if src[start + i] != lit[i] {
            return false;
        }
        i = i + 1;
    }
    assert(src@.subrange(start as int, end as int) =~= lit@);
    true
}

/// Looks the word `src[start..end]` up in the table of reserved words.
pub fn keyword(src: &Vec<char>, start: usize, end: usize) -> (r: Option<TokenType>)
    requires
        start <= end <= src@.len(),
    ensures
        r == keyword_kind(src@.subrange(start as int, end as int)),
{
    let ghost w = src@.subrange(start as int, end as int);
    let lit_and: [char; 3] = ['a', 'n', 'd'];
    assert(lit_and@ =~= seq!['a', 'n', 'd']);
    if is_word(src, start, end, &lit_and) {
        return Some(TokenType::And);
    }
    let lit_class: [char; 5] = ['c', 'l', 'a', 's', 's'];
    assert(lit_class@ =~= seq!['c', 'l', 'a', 's', 's']);
    if is_word(src, start, end, &lit_class) {
        return Some(TokenType::Class);
    }
    let lit_else: [char; 4] = ['e', 'l', 's', 'e'];
    assert(lit_else@ =~= seq!['e', 'l', 's', 'e']);
    if is_word(src, start, end, &lit_else) {
        return Some(TokenType::Else);
    }
    let lit_false: [char; 5] = ['f', 'a', 'l', 's', 'e'];
    assert(lit_false@ =~= seq!['f', 'a', 'l', 's', 'e']);
    if is_word(src, start, end, &lit_false) {
        return Some(TokenType::False);
    }
    let lit_for: [char; 3] = ['f', 'o', 'r'];
    assert(lit_for@ =~= seq!['f', 'o', 'r']);
    if is_word(src, start, end, &lit_for) {
        return Some(TokenType::For);
    }
    let lit_fun: [char; 3] = ['f', 'u', 'n'];
    assert(lit_fun@ =~= seq!['f', 'u', 'n']);
    if is_word(src, start, end, &lit_fun) {
        return Some(TokenType::Fun);
    }
    let lit_if: [char; 2] = ['i', 'f'];
    assert(lit_if@ =~= seq!['i', 'f']);
    if is_word(src, start, end, &lit_if) {
        return Some(TokenType::If);
    }
    let lit_nil: [char; 3] = ['n', 'i', 'l'];
    assert(lit_nil@ =~= seq!['n', 'i', 'l']);
    if is_word(src, start, end, &lit_nil) {
        return Some(TokenType::Nil);
    }
    let lit_or: [char; 2] = ['o', 'r'];
    assert(lit_or@ =~= seq!['o', 'r']);
    if is_word(src, start, end, &lit_or) {
        return Some(TokenType::Or);
    }
    let lit_print: [char; 5] = ['p', 'r', 'i', 'n', 't'];
    assert(lit_print@ =~= seq!['p', 'r', 'i', 'n', 't']);
    if is_word(src, start, end, &lit_print) {
        return Some(TokenType::Print);
    }
    let lit_return: [char; 6] = ['r', 'e', 't', 'u', 'r', 'n'];
    assert(lit_return@ =~= seq!['r', 'e', 't', 'u', 'r', 'n']);
    if is_word(src, start, end, &lit_return) {
        return Some(TokenType::Return);
    }
    let lit_super: [char; 5] = ['s', 'u', 'p', 'e', 'r'];
    assert(lit_super@ =~= seq!['s', 'u', 'p', 'e', 'r']);
    if is_word(src, start, end, &lit_super) {
        return Some(TokenType::Super);
    }
    let lit_this: [char; 4] = ['t', 'h', 'i', 's'];
    assert(lit_this@ =~= seq!['t', 'h', 'i', 's']);
    if is_word(src, start, end, &lit_this) {
        return Some(TokenType::This);
    }
    let lit_true: [char; 4] = ['t', 'r', 'u', 'e'];
    assert(lit_true@ =~= seq!['t', 'r', 'u', 'e']);
    if is_word(src, start, end, &lit_true) {
        return Some(TokenType::True);
    }
    let lit_var: [char; 3] = ['v', 'a', 'r'];
    assert(lit_var@ =~= seq!['v', 'a', 'r']);
    if is_word(src, start, end, &lit_var) {
        return Some(TokenType::Var);
    }
    let lit_while: [char; 5] = ['w', 'h', 'i', 'l', 'e'];
    assert(lit_while@ =~= seq!['w', 'h', 'i', 'l', 'e']);
    if is_word(src, start, end, &lit_while) {
        return Some(TokenType::While);
    }
    None
}

} // verus!
