use vstd::prelude::*;
use crate::text::{decimal, push_char, push_decimal};
use crate::value::push_str;

verus! {

/// A diagnostic: the source line it concerns and what went wrong.
#[derive(Clone, Debug)]
pub struct Error {
    pub line: usize,
    pub message: String,
}

/// The errors a run can end with.
#[derive(Clone, Debug)]
pub enum LoxErrors {
    /// The token sequence does not follow the grammar.
    ParseError(Error),
    /// An operation was applied to values it is not defined for, or a name
    /// was not bound.
    RunTimeException(Error),
    /// A loop ran more iterations than the interpreter was allowed.
    LoopLimit,
}

/// What an error is: its kind, line and message.
pub enum ErrorView {
    Parse(int, Seq<char>),
    Runtime(int, Seq<char>),
    LoopLimit,
}

impl View for LoxErrors {
    type V = ErrorView;

    open spec fn view(&self) -> ErrorView {
        match self {
            LoxErrors::ParseError(e) => ErrorView::Parse(e.line as int, e.message@),
            LoxErrors::RunTimeException(e) => ErrorView::Runtime(e.line as int, e.message@),
            LoxErrors::LoopLimit => ErrorView::LoopLimit,
        }
    }
}

/// The text that introduces a diagnostic.
pub open spec fn error_prefix() -> Seq<char> {
    "Error occured at line "@
}

/// How a diagnostic is rendered for a reader.
pub open spec fn error_text(line: int, message: Seq<char>) -> Seq<char> {
    error_prefix() + decimal(line as nat) + seq![':', ' '] + message
}

/// The text reported when a loop exceeds its iteration limit.
pub open spec fn loop_limit_text() -> Seq<char> {
    seq!['L', 'o', 'o', 'p', ' ', 'l', 'i', 'm', 'i', 't', ' ', 'r', 'e', 'a', 'c', 'h', 'e', 'd']
}

impl Error {
    pub fn new(line: usize, message: String) -> (r: Self)
        ensures
            r.line == line,
            r.message == message,
    {
        Self { line, message }
    }

    /// The diagnostic as a reader sees it.
    pub fn to_string(&self) -> (r: String)
        ensures
            r@ == error_text(self.line as int, self.message@),
    {
        let mut s = String::new();
        push_str(&mut s, "Error occured at line ");
        push_decimal(&mut s, self.line as u64);
        push_char(&mut s, ':');
        push_char(&mut s, ' ');
        push_str(&mut s, self.message.as_str());
        assert(s@ =~= error_text(self.line as int, self.message@));
        s
    }
}

impl LoxErrors {
    /// A copy of the error.
    pub fn clone_error(&self) -> (r: LoxErrors)
        ensures
            r@ == self@,
    {
        match self {
            LoxErrors::ParseError(e) => LoxErrors::ParseError(Error { line: e.line, message: e.message.clone() }),
            LoxErrors::RunTimeException(e) => LoxErrors::RunTimeException(Error { line: e.line, message: e.message.clone() }),
            LoxErrors::LoopLimit => LoxErrors::LoopLimit,
        }
    }

    /// The error as a reader sees it.
    pub fn to_string(&self) -> (r: String)
        ensures
            r@ == match self@ {
                ErrorView::Parse(l, m) => error_text(l, m),
                ErrorView::Runtime(l, m) => error_text(l, m),
                ErrorView::LoopLimit => loop_limit_text(),
            },
    {
        match self {
            LoxErrors::ParseError(e) => e.to_string(),
            LoxErrors::RunTimeException(e) => e.to_string(),
            LoxErrors::LoopLimit => {
                let mut s = String::new();
                push_str(&mut s, "Loop limit reached");
                proof { reveal_strlit("Loop limit reached"); }
                assert(s@ =~= loop_limit_text());
                s
            },
        }
    }
}

} // verus!
