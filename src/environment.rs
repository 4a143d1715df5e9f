use vstd::prelude::*;
use crate::error::{Error, ErrorView, LoxErrors};
use crate::token::Token;
use crate::value::{opt_view, push_str, Val, Value};

verus! {

/// A name bound to a value, or to nothing yet.
pub type Binding = (Seq<char>, Option<Val>);

/// The bindings of every open scope, outermost first, and the index at
/// which the innermost scope begins.
pub struct EnvView {
    pub bindings: Seq<Binding>,
    pub start: int,
}

/// The index of the last binding of `name` among `b[lo..hi]`.
pub open spec fn find(b: Seq<Binding>, name: Seq<char>, lo: int, hi: int) -> Option<int>
    decreases hi - lo,
{
    if hi <= lo {
        None
    } else if b[hi - 1].0 == name {
        Some(hi - 1)
    } else {
        find(b, name, lo, hi - 1)
    }
}

/// The value a name has, looking outward from the innermost scope.
pub open spec fn env_get(e: EnvView, name: Seq<char>) -> Option<Option<Val>> {
    match find(e.bindings, name, 0, e.bindings.len() as int) {
        Some(i) => Some(e.bindings[i].1),
        None => None,
    }
}

/// Binds `name` in the innermost scope, replacing a binding of it there.
pub open spec fn env_define(e: EnvView, name: Seq<char>, v: Option<Val>) -> EnvView {
    match find(e.bindings, name, e.start, e.bindings.len() as int) {
        Some(i) => EnvView { bindings: e.bindings.update(i, (name, v)), start: e.start },
        None => EnvView { bindings: e.bindings.push((name, v)), start: e.start },
    }
}

/// Rebinds the innermost binding of `name`; `None` where there is none.
pub open spec fn env_assign(e: EnvView, name: Seq<char>, v: Option<Val>) -> Option<EnvView> {
    match find(e.bindings, name, 0, e.bindings.len() as int) {
        Some(i) => Some(EnvView { bindings: e.bindings.update(i, (name, v)), start: e.start }),
        None => None,
    }
}

/// The message for a name that is not bound.
pub open spec fn undefined_message(name: Seq<char>) -> Seq<char> {
    "Undefined variable "@ + name + " ."@
}

pub open spec fn undefined_error(name: Token) -> ErrorView {
    ErrorView::Runtime(name.line as int, undefined_message(name.lexeme@))
}

pub open spec fn binding_view(p: (String, Option<Value>)) -> Binding {
    (p.0@, opt_view(p.1))
}

/// Lexical scopes, kept as one sequence of bindings: a scope is the run of
/// bindings made since it was entered, and leaving it drops them.
pub struct Environment {
    bindings: Vec<(String, Option<Value>)>,
    start: usize,
}

impl View for Environment {
    type V = EnvView;

    closed spec fn view(&self) -> EnvView {
        EnvView { bindings: self.bindings@.map_values(|p: (String, Option<Value>)| binding_view(p)), start: self.start as int }
    }
}

impl Environment {
    pub closed spec fn wf(&self) -> bool {
        self.start <= self.bindings.len()
    }

    pub proof fn lemma_wf(&self)
        requires
            self.wf(),
        ensures
            0 <= self@.start <= self@.bindings.len(),
    {
    }

    /// An environment with one empty, global scope.
    pub fn new() -> (r: Self)
        ensures
            r.wf(),
            r@.bindings == Seq::<Binding>::empty(),
            r@.start == 0,
    {
        let r = Environment { bindings: Vec::new(), start: 0 };
        assert(r@.bindings =~= Seq::<Binding>::empty());
        r
    }

    fn find_exec(&self, name: &String, lo: usize) -> (r: Option<usize>)
        requires
            lo <= self.bindings.len(),
        ensures
            r matches Some(i) ==> i < self.bindings.len(),
            opt_index(r) == find(self@.bindings, name@, lo as int, self@.bindings.len() as int),
    {
        let mut i = self.bindings.len();
        while i > lo
            invariant
                lo <= i <= self.bindings.len(),
                find(self@.bindings, name@, lo as int, self@.bindings.len() as int)
                    == find(self@.bindings, name@, lo as int, i as int),
            decreases i,
        {
            if self.bindings[i - 1].0.eq(name) {
                return Some(i - 1);
            }
            i = i - 1;
        }
        None
    }

    /// Binds `name` in the innermost scope.
    pub fn define(&mut self, name: String, value: Option<Value>)
        requires
            old(self).wf(),
        ensures
            final(self).wf(),
            final(self)@ == env_define(old(self)@, name@, opt_view(value)),
            final(self)@.bindings.len() >= old(self)@.bindings.len(),
            final(self)@.start == old(self)@.start,
    {
        let ghost nv = opt_view(value);
        match self.find_exec(&name, self.start) {
            Some(i) => {
                self.bindings.set(i, (name, value));
            },
            None => {
                self.bindings.push((name, value));
            },
        }
        assert(self@.bindings =~= env_define(old(self)@, name@, nv).bindings);
    }

    /// The value bound to the name, looking outward from the innermost scope.
    pub fn get(&self, name: &Token) -> (r: Result<Option<Value>, LoxErrors>)
        ensures
            match env_get(self@, name.lexeme@) {
                Some(v) => r matches Ok(x) && opt_view(x) == v,
                None => r matches Err(e) && e@ == undefined_error(*name),
            },
    {
        match self.find_exec(&name.lexeme, 0) {
            Some(i) => {
                let v = match &self.bindings[i].1 {
                    Some(x) => Some(x.duplicate()),
                    None => None,
                };
                Ok(v)
            },
            None => Err(undefined(name)),
        }
    }

    /// Rebinds the innermost binding of the name.
    pub fn assign(&mut self, name: &Token, value: Option<Value>) -> (r: Result<(), LoxErrors>)
        requires
            old(self).wf(),
        ensures
            final(self).wf(),
            final(self)@.bindings.len() == old(self)@.bindings.len(),
            final(self)@.start == old(self)@.start,
            match env_assign(old(self)@, name.lexeme@, opt_view(value)) {
                Some(e) => r is Ok && final(self)@ == e,
                None => r matches Err(x) && x@ == undefined_error(*name) && final(self)@ == old(self)@,
            },
    {
        let ghost nv = opt_view(value);
        match self.find_exec(&name.lexeme, 0) {
            Some(i) => {
                self.bindings.set(i, (name.lexeme.clone(), value));
                assert(self@.bindings =~= env_assign(old(self)@, name.lexeme@, nv).unwrap().bindings);
                Ok(())
            },
            None => Err(undefined(name)),
        }
    }

    /// Opens a scope; returns what `end_scope` needs to close it.
    pub fn begin_scope(&mut self) -> (r: (usize, usize))
        requires
            old(self).wf(),
        ensures
            final(self).wf(),
            r.0 <= r.1,
            r.0 == old(self)@.start,
            r.1 == old(self)@.bindings.len(),
            final(self)@.bindings == old(self)@.bindings,
            final(self)@.start == old(self)@.bindings.len(),
    {
        let saved = (self.start, self.bindings.len());
        self.start = self.bindings.len();
        saved
    }

    /// Closes the scope that `begin_scope` returned `saved` for, dropping its
    /// bindings.
    pub fn end_scope(&mut self, saved: (usize, usize))
        requires
            old(self).wf(),
            saved.0 <= saved.1 <= old(self)@.bindings.len(),
        ensures
            final(self).wf(),
            final(self)@.bindings == old(self)@.bindings.take(saved.1 as int),
            final(self)@.start == saved.0,
    {
        self.bindings.truncate(saved.1);
        self.start = saved.0;
        assert(self@.bindings =~= old(self)@.bindings.take(saved.1 as int));
    }
}

pub open spec fn opt_index(r: Option<usize>) -> Option<int> {
    match r {
        Some(i) => Some(i as int),
        None => None,
    }
}

pub(crate) fn undefined(name: &Token) -> (r: LoxErrors)
    ensures
        r@ == undefined_error(*name),
{
    let mut s = String::from_str("Undefined variable ");
    push_str(&mut s, name.lexeme.as_str());
    push_str(&mut s, " .");
    LoxErrors::RunTimeException(Error::new(name.line, s))
}

} // verus!
