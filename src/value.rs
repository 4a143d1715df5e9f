use vstd::prelude::*;
use crate::number::{Number, number_text, same_value, add_spec};
use crate::text::push_char;

verus! {

/// A runtime value.
#[derive(Clone, Debug)]
pub enum Value {
    Boolean(bool),
    Nil,
    Number(Number),
    String(String),
}

/// What a value is, with a string seen as its characters.
pub enum Val {
    Boolean(bool),
    Nil,
    Number(Number),
    Str(Seq<char>),
}

impl View for Value {
    type V = Val;

    open spec fn view(&self) -> Val {
        match self {
            Value::Boolean(b) => Val::Boolean(*b),
            Value::Nil => Val::Nil,
            Value::Number(n) => Val::Number(*n),
            Value::String(s) => Val::Str(s@),
        }
    }
}

/// The view of an optional value; `None` stands for a variable declared
/// without an initializer.
pub open spec fn opt_view(v: Option<Value>) -> Option<Val> {
    match v {
        Some(x) => Some(x@),
        None => None,
    }
}

/// Only `nil` and `false` are falsy.
pub open spec fn truthy(v: Val) -> bool {
    match v {
        Val::Nil => false,
        Val::Boolean(b) => b,
        _ => true,
    }
}

/// Structural equality: values of different kinds are never equal, and two
/// numbers are equal when they denote the same rational.
pub open spec fn val_eq(a: Val, b: Val) -> bool {
    match (a, b) {
        (Val::Boolean(x), Val::Boolean(y)) => x == y,
        (Val::Nil, Val::Nil) => true,
        (Val::Number(x), Val::Number(y)) => same_value(x, y),
        (Val::Str(x), Val::Str(y)) => x == y,
        _ => false,
    }
}

/// The printed form of a value.
pub open spec fn val_text(v: Val) -> Seq<char> {
    match v {
        Val::Boolean(true) => seq!['t', 'r', 'u', 'e'],
        Val::Boolean(false) => seq!['f', 'a', 'l', 's', 'e'],
        Val::Nil => seq!['n', 'i', 'l'],
        Val::Number(n) => number_text(n),
        Val::Str(s) => s,
    }
}

/// The register machine's addition: numbers add and strings concatenate;
/// any other pair has no sum.
pub open spec fn machine_add(a: Val, b: Val) -> Option<Val> {
    match (a, b) {
        (Val::Number(x), Val::Number(y)) => match add_spec(x, y) {
            Some(z) => Some(Val::Number(z)),
            None => None,
        },
        (Val::Str(x), Val::Str(y)) => Some(Val::Str(x + y)),
        _ => None,
    }
}

/// Relies on `String::push_str`: the text is appended at the end.
#[verifier::external_body]
pub(crate) fn push_str(s: &mut String, t: &str)
    ensures
        final(s)@ == old(s)@ + t@,
{
    s.push_str(t);
}

impl Value {
    pub fn is_truthy(&self) -> (r: bool)
        ensures
            r == truthy(self@),
    {
        match self {
            Value::Nil => false,
            Value::Boolean(b) => *b,
            _ => true,
        }
    }

    /// Appends the printed form of the value to `s`.
    pub fn push_text(&self, s: &mut String)
        ensures
            final(s)@ == old(s)@ + val_text(self@),
    {
        match self {
            Value::Boolean(b) => {
                if *b {
                    push_char(s, 't');
                    push_char(s, 'r');
                    push_char(s, 'u');
                    push_char(s, 'e');
                } else {
                    push_char(s, 'f');
                    push_char(s, 'a');
                    push_char(s, 'l');
                    push_char(s, 's');
                    push_char(s, 'e');
                }
            },
            Value::Nil => {
                push_char(s, 'n');
                push_char(s, 'i');
                push_char(s, 'l');
            },
            Value::Number(n) => {
                n.push_text(s);
            },
            Value::String(t) => {
                push_str(s, t.as_str());
            },
        }
        assert(final(s)@ =~= old(s)@ + val_text(self@));
    }

    /// The printed form of the value.
    pub fn to_text(&self) -> (r: String)
        ensures
            r@ == val_text(self@),
    {
        let mut s = String::new();
        self.push_text(&mut s);
        assert(s@ =~= val_text(self@));
        s
    }

    /// A copy of the value.
    pub fn duplicate(&self) -> (r: Value)
        ensures
            r == *self,
    {
        match self {
            Value::Boolean(b) => Value::Boolean(*b),
            Value::Nil => Value::Nil,
            Value::Number(n) => Value::Number(*n),
            Value::String(t) => Value::String(t.clone()),
        }
    }

    /// Structural equality of values.
    pub fn equals(&self, o: &Value) -> (r: bool)
        ensures
            r == val_eq(self@, o@),
    {
        match (self, o) {
            (Value::Boolean(x), Value::Boolean(y)) => *x == *y,
            (Value::Nil, Value::Nil) => true,
            (Value::Number(x), Value::Number(y)) => x.same(y),
            (Value::String(x), Value::String(y)) => x.eq(y),
            _ => false,
        }
    }

    /// Addition as the register machine performs it.
    pub fn machine_add(&self, o: &Value) -> (r: Option<Value>)
        ensures
            opt_view(r) == machine_add(self@, o@),
    {
        match (self, o) {
            (Value::Number(x), Value::Number(y)) => match x.checked_add(y) {
                Some(z) => Some(Value::Number(z)),
                None => None,
            },
            (Value::String(x), Value::String(y)) => {
                let mut s = x.clone();
                push_str(&mut s, y.as_str());
                Some(Value::String(s))
            },
            _ => None,
        }
    }
}

impl PartialEq for Value {
    fn eq(&self, o: &Value) -> bool {
        self.equals(o)
    }
}

impl vstd::std_specs::cmp::PartialEqSpecImpl for Value {
    open spec fn obeys_eq_spec() -> bool {
        true
    }

    open spec fn eq_spec(&self, o: &Value) -> bool {
        val_eq(self@, o@)
    }
}

} // verus!
