use vstd::prelude::*;
use crate::ast::Expr;
use crate::interpreter::or_nil;
use crate::text::push_char;
use crate::value::{opt_view, push_str, val_text, Value};

verus! {

/// The fully parenthesized prefix form of an expression: every operator
/// node is written `(op operand...)`, groupings as `(group inner)`.
pub open spec fn expr_text(e: Expr) -> Seq<char>
    decreases e,
{
    match e {
        Expr::BinaryExpr(b) => seq!['('] + b.operator.lexeme@ + seq![' '] + expr_text(*b.left) + seq![' '] + expr_text(*b.right) + seq![')'],
        Expr::LogicalExpr(b) => seq!['('] + b.operator.lexeme@ + seq![' '] + expr_text(*b.left) + seq![' '] + expr_text(*b.right) + seq![')'],
        Expr::GroupingExpr(g) => seq!['(', 'g', 'r', 'o', 'u', 'p', ' '] + expr_text(*g.expression) + seq![')'],
        Expr::UnaryExpr(u) => seq!['('] + u.operator.lexeme@ + seq![' '] + expr_text(*u.right) + seq![')'],
        Expr::LiteralExpr(l) => val_text(or_nil(opt_view(l.value))),
        Expr::VariableExpr(v) => v.name.lexeme@,
        Expr::AssignExpr(a) => seq!['(', '=', ' '] + a.name.lexeme@ + seq![' '] + expr_text(*a.value) + seq![')'],
    }
}

/// Opening minus closing parentheses in `s`.
pub open spec fn paren_balance(s: Seq<char>) -> int
    decreases s.len(),
{
    if s.len() == 0 {
        0
    } else {
        paren_balance(s.drop_last()) + if s.last() == '(' { 1int } else if s.last() == ')' { -1int } else { 0 }
    }
}

/// Built from literals, unary and binary operators and groupings only, with
/// no parenthesis in any operator's text or literal's text.
pub open spec fn plain_tree(e: Expr) -> bool
    decreases e,
{
    match e {
        Expr::BinaryExpr(b) => paren_balance(b.operator.lexeme@) == 0 && plain_tree(*b.left) && plain_tree(*b.right),
        Expr::UnaryExpr(u) => paren_balance(u.operator.lexeme@) == 0 && plain_tree(*u.right),
        Expr::GroupingExpr(g) => plain_tree(*g.expression),
        Expr::LiteralExpr(l) => paren_balance(val_text(or_nil(opt_view(l.value)))) == 0,
        _ => false,
    }
}

proof fn lemma_balance_concat(a: Seq<char>, b: Seq<char>)
    ensures
        paren_balance(a + b) == paren_balance(a) + paren_balance(b),
    decreases b.len(),
{
    if b.len() > 0 {
        lemma_balance_concat(a, b.drop_last());
        assert((a + b).drop_last() =~= a + b.drop_last());
    } else {
        assert(a + b =~= a);
    }
}

proof fn lemma_balance_one(c: char)
    ensures
        paren_balance(seq![c]) == if c == '(' { 1int } else if c == ')' { -1int } else { 0 },
{
    let one = seq![c];
    assert(one.drop_last() =~= Seq::<char>::empty());
    assert(paren_balance(Seq::<char>::empty()) == 0);
    assert(one.len() == 1 && one.last() == c);
    assert(paren_balance(one) == paren_balance(one.drop_last()) + if c == '(' { 1int } else if c == ')' { -1int } else { 0 });
}

/// The prefix form depends on the tree alone, so printing a tree twice gives
/// the same text; and it is fully parenthesized: each operator node opens
/// and closes one pair, so the parentheses of a plain tree balance.
#[verifier::rlimit(80)]
pub proof fn lemma_prefix_form(e1: Expr, e2: Expr)
    requires
        e1 == e2,
        plain_tree(e1),
    ensures
        expr_text(e1) == expr_text(e2),
        paren_balance(expr_text(e1)) == 0,
    decreases e1,
{
    let t = expr_text(e1);
    match e1 {
        Expr::BinaryExpr(b) => {
            lemma_prefix_form(*b.left, *b.left);
            lemma_prefix_form(*b.right, *b.right);
            let l = expr_text(*b.left);
            let r = expr_text(*b.right);
            let op = b.operator.lexeme@;
            lemma_balance_concat(seq!['('], op);
            lemma_balance_concat(seq!['('] + op, seq![' ']);
            lemma_balance_concat(seq!['('] + op + seq![' '], l);
            lemma_balance_concat(seq!['('] + op + seq![' '] + l, seq![' ']);
            lemma_balance_concat(seq!['('] + op + seq![' '] + l + seq![' '], r);
            lemma_balance_concat(seq!['('] + op + seq![' '] + l + seq![' '] + r, seq![')']);
            lemma_balance_one('(');
            lemma_balance_one(' ');
            lemma_balance_one(')');
        },
        Expr::UnaryExpr(u) => {
            lemma_prefix_form(*u.right, *u.right);
            let r = expr_text(*u.right);
            let op = u.operator.lexeme@;
            lemma_balance_concat(seq!['('], op);
            lemma_balance_concat(seq!['('] + op, seq![' ']);
            lemma_balance_concat(seq!['('] + op + seq![' '], r);
            lemma_balance_concat(seq!['('] + op + seq![' '] + r, seq![')']);
            lemma_balance_one('(');
            lemma_balance_one(' ');
            lemma_balance_one(')');
        },
        Expr::GroupingExpr(g) => {
            lemma_prefix_form(*g.expression, *g.expression);
            let inner = expr_text(*g.expression);
            let head = seq!['(', 'g', 'r', 'o', 'u', 'p', ' '];
            lemma_balance_concat(head, inner);
            lemma_balance_concat(head + inner, seq![')']);
            assert(paren_balance(head) == 1) by {
                reveal_with_fuel(paren_balance, 8);
                assert(head.drop_last() =~= seq!['(', 'g', 'r', 'o', 'u', 'p']);
                assert(head.drop_last().drop_last() =~= seq!['(', 'g', 'r', 'o', 'u']);
                assert(head.drop_last().drop_last().drop_last() =~= seq!['(', 'g', 'r', 'o']);
                assert(head.drop_last().drop_last().drop_last().drop_last() =~= seq!['(', 'g', 'r']);
                assert(head.drop_last().drop_last().drop_last().drop_last().drop_last() =~= seq!['(', 'g']);
                assert(head.drop_last().drop_last().drop_last().drop_last().drop_last().drop_last() =~= seq!['(']);
                lemma_balance_one('(');
            }
            lemma_balance_one(')');
        },
        _ => {},
    }
}

/// Renders expressions in fully parenthesized prefix form.
pub struct AstPrinter;

impl AstPrinter {
    pub fn new() -> (r: Self) {
        Self
    }

    /// The prefix form of the expression.
    pub fn print(&mut self, expr: &Expr) -> (r: String)
        ensures
            r@ == expr_text(*expr),
    {
        let mut s = String::new();
        self.write(expr, &mut s);
        assert(s@ =~= expr_text(*expr));
        s
    }

    /// Appends `(name` to `s`; the caller writes the operands and `)`.
    fn open_paren(name: &String, s: &mut String)
        ensures
            final(s)@ == old(s)@ + seq!['('] + name@,
    {
        push_char(s, '(');
        push_str(s, name.as_str());
    }

    fn write(&mut self, e: &Expr, s: &mut String)
        ensures
            final(s)@ == old(s)@ + expr_text(*e),
        decreases e,
    {
        match e {
            Expr::BinaryExpr(b) => {
                Self::open_paren(&b.operator.lexeme, s);
                push_char(s, ' ');
                self.write(&b.left, s);
                push_char(s, ' ');
                self.write(&b.right, s);
                push_char(s, ')');
            },
            Expr::LogicalExpr(b) => {
                Self::open_paren(&b.operator.lexeme, s);
                push_char(s, ' ');
                self.write(&b.left, s);
                push_char(s, ' ');
                self.write(&b.right, s);
                push_char(s, ')');
            },
            Expr::GroupingExpr(g) => {
                push_str(s, "(group ");
                proof { reveal_strlit("(group "); }
                self.write(&g.expression, s);
                push_char(s, ')');
            },
            Expr::UnaryExpr(u) => {
                Self::open_paren(&u.operator.lexeme, s);
                push_char(s, ' ');
                self.write(&u.right, s);
                push_char(s, ')');
            },
            Expr::LiteralExpr(l) => {
                match &l.value {
                    Some(v) => v.push_text(s),
                    None => Value::Nil.push_text(s),
                }
            },
            Expr::VariableExpr(v) => {
                push_str(s, v.name.lexeme.as_str());
            },
            Expr::AssignExpr(a) => {
                push_str(s, "(= ");
                proof { reveal_strlit("(= "); }
                push_str(s, a.name.lexeme.as_str());
                push_char(s, ' ');
                self.write(&a.value, s);
                push_char(s, ')');
            },
        }
        assert(final(s)@ =~= old(s)@ + expr_text(*e));
    }
}

} // verus!
