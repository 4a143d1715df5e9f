use vstd::prelude::*;
use crate::ast::{
    AssignExpr, BinaryExpr, BlockStmt, Expr, ExpressionStmt, GroupingExpr, IfStmt, LiteralExpr,
    LogicalExpr, PrintStmt, Stmt, StmtV, UnaryExpr, VarStmt, VariableExpr, WhileStmt, stmt_model,
    stmts_model,
};
use crate::error::{Error, ErrorView, LoxErrors};
use crate::token::Token;
use crate::token_type::TokenType;
use crate::value::Value;

verus! {

/// The kind of the token at `p`; past the end the input has ended.
pub open spec fn kind_at(t: Seq<Token>, p: int) -> TokenType {
    if 0 <= p < t.len() { t[p].type_ } else { TokenType::Eof }
}

pub open spec fn line_at(t: Seq<Token>, p: int) -> int {
    if 0 <= p < t.len() { t[p].line as int } else { 0 }
}

pub open spec fn perr(line: int, m: Seq<char>) -> ErrorView {
    ErrorView::Parse(line, m)
}

/// Reported where a position failed to move forward; parsing never does
/// that.
pub open spec fn stuck() -> ErrorView {
    ErrorView::Parse(0, Seq::empty())
}

/// The operators of each binary precedence level, loosest (6, `or`) to
/// tightest (1, `*` and `/`).
pub open spec fn level_has(lv: nat, k: TokenType) -> bool {
    if lv == 6 {
        k == TokenType::Or
    } else if lv == 5 {
        k == TokenType::And
    } else if lv == 4 {
        k == TokenType::BangEqual || k == TokenType::EqualEqual
    } else if lv == 3 {
        k == TokenType::Greater || k == TokenType::GreaterEqual || k == TokenType::Less || k == TokenType::LessEqual
    } else if lv == 2 {
        k == TokenType::Minus || k == TokenType::Plus
    } else if lv == 1 {
        k == TokenType::Slash || k == TokenType::Star
    } else {
        false
    }
}

pub open spec fn combine(lv: nat, l: Expr, op: Token, r: Expr) -> Expr {
    if lv >= 5 {
        Expr::LogicalExpr(LogicalExpr { left: Box::new(l), operator: op, right: Box::new(r) })
    } else {
        Expr::BinaryExpr(BinaryExpr { left: Box::new(l), operator: op, right: Box::new(r) })
    }
}

/// `primary → "true" | "false" | "nil" | NUMBER | STRING | "(" expression ")" | IDENTIFIER`
pub open spec fn primary(t: Seq<Token>, p: int) -> Result<(Expr, int), ErrorView>
    decreases t.len() - p, 0nat, 1nat,
{
    let k = kind_at(t, p);
    if k == TokenType::False {
        Ok((Expr::LiteralExpr(LiteralExpr { value: Some(Value::Boolean(false)) }), p + 1))
    } else if k == TokenType::True {
        Ok((Expr::LiteralExpr(LiteralExpr { value: Some(Value::Boolean(true)) }), p + 1))
    } else if k == TokenType::Nil {
        Ok((Expr::LiteralExpr(LiteralExpr { value: Some(Value::Nil) }), p + 1))
    } else if k == TokenType::Number || k == TokenType::String {
        Ok((Expr::LiteralExpr(LiteralExpr { value: t[p].literal }), p + 1))
    } else if k == TokenType::LeftParen {
        if p < 0 || p >= t.len() {
            Err(stuck())
        } else {
            match assignment(t, p + 1) {
                Err(e) => Err(e),
                Ok((e, p1)) => if kind_at(t, p1) == TokenType::RightParen {
                    Ok((Expr::GroupingExpr(GroupingExpr { expression: Box::new(e) }), p1 + 1))
                } else {
                    Err(perr(line_at(t, p1), "Expect ')' after expression"@))
                },
            }
        }
    } else if k == TokenType::Identifier {
        Ok((Expr::VariableExpr(VariableExpr { name: t[p] }), p + 1))
    } else {
        Err(perr(line_at(t, p), "Expect Expression."@))
    }
}

/// `unary → ( "!" | "-" ) unary | primary`
pub open spec fn unary(t: Seq<Token>, p: int) -> Result<(Expr, int), ErrorView>
    decreases t.len() - p, 0nat, 2nat,
{
    let k = kind_at(t, p);
    if (k == TokenType::Bang || k == TokenType::Minus) && 0 <= p < t.len() {
        match unary(t, p + 1) {
            Err(e) => Err(e),
            Ok((r, p1)) => Ok((Expr::UnaryExpr(UnaryExpr { operator: t[p], right: Box::new(r) }), p1)),
        }
    } else {
        primary(t, p)
    }
}

/// One binary precedence level: operands of the next tighter level joined
/// by this level's operators, grouping to the left.
pub open spec fn binary_level(t: Seq<Token>, p: int, lv: nat) -> Result<(Expr, int), ErrorView>
    decreases t.len() - p, lv, 3nat,
{
    if lv == 0 {
        unary(t, p)
    } else {
        match binary_level(t, p, (lv - 1) as nat) {
            Err(e) => Err(e),
            Ok((e, p1)) => if p1 < p || p1 > t.len() {
                Err(stuck())
            } else {
                binary_rest(t, p1, lv, e)
            },
        }
    }
}

pub open spec fn binary_rest(t: Seq<Token>, p: int, lv: nat, left: Expr) -> Result<(Expr, int), ErrorView>
    decreases t.len() - p, lv, 0nat,
{
    if lv > 0 && level_has(lv, kind_at(t, p)) && 0 <= p < t.len() {
        match binary_level(t, p + 1, (lv - 1) as nat) {
            Err(e) => Err(e),
            Ok((r, p2)) => {
                let e2 = combine(lv, left, t[p], r);
                if p2 <= p || p2 > t.len() {
                    Err(stuck())
                } else {
                    binary_rest(t, p2, lv, e2)
                }
            },
        }
    } else {
        Ok((left, p))
    }
}

/// `assignment → IDENTIFIER "=" assignment | logic_or`; the target must be
/// a bare variable.
pub open spec fn assignment(t: Seq<Token>, p: int) -> Result<(Expr, int), ErrorView>
    decreases t.len() - p, 7nat, 0nat,
{
    match binary_level(t, p, 6) {
        Err(e) => Err(e),
        Ok((e, p1)) => if kind_at(t, p1) == TokenType::Equal {
            if p1 < p {
                Err(stuck())
            } else {
                match assignment(t, p1 + 1) {
                    Err(x) => Err(x),
                    Ok((v, p2)) => match e {
                        Expr::VariableExpr(var) => Ok((Expr::AssignExpr(AssignExpr { name: var.name, value: Box::new(v) }), p2)),
                        _ => Err(perr(line_at(t, p1), "Invalid assignment target"@)),
                    },
                }
            }
        } else {
            Ok((e, p1))
        },
    }
}

/// The position after a token of kind `k` at `p`, or the error `m` there.
pub open spec fn consume(t: Seq<Token>, p: int, k: TokenType, m: Seq<char>) -> Result<int, ErrorView> {
    if kind_at(t, p) == k && k != TokenType::Eof {
        Ok(p + 1)
    } else {
        Err(perr(line_at(t, p), m))
    }
}

/// `exprStmt → expression ";"`
pub open spec fn expression_statement(t: Seq<Token>, p: int) -> Result<(StmtV, int), ErrorView>
    decreases t.len() - p, 10nat, 0nat,
{
    match assignment(t, p) {
        Err(e) => Err(e),
        Ok((e, p1)) => match consume(t, p1, TokenType::Semicolon, "Expect ';' after value."@) {
            Err(x) => Err(x),
            Ok(p2) => Ok((StmtV::Expression(e), p2)),
        },
    }
}

/// `printStmt → "print" expression ";"`, from after `print`.
pub open spec fn print_statement(t: Seq<Token>, p: int) -> Result<(StmtV, int), ErrorView>
    decreases t.len() - p, 10nat, 0nat,
{
    match assignment(t, p) {
        Err(e) => Err(e),
        Ok((e, p1)) => match consume(t, p1, TokenType::Semicolon, "Expect ';' after value."@) {
            Err(x) => Err(x),
            Ok(p2) => Ok((StmtV::Print(e), p2)),
        },
    }
}

/// `varDecl → "var" IDENTIFIER ( "=" expression )? ";"`, from after `var`.
pub open spec fn var_declaration(t: Seq<Token>, p: int) -> Result<(StmtV, int), ErrorView>
    decreases t.len() - p, 10nat, 0nat,
{
    if kind_at(t, p) != TokenType::Identifier {
        Err(perr(line_at(t, p), "Expect variable name"@))
    } else if kind_at(t, p + 1) == TokenType::Equal {
        match assignment(t, p + 2) {
            Err(e) => Err(e),
            Ok((e, p1)) => match consume(t, p1, TokenType::Semicolon, "Expect ; after variable declaration"@) {
                Err(x) => Err(x),
                Ok(p2) => Ok((StmtV::Var(t[p], Some(e)), p2)),
            },
        }
    } else {
        match consume(t, p + 1, TokenType::Semicolon, "Expect ; after variable declaration"@) {
            Err(x) => Err(x),
            Ok(p2) => Ok((StmtV::Var(t[p], None), p2)),
        }
    }
}

/// `whileStmt → "while" "(" expression ")" statement`, from after `while`.
pub open spec fn while_statement(t: Seq<Token>, p: int) -> Result<(StmtV, int), ErrorView>
    decreases t.len() - p, 10nat, 0nat,
{
    match consume(t, p, TokenType::LeftParen, "Expect '(' after 'while'"@) {
        Err(x) => Err(x),
        Ok(p1) => match assignment(t, p1) {
            Err(e) => Err(e),
            Ok((c, p2)) => match consume(t, p2, TokenType::RightParen, "Expect ')' after condition"@) {
                Err(x) => Err(x),
                Ok(p3) => if p3 <= p || p3 > t.len() {
                    Err(stuck())
                } else {
                    match statement(t, p3) {
                        Err(e) => Err(e),
                        Ok((b, p4)) => Ok((StmtV::While(c, Box::new(b)), p4)),
                    }
                },
            },
        },
    }
}

/// `ifStmt → "if" "(" expression ")" statement ( "else" statement )?`, from
/// after `if`; an `else` belongs to the nearest `if`.
pub open spec fn if_statement(t: Seq<Token>, p: int) -> Result<(StmtV, int), ErrorView>
    decreases t.len() - p, 10nat, 0nat,
{
    match consume(t, p, TokenType::LeftParen, "Expect '(' after 'if' "@) {
        Err(x) => Err(x),
        Ok(p1) => match assignment(t, p1) {
            Err(e) => Err(e),
            Ok((c, p2)) => match consume(t, p2, TokenType::RightParen, "Expect ')' after if condition."@) {
                Err(x) => Err(x),
                Ok(p3) => if p3 <= p || p3 > t.len() {
                    Err(stuck())
                } else {
                    match statement(t, p3) {
                        Err(e) => Err(e),
                        Ok((th, p4)) => if kind_at(t, p4) == TokenType::Else {
                            if p4 < p3 || p4 >= t.len() {
                                Err(stuck())
                            } else {
                                match statement(t, p4 + 1) {
                                    Err(e) => Err(e),
                                    Ok((el, p5)) => Ok((StmtV::If(c, Box::new(th), Some(Box::new(el))), p5)),
                                }
                            }
                        } else {
                            Ok((StmtV::If(c, Box::new(th), None), p4))
                        },
                    }
                },
            },
        },
    }
}

/// The loop a `for` stands for: `{ init; while (cond) { body; incr; } }`,
/// with `true` for a missing condition, and without the block or the inner
/// block where there is no initializer or no increment.
pub open spec fn desugar_for(init: Option<StmtV>, cond: Option<Expr>, incr: Option<Expr>, body: StmtV) -> StmtV {
    let body1 = match incr {
        Some(i) => StmtV::Block(seq![body, StmtV::Expression(i)]),
        None => body,
    };
    let c = match cond {
        Some(c) => c,
        None => Expr::LiteralExpr(LiteralExpr { value: Some(Value::Boolean(true)) }),
    };
    let lp = StmtV::While(c, Box::new(body1));
    match init {
        Some(s) => StmtV::Block(seq![s, lp]),
        None => lp,
    }
}

/// The initializer clause of a `for`, from after its `(`.
pub open spec fn for_init(t: Seq<Token>, p: int) -> Result<(Option<StmtV>, int), ErrorView>
    decreases t.len() - p, 10nat, 1nat,
{
    if kind_at(t, p) == TokenType::Semicolon {
        Ok((None, p + 1))
    } else if kind_at(t, p) == TokenType::Var {
        match var_declaration(t, p + 1) {
            Err(e) => Err(e),
            Ok((s, p1)) => Ok((Some(s), p1)),
        }
    } else {
        match expression_statement(t, p) {
            Err(e) => Err(e),
            Ok((s, p1)) => Ok((Some(s), p1)),
        }
    }
}

/// An optional expression that ends where a token of kind `stop` stands.
pub open spec fn for_clause(t: Seq<Token>, p: int, stop: TokenType) -> Result<(Option<Expr>, int), ErrorView>
    decreases t.len() - p, 8nat, 0nat,
{
    if kind_at(t, p) == stop {
        Ok((None, p))
    } else {
        match assignment(t, p) {
            Err(e) => Err(e),
            Ok((e, p1)) => Ok((Some(e), p1)),
        }
    }
}

/// `forStmt → "for" "(" ( varDecl | exprStmt | ";" ) expression? ";"
/// expression? ")" statement`, from after `for`.
pub open spec fn for_statement(t: Seq<Token>, p: int) -> Result<(StmtV, int), ErrorView>
    decreases t.len() - p, 10nat, 2nat,
{
    match consume(t, p, TokenType::LeftParen, "Expect '(' after 'for'"@) {
        Err(x) => Err(x),
        Ok(p1) => match for_init(t, p1) {
            Err(e) => Err(e),
            Ok((init, p2)) => if p2 < p || p2 > t.len() {
                Err(stuck())
            } else {
                match for_clause(t, p2, TokenType::Semicolon) {
                    Err(e) => Err(e),
                    Ok((cond, p3)) => match consume(t, p3, TokenType::Semicolon, "Expect ';' after loop condition"@) {
                        Err(x) => Err(x),
                        Ok(p4) => if p4 < p || p4 > t.len() {
                            Err(stuck())
                        } else {
                            match for_clause(t, p4, TokenType::RightParen) {
                                Err(e) => Err(e),
                                Ok((incr, p5)) => match consume(t, p5, TokenType::RightParen, "Expect ')' after for clauses"@) {
                                    Err(x) => Err(x),
                                    Ok(p6) => if p6 <= p || p6 > t.len() {
                                        Err(stuck())
                                    } else {
                                        match statement(t, p6) {
                                            Err(e) => Err(e),
                                            Ok((b, p7)) => Ok((desugar_for(init, cond, incr, b), p7)),
                                        }
                                    },
                                },
                            }
                        },
                    },
                }
            },
        },
    }
}

/// `statement → exprStmt | printStmt | ifStmt | whileStmt | forStmt | block`
pub open spec fn statement(t: Seq<Token>, p: int) -> Result<(StmtV, int), ErrorView>
    decreases t.len() - p, 11nat, 0nat,
{
    let k = kind_at(t, p);
    if k == TokenType::If {
        if_statement(t, p + 1)
    } else if k == TokenType::Print {
        print_statement(t, p + 1)
    } else if k == TokenType::For {
        for_statement(t, p + 1)
    } else if k == TokenType::While {
        while_statement(t, p + 1)
    } else if k == TokenType::LeftBrace {
        match block_rest(t, p + 1, Seq::empty()) {
            Err(e) => Err(e),
            Ok((ss, p1)) => Ok((StmtV::Block(ss), p1)),
        }
    } else {
        expression_statement(t, p)
    }
}

/// The declarations of a block up to its `}`, after those in `acc`.
pub open spec fn block_rest(t: Seq<Token>, p: int, acc: Seq<StmtV>) -> Result<(Seq<StmtV>, int), ErrorView>
    decreases t.len() - p, 13nat, 0nat,
{
    let k = kind_at(t, p);
    if k == TokenType::RightBrace {
        Ok((acc, p + 1))
    } else if k == TokenType::Eof {
        Err(perr(line_at(t, p), "Expect'}' after block."@))
    } else {
        match declaration(t, p) {
            Err(e) => Err(e),
            Ok((s, p1)) => if p1 <= p || p1 > t.len() {
                Err(stuck())
            } else {
                block_rest(t, p1, acc.push(s))
            },
        }
    }
}

/// `declaration → varDecl | statement`
pub open spec fn declaration(t: Seq<Token>, p: int) -> Result<(StmtV, int), ErrorView>
    decreases t.len() - p, 12nat, 0nat,
{
    if kind_at(t, p) == TokenType::Var {
        var_declaration(t, p + 1)
    } else {
        statement(t, p)
    }
}

/// Declarations up to the end of input, after those in `acc`.
pub open spec fn parse_all(t: Seq<Token>, p: int, acc: Seq<StmtV>) -> Result<Seq<StmtV>, ErrorView>
    decreases t.len() - p, 14nat, 0nat,
{
    if kind_at(t, p) == TokenType::Eof {
        Ok(acc)
    } else {
        match declaration(t, p) {
            Err(e) => Err(e),
            Ok((s, p1)) => if p1 <= p || p1 > t.len() {
                Err(stuck())
            } else {
                parse_all(t, p1, acc.push(s))
            },
        }
    }
}

proof fn lemma_model_push(ss: Seq<Stmt>, x: Stmt, n: int)
    requires
        0 <= n <= ss.len(),
    ensures
        stmts_model(ss.push(x), n) == stmts_model(ss, n),
    decreases n,
{
    if n > 0 {
        lemma_model_push(ss, x, n - 1);
        assert(ss.push(x)[n - 1] == ss[n - 1]);
    }
}

fn parse_error(line: usize, msg: &str) -> (r: LoxErrors)
    ensures
        r@ == perr(line as int, msg@),
{
    LoxErrors::ParseError(Error::new(line, String::from_str(msg)))
}

/// A recursive descent parser over a token sequence.
pub struct Parser<'a> {
    tokens: &'a Vec<Token>,
    current: usize,
}

impl<'a> Parser<'a> {
    pub closed spec fn toks(&self) -> Seq<Token> {
        self.tokens@
    }

    pub closed spec fn pos(&self) -> int {
        self.current as int
    }

    pub closed spec fn wf(&self) -> bool {
        self.current <= self.tokens.len()
    }

    /// A parser at the first token.
    pub fn new(tokens: &'a Vec<Token>) -> (r: Self)
        ensures
            r.wf(),
            r.toks() == tokens@,
            r.pos() == 0,
    {
        Self { tokens, current: 0 }
    }

    fn peek_kind(&self) -> (r: TokenType)
        ensures
            r == kind_at(self.toks(), self.pos()),
    {
        if self.current < self.tokens.len() {
            self.tokens[self.current].type_
        } else {
            TokenType::Eof
        }
    }

    fn peek_line(&self) -> (r: usize)
        ensures
            r == line_at(self.toks(), self.pos()),
    {
        if self.current < self.tokens.len() {
            self.tokens[self.current].line
        } else {
            0
        }
    }

    fn consume(&mut self, k: TokenType, msg: &str) -> (r: Result<(), LoxErrors>)
        requires
            old(self).wf(),
        ensures
            final(self).wf(),
            final(self).toks() == old(self).toks(),
            match consume(old(self).toks(), old(self).pos(), k, msg@) {
                Ok(p) => r is Ok && final(self).pos() == p,
                Err(x) => r matches Err(y) && y@ == x,
            },
    {
        if self.peek_kind() == k && k != TokenType::Eof {
            self.current = self.current + 1;
            Ok(())
        } else {
            Err(parse_error(self.peek_line(), msg))
        }
    }

    fn primary(&mut self) -> (r: Result<Expr, LoxErrors>)
        requires
            old(self).wf(),
        ensures
            final(self).wf(),
            final(self).toks() == old(self).toks(),
            r is Ok ==> final(self).pos() > old(self).pos(),
            match primary(old(self).toks(), old(self).pos()) {
                Ok((e, p)) => r matches Ok(x) && x == e && final(self).pos() == p,
                Err(x) => r matches Err(y) && y@ == x,
            },
        decreases old(self).toks().len() - old(self).pos(), 0nat, 1nat,
    {
        let k = self.peek_kind();
        let p = self.current;
        if k == TokenType::False {
            self.current = p + 1;
            Ok(Expr::LiteralExpr(LiteralExpr { value: Some(Value::Boolean(false)) }))
        } else if k == TokenType::True {
            self.current = p + 1;
            Ok(Expr::LiteralExpr(LiteralExpr { value: Some(Value::Boolean(true)) }))
        } else if k == TokenType::Nil {
            self.current = p + 1;
            Ok(Expr::LiteralExpr(LiteralExpr { value: Some(Value::Nil) }))
        } else if k == TokenType::Number || k == TokenType::String {
            let v = match &self.tokens[p].literal {
                Some(v) => Some(v.duplicate()),
                None => None,
            };
            self.current = p + 1;
            Ok(Expr::LiteralExpr(LiteralExpr { value: v }))
        } else if k == TokenType::LeftParen {
            self.current = p + 1;
            let e = self.assignment()?;
            if self.peek_kind() == TokenType::RightParen {
                self.current = self.current + 1;
                Ok(Expr::GroupingExpr(GroupingExpr { expression: Box::new(e) }))
            } else {
                Err(parse_error(self.peek_line(), "Expect ')' after expression"))
            }
        } else if k == TokenType::Identifier {
            let name = self.tokens[p].duplicate();
            self.current = p + 1;
            Ok(Expr::VariableExpr(VariableExpr { name }))
        } else {
            Err(parse_error(self.peek_line(), "Expect Expression."))
        }
    }

    fn unary(&mut self) -> (r: Result<Expr, LoxErrors>)
        requires
            old(self).wf(),
        ensures
            final(self).wf(),
            final(self).toks() == old(self).toks(),
            r is Ok ==> final(self).pos() > old(self).pos(),
            match unary(old(self).toks(), old(self).pos()) {
                Ok((e, p)) => r matches Ok(x) && x == e && final(self).pos() == p,
                Err(x) => r matches Err(y) && y@ == x,
            },
        decreases old(self).toks().len() - old(self).pos(), 0nat, 2nat,
    {
        let k = self.peek_kind();
        if (k == TokenType::Bang || k == TokenType::Minus) && self.current < self.tokens.len() {
            let op = self.tokens[self.current].duplicate();
            self.current = self.current + 1;
            let right = self.unary()?;
            Ok(Expr::UnaryExpr(UnaryExpr { operator: op, right: Box::new(right) }))
        } else {
            self.primary()
        }
    }

    fn binary_level(&mut self, lv: u8) -> (r: Result<Expr, LoxErrors>)
        requires
            old(self).wf(),
            lv <= 6,
        ensures
            final(self).wf(),
            final(self).toks() == old(self).toks(),
            r is Ok ==> final(self).pos() > old(self).pos(),
            match binary_level(old(self).toks(), old(self).pos(), lv as nat) {
                Ok((e, p)) => r matches Ok(x) && x == e && final(self).pos() == p,
                Err(x) => r matches Err(y) && y@ == x,
            },
        decreases old(self).toks().len() - old(self).pos(), lv as nat, 3nat,
    {
        if lv == 0 {
            return self.unary();
        }
        let left = self.binary_level(lv - 1)?;
        self.binary_rest(lv, left)
    }

    fn level_has_exec(lv: u8, k: TokenType) -> (r: bool)
        ensures
            r == level_has(lv as nat, k),
    {
        if lv == 6 {
            k == TokenType::Or
        } else if lv == 5 {
            k == TokenType::And
        } else if lv == 4 {
            k == TokenType::BangEqual || k == TokenType::EqualEqual
        } else if lv == 3 {
            k == TokenType::Greater || k == TokenType::GreaterEqual || k == TokenType::Less || k == TokenType::LessEqual
        } else if lv == 2 {
            k == TokenType::Minus || k == TokenType::Plus
        } else if lv == 1 {
            k == TokenType::Slash || k == TokenType::Star
        } else {
            false
        }
    }

    fn binary_rest(&mut self, lv: u8, left: Expr) -> (r: Result<Expr, LoxErrors>)
        requires
            old(self).wf(),
            1 <= lv <= 6,
        ensures
            final(self).wf(),
            final(self).toks() == old(self).toks(),
            r is Ok ==> final(self).pos() >= old(self).pos(),
            match binary_rest(old(self).toks(), old(self).pos(), lv as nat, left) {
                Ok((e, p)) => r matches Ok(x) && x == e && final(self).pos() == p,
                Err(x) => r matches Err(y) && y@ == x,
            },
        decreases old(self).toks().len() - old(self).pos(), lv as nat, 0nat,
    {
        let mut e = left;
        while Self::level_has_exec(lv, self.peek_kind()) && self.current < self.tokens.len()
            invariant
                self.wf(),
                self.toks() == old(self).toks(),
                1 <= lv <= 6,
                self.pos() >= old(self).pos(),
                binary_rest(old(self).toks(), old(self).pos(), lv as nat, left)
                    == binary_rest(self.toks(), self.pos(), lv as nat, e),
            decreases self.tokens.len() - self.current,
        {
            let op = self.tokens[self.current].duplicate();
            self.current = self.current + 1;
            let right = self.binary_level(lv - 1)?;
            if lv >= 5 {
                e = Expr::LogicalExpr(LogicalExpr { left: Box::new(e), operator: op, right: Box::new(right) });
            } else {
                e = Expr::BinaryExpr(BinaryExpr { left: Box::new(e), operator: op, right: Box::new(right) });
            }
        }
        Ok(e)
    }

    fn assignment(&mut self) -> (r: Result<Expr, LoxErrors>)
        requires
            old(self).wf(),
        ensures
            final(self).wf(),
            final(self).toks() == old(self).toks(),
            r is Ok ==> final(self).pos() > old(self).pos(),
            match assignment(old(self).toks(), old(self).pos()) {
                Ok((e, p)) => r matches Ok(x) && x == e && final(self).pos() == p,
                Err(x) => r matches Err(y) && y@ == x,
            },
        decreases old(self).toks().len() - old(self).pos(), 7nat, 0nat,
    {
        let e = self.binary_level(6)?;
        if self.peek_kind() == TokenType::Equal {
            let line = self.peek_line();
            self.current = self.current + 1;
            let v = self.assignment()?;
            match e {
                Expr::VariableExpr(var) => Ok(Expr::AssignExpr(AssignExpr { name: var.name, value: Box::new(v) })),
                _ => Err(parse_error(line, "Invalid assignment target")),
            }
        } else {
            Ok(e)
        }
    }

    fn expression_statement(&mut self) -> (r: Result<Stmt, LoxErrors>)
        requires
            old(self).wf(),
        ensures
            final(self).wf(),
            final(self).toks() == old(self).toks(),
            r is Ok ==> final(self).pos() > old(self).pos(),
            match expression_statement(old(self).toks(), old(self).pos()) {
                Ok((s, p)) => r matches Ok(x) && stmt_model(x) == s && final(self).pos() == p,
                Err(x) => r matches Err(y) && y@ == x,
            },
        decreases old(self).toks().len() - old(self).pos(), 10nat, 0nat,
    {
        let e = self.assignment()?;
        self.consume(TokenType::Semicolon, "Expect ';' after value.")?;
        Ok(Stmt::ExpressionStmt(ExpressionStmt { expression: e }))
    }

    fn print_statement(&mut self) -> (r: Result<Stmt, LoxErrors>)
        requires
            old(self).wf(),
        ensures
            final(self).wf(),
            final(self).toks() == old(self).toks(),
            r is Ok ==> final(self).pos() > old(self).pos(),
            match print_statement(old(self).toks(), old(self).pos()) {
                Ok((s, p)) => r matches Ok(x) && stmt_model(x) == s && final(self).pos() == p,
                Err(x) => r matches Err(y) && y@ == x,
            },
        decreases old(self).toks().len() - old(self).pos(), 10nat, 0nat,
    {
        let e = self.assignment()?;
        self.consume(TokenType::Semicolon, "Expect ';' after value.")?;
        Ok(Stmt::PrintStmt(PrintStmt { expression: e }))
    }

    fn var_declaration(&mut self) -> (r: Result<Stmt, LoxErrors>)
        requires
            old(self).wf(),
        ensures
            final(self).wf(),
            final(self).toks() == old(self).toks(),
            r is Ok ==> final(self).pos() > old(self).pos(),
            match var_declaration(old(self).toks(), old(self).pos()) {
                Ok((s, p)) => r matches Ok(x) && stmt_model(x) == s && final(self).pos() == p,
                Err(x) => r matches Err(y) && y@ == x,
            },
        decreases old(self).toks().len() - old(self).pos(), 10nat, 0nat,
    {
        if self.peek_kind() != TokenType::Identifier {
            return Err(parse_error(self.peek_line(), "Expect variable name"));
        }
        let name = self.tokens[self.current].duplicate();
        self.current = self.current + 1;
        if self.peek_kind() == TokenType::Equal {
            self.current = self.current + 1;
            let e = self.assignment()?;
            self.consume(TokenType::Semicolon, "Expect ; after variable declaration")?;
            Ok(Stmt::VarStmt(VarStmt { name, initializer: Some(e) }))
        } else {
            self.consume(TokenType::Semicolon, "Expect ; after variable declaration")?;
            Ok(Stmt::VarStmt(VarStmt { name, initializer: None }))
        }
    }

    fn while_statement(&mut self) -> (r: Result<Stmt, LoxErrors>)
        requires
            old(self).wf(),
        ensures
            final(self).wf(),
            final(self).toks() == old(self).toks(),
            r is Ok ==> final(self).pos() > old(self).pos(),
            match while_statement(old(self).toks(), old(self).pos()) {
                Ok((s, p)) => r matches Ok(x) && stmt_model(x) == s && final(self).pos() == p,
                Err(x) => r matches Err(y) && y@ == x,
            },
        decreases old(self).toks().len() - old(self).pos(), 10nat, 0nat,
    {
        self.consume(TokenType::LeftParen, "Expect '(' after 'while'")?;
        let condition = self.assignment()?;
        self.consume(TokenType::RightParen, "Expect ')' after condition")?;
        let body = self.statement()?;
        Ok(Stmt::WhileStmt(WhileStmt { condition, body: Box::new(body) }))
    }

    fn if_statment(&mut self) -> (r: Result<Stmt, LoxErrors>)
        requires
            old(self).wf(),
        ensures
            final(self).wf(),
            final(self).toks() == old(self).toks(),
            r is Ok ==> final(self).pos() > old(self).pos(),
            match if_statement(old(self).toks(), old(self).pos()) {
                Ok((s, p)) => r matches Ok(x) && stmt_model(x) == s && final(self).pos() == p,
                Err(x) => r matches Err(y) && y@ == x,
            },
        decreases old(self).toks().len() - old(self).pos(), 10nat, 0nat,
    {
        self.consume(TokenType::LeftParen, "Expect '(' after 'if' ")?;
        let condition = self.assignment()?;
        self.consume(TokenType::RightParen, "Expect ')' after if condition.")?;
        let then_branch = self.statement()?;
        if self.peek_kind() == TokenType::Else {
            self.current = self.current + 1;
            let else_branch = self.statement()?;
            Ok(Stmt::IfStmt(IfStmt { condition, then_branch: Box::new(then_branch), else_branch: Some(Box::new(else_branch)) }))
        } else {
            Ok(Stmt::IfStmt(IfStmt { condition, then_branch: Box::new(then_branch), else_branch: None }))
        }
    }

    fn for_init(&mut self) -> (r: Result<Option<Stmt>, LoxErrors>)
        requires
            old(self).wf(),
        ensures
            final(self).wf(),
            final(self).toks() == old(self).toks(),
            r is Ok ==> final(self).pos() > old(self).pos(),
            match for_init(old(self).toks(), old(self).pos()) {
                Ok((s, p)) => r matches Ok(x) && final(self).pos() == p && match x {
                    Some(y) => s == Some(stmt_model(y)),
                    None => s is None,
                },
                Err(x) => r matches Err(y) && y@ == x,
            },
        decreases old(self).toks().len() - old(self).pos(), 10nat, 1nat,
    {
        let k = self.peek_kind();
        if k == TokenType::Semicolon {
            self.current = self.current + 1;
            Ok(None)
        } else if k == TokenType::Var {
            self.current = self.current + 1;
            Ok(Some(self.var_declaration()?))
        } else {
            Ok(Some(self.expression_statement()?))
        }
    }

    fn for_clause(&mut self, stop: TokenType) -> (r: Result<Option<Expr>, LoxErrors>)
        requires
            old(self).wf(),
        ensures
            final(self).wf(),
            final(self).toks() == old(self).toks(),
            r is Ok ==> final(self).pos() >= old(self).pos(),
            match for_clause(old(self).toks(), old(self).pos(), stop) {
                Ok((e, p)) => r matches Ok(x) && x == e && final(self).pos() == p,
                Err(x) => r matches Err(y) && y@ == x,
            },
        decreases old(self).toks().len() - old(self).pos(), 8nat, 0nat,
    {
        if self.peek_kind() == stop {
            Ok(None)
        } else {
            Ok(Some(self.assignment()?))
        }
    }

    fn for_statement(&mut self) -> (r: Result<Stmt, LoxErrors>)
        requires
            old(self).wf(),
        ensures
            final(self).wf(),
            final(self).toks() == old(self).toks(),
            r is Ok ==> final(self).pos() > old(self).pos(),
            match for_statement(old(self).toks(), old(self).pos()) {
                Ok((s, p)) => r matches Ok(x) && stmt_model(x) == s && final(self).pos() == p,
                Err(x) => r matches Err(y) && y@ == x,
            },
        decreases old(self).toks().len() - old(self).pos(), 10nat, 2nat,
    {
        self.consume(TokenType::LeftParen, "Expect '(' after 'for'")?;
        let initializer = self.for_init()?;
        let condition = self.for_clause(TokenType::Semicolon)?;
        self.consume(TokenType::Semicolon, "Expect ';' after loop condition")?;
        let increment = self.for_clause(TokenType::RightParen)?;
        self.consume(TokenType::RightParen, "Expect ')' after for clauses")?;
        let ghost im = if initializer is Some { Some(stmt_model(initializer->0)) } else { None::<StmtV> };
        let ghost cm = condition;
        let ghost incm = increment;
        let body = self.statement()?;
        let ghost bm = stmt_model(body);
        let body = match increment {
            Some(i) => {
                let ghost ie = i;
                let v = vec![body, Stmt::ExpressionStmt(ExpressionStmt { expression: i })];
                proof {
                    reveal_with_fuel(stmts_model, 3);
                    assert(v@.len() == 2);
                    assert(stmts_model(v@, 2) =~= seq![bm, StmtV::Expression(ie)]);
                }
                Stmt::BlockStmt(BlockStmt { statements: v })
            },
            None => body,
        };
        let ghost body1 = stmt_model(body);
        assert(body1 == match incm { Some(i) => StmtV::Block(seq![bm, StmtV::Expression(i)]), None => bm });
        let condition = match condition {
            Some(c) => c,
            None => Expr::LiteralExpr(LiteralExpr { value: Some(Value::Boolean(true)) }),
        };
        let lp = Stmt::WhileStmt(WhileStmt { condition, body: Box::new(body) });
        let ghost lm = stmt_model(lp);
        assert(lm == StmtV::While(condition, Box::new(body1)));
        match initializer {
            Some(init) => {
                let ghost a = stmt_model(init);
                let v = vec![init, lp];
                proof {
                    reveal_with_fuel(stmts_model, 3);
                    assert(v@.len() == 2);
                    assert(stmts_model(v@, 2) =~= seq![a, lm]);
                }
                let r = Stmt::BlockStmt(BlockStmt { statements: v });
                assert(stmt_model(r) == desugar_for(im, cm, incm, bm));
                Ok(r)
            },
            None => {
                assert(stmt_model(lp) == desugar_for(im, cm, incm, bm));
                Ok(lp)
            },
        }
    }

    fn statement(&mut self) -> (r: Result<Stmt, LoxErrors>)
        requires
            old(self).wf(),
        ensures
            final(self).wf(),
            final(self).toks() == old(self).toks(),
            r is Ok ==> final(self).pos() > old(self).pos(),
            match statement(old(self).toks(), old(self).pos()) {
                Ok((s, p)) => r matches Ok(x) && stmt_model(x) == s && final(self).pos() == p,
                Err(x) => r matches Err(y) && y@ == x,
            },
        decreases old(self).toks().len() - old(self).pos(), 11nat, 0nat,
    {
        let k = self.peek_kind();
        if k == TokenType::If {
            self.current = self.current + 1;
            self.if_statment()
        } else if k == TokenType::Print {
            self.current = self.current + 1;
            self.print_statement()
        } else if k == TokenType::For {
            self.current = self.current + 1;
            self.for_statement()
        } else if k == TokenType::While {
            self.current = self.current + 1;
            self.while_statement()
        } else if k == TokenType::LeftBrace {
            self.current = self.current + 1;
            let statements = self.block()?;
            Ok(Stmt::BlockStmt(BlockStmt { statements }))
        } else {
            self.expression_statement()
        }
    }

    fn block(&mut self) -> (r: Result<Vec<Stmt>, LoxErrors>)
        requires
            old(self).wf(),
        ensures
            final(self).wf(),
            final(self).toks() == old(self).toks(),
            r is Ok ==> final(self).pos() > old(self).pos(),
            match block_rest(old(self).toks(), old(self).pos(), Seq::empty()) {
                Ok((ss, p)) => r matches Ok(x) && stmts_model(x@, x@.len() as int) == ss && final(self).pos() == p,
                Err(x) => r matches Err(y) && y@ == x,
            },
        decreases old(self).toks().len() - old(self).pos(), 13nat, 0nat,
    {
        let mut statements: Vec<Stmt> = Vec::new();
        while self.peek_kind() != TokenType::RightBrace && self.peek_kind() != TokenType::Eof
            invariant
                self.wf(),
                self.toks() == old(self).toks(),
                self.pos() >= old(self).pos(),
                block_rest(old(self).toks(), old(self).pos(), Seq::empty())
                    == block_rest(self.toks(), self.pos(), stmts_model(statements@, statements@.len() as int)),
            decreases self.tokens.len() - self.current,
        {
            let s = self.declaration()?;
            proof { lemma_model_push(statements@, s, statements@.len() as int); }
            statements.push(s);
        }
        self.consume(TokenType::RightBrace, "Expect'}' after block.")?;
        Ok(statements)
    }

    fn declaration(&mut self) -> (r: Result<Stmt, LoxErrors>)
        requires
            old(self).wf(),
        ensures
            final(self).wf(),
            final(self).toks() == old(self).toks(),
            r is Ok ==> final(self).pos() > old(self).pos(),
            match declaration(old(self).toks(), old(self).pos()) {
                Ok((s, p)) => r matches Ok(x) && stmt_model(x) == s && final(self).pos() == p,
                Err(x) => r matches Err(y) && y@ == x,
            },
        decreases old(self).toks().len() - old(self).pos(), 12nat, 0nat,
    {
        if self.peek_kind() == TokenType::Var {
            self.current = self.current + 1;
            self.var_declaration()
        } else {
            self.statement()
        }
    }

    /// Parses declarations up to the end of input; the first error ends
    /// parsing.
    pub fn parse(&mut self) -> (r: Result<Vec<Stmt>, LoxErrors>)
        requires
            old(self).wf(),
        ensures
            final(self).wf(),
            match parse_all(old(self).toks(), old(self).pos(), Seq::empty()) {
                Ok(ss) => r matches Ok(x) && stmts_model(x@, x@.len() as int) == ss,
                Err(x) => r matches Err(y) && y@ == x,
            },
    {
        let mut statements: Vec<Stmt> = Vec::new();
        assert(stmts_model(statements@, 0) =~= Seq::<StmtV>::empty());
        while self.peek_kind() != TokenType::Eof
            invariant
                self.wf(),
                self.toks() == old(self).toks(),
                parse_all(old(self).toks(), old(self).pos(), Seq::empty())
                    == parse_all(self.toks(), self.pos(), stmts_model(statements@, statements@.len() as int)),
            decreases self.tokens.len() - self.current,
        {
            let s = self.declaration()?;
            proof { lemma_model_push(statements@, s, statements@.len() as int); }
            statements.push(s);
        }
        Ok(statements)
    }
}

} // verus!
