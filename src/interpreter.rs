use vstd::prelude::*;
use crate::ast::{BinaryExpr, Expr, Stmt, UnaryExpr};
use crate::environment::{env_assign, env_define, env_get, undefined_error, EnvView, Environment};
use crate::error::{Error, ErrorView, LoxErrors};
use crate::number::{add_spec, div_spec, less_value, mul_spec, neg_spec, sub_spec, Number};
use crate::token::Token;
use crate::token_type::TokenType;
use crate::value::{opt_view, push_str, truthy, val_eq, val_text, Val, Value};

verus! {

/// The value an operand stands for: a variable declared without an
/// initializer reads as `nil`.
pub open spec fn or_nil(v: Option<Val>) -> Val {
    match v {
        Some(x) => x,
        None => Val::Nil,
    }
}

pub open spec fn runtime(line: usize, m: Seq<char>) -> ErrorView {
    ErrorView::Runtime(line as int, m)
}

/// A number that arithmetic produced, or the error for one that does not fit.
pub open spec fn arith(r: Option<Number>, line: usize) -> Result<Val, ErrorView> {
    match r {
        Some(n) => Ok(Val::Number(n)),
        None => Err(runtime(line, "Number out of range."@)),
    }
}

/// What a unary operator yields on a value.
pub open spec fn unary_spec(op: Token, v: Val) -> Result<Val, ErrorView> {
    match op.type_ {
        TokenType::Bang => Ok(Val::Boolean(!truthy(v))),
        TokenType::Minus => match v {
            Val::Number(n) => arith(neg_spec(n), op.line),
            _ => Err(runtime(op.line, "Operand must be a number"@)),
        },
        _ => Err(runtime(op.line, "Unknown operator."@)),
    }
}

/// What an operator that takes two numbers yields on them.
pub open spec fn numeric_spec(op: Token, a: Number, b: Number) -> Result<Val, ErrorView> {
    match op.type_ {
        TokenType::Minus => arith(sub_spec(a, b), op.line),
        TokenType::Star => arith(mul_spec(a, b), op.line),
        TokenType::Slash => if b.numer() == 0 {
            Err(runtime(op.line, "Division by zero."@))
        } else {
            arith(div_spec(a, b), op.line)
        },
        TokenType::Greater => Ok(Val::Boolean(less_value(b, a))),
        TokenType::GreaterEqual => Ok(Val::Boolean(!less_value(a, b))),
        TokenType::Less => Ok(Val::Boolean(less_value(a, b))),
        _ => Ok(Val::Boolean(!less_value(b, a))),
    }
}

pub open spec fn is_numeric_op(t: TokenType) -> bool {
    t == TokenType::Minus || t == TokenType::Star || t == TokenType::Slash
        || t == TokenType::Greater || t == TokenType::GreaterEqual || t == TokenType::Less
        || t == TokenType::LessEqual
}

/// What a binary operator yields on two values. Only numbers take part in
/// arithmetic and comparison; `+` also joins two strings; `==` and `!=`
/// compare any two values.
pub open spec fn binary_spec(op: Token, l: Val, r: Val) -> Result<Val, ErrorView> {
    if op.type_ == TokenType::EqualEqual {
        Ok(Val::Boolean(val_eq(l, r)))
    } else if op.type_ == TokenType::BangEqual {
        Ok(Val::Boolean(!val_eq(l, r)))
    } else if op.type_ == TokenType::Plus {
        match (l, r) {
            (Val::Number(a), Val::Number(b)) => arith(add_spec(a, b), op.line),
            (Val::Str(a), Val::Str(b)) => Ok(Val::Str(a + b)),
            _ => Err(runtime(op.line, "Operands must be two numbers or two string"@)),
        }
    } else if is_numeric_op(op.type_) {
        match (l, r) {
            (Val::Number(a), Val::Number(b)) => numeric_spec(op, a, b),
            _ => Err(runtime(op.line, "Operands must be numbers"@)),
        }
    } else {
        Err(runtime(op.line, "Unknown operator."@))
    }
}

pub open spec fn lift(r: Result<Val, ErrorView>) -> Result<Option<Val>, ErrorView> {
    match r {
        Ok(v) => Ok(Some(v)),
        Err(e) => Err(e),
    }
}

/// Evaluates an expression against an environment: the result, and the
/// environment that assignments inside it leave.
pub open spec fn eval(e: Expr, env: EnvView) -> (Result<Option<Val>, ErrorView>, EnvView)
    decreases e,
{
    match e {
        Expr::LiteralExpr(l) => (Ok(opt_view(l.value)), env),
        Expr::GroupingExpr(g) => eval(*g.expression, env),
        Expr::VariableExpr(v) => match env_get(env, v.name.lexeme@) {
            Some(x) => (Ok(x), env),
            None => (Err(undefined_error(v.name)), env),
        },
        Expr::AssignExpr(a) => {
            let (r, env1) = eval(*a.value, env);
            match r {
                Err(x) => (Err(x), env1),
                Ok(v) => match env_assign(env1, a.name.lexeme@, v) {
                    Some(env2) => (Ok(v), env2),
                    None => (Err(undefined_error(a.name)), env1),
                },
            }
        },
        Expr::UnaryExpr(u) => {
            let (r, env1) = eval(*u.right, env);
            match r {
                Err(x) => (Err(x), env1),
                Ok(v) => (lift(unary_spec(u.operator, or_nil(v))), env1),
            }
        },
        Expr::BinaryExpr(b) => {
            let (r1, env1) = eval(*b.left, env);
            match r1 {
                Err(x) => (Err(x), env1),
                Ok(v1) => {
                    let (r2, env2) = eval(*b.right, env1);
                    match r2 {
                        Err(x) => (Err(x), env2),
                        Ok(v2) => (lift(binary_spec(b.operator, or_nil(v1), or_nil(v2))), env2),
                    }
                },
            }
        },
        Expr::LogicalExpr(b) => {
            let (r1, env1) = eval(*b.left, env);
            match r1 {
                Err(x) => (Err(x), env1),
                Ok(v1) => if (b.operator.type_ == TokenType::Or) == truthy(or_nil(v1)) {
                    (Ok(v1), env1)
                } else {
                    eval(*b.right, env1)
                },
            }
        },
    }
}

/// The interpreter's state: the scopes, and the lines printed so far.
pub struct InterpView {
    pub env: EnvView,
    pub out: Seq<Seq<char>>,
}

pub open spec fn unit(r: Result<Option<Val>, ErrorView>) -> Result<(), ErrorView> {
    match r {
        Ok(_) => Ok(()),
        Err(e) => Err(e),
    }
}

/// Executes a statement. Each `while` may run at most `fuel` iterations, and
/// the statements inside an iteration get one less.
pub open spec fn exec(s: Stmt, st: InterpView, fuel: nat) -> (Result<(), ErrorView>, InterpView)
    decreases fuel, s, 0nat,
{
    match s {
        Stmt::ExpressionStmt(x) => {
            let (r, env1) = eval(x.expression, st.env);
            (unit(r), InterpView { env: env1, out: st.out })
        },
        Stmt::PrintStmt(x) => {
            let (r, env1) = eval(x.expression, st.env);
            match r {
                Err(e) => (Err(e), InterpView { env: env1, out: st.out }),
                Ok(v) => (Ok(()), InterpView { env: env1, out: st.out.push(val_text(or_nil(v))) }),
            }
        },
        Stmt::VarStmt(x) => match x.initializer {
            None => (Ok(()), InterpView { env: env_define(st.env, x.name.lexeme@, None), out: st.out }),
            Some(init) => {
                let (r, env1) = eval(init, st.env);
                match r {
                    Err(e) => (Err(e), InterpView { env: env1, out: st.out }),
                    Ok(v) => (Ok(()), InterpView { env: env_define(env1, x.name.lexeme@, v), out: st.out }),
                }
            },
        },
        Stmt::BlockStmt(b) => {
            let n = st.env.bindings.len() as int;
            let inner = InterpView { env: EnvView { bindings: st.env.bindings, start: n }, out: st.out };
            let (r, st1) = exec_list(b.statements@, 0, inner, fuel);
            (r, InterpView { env: EnvView { bindings: st1.env.bindings.take(n), start: st.env.start }, out: st1.out })
        },
        Stmt::IfStmt(x) => {
            let (r, env1) = eval(x.condition, st.env);
            let st1 = InterpView { env: env1, out: st.out };
            match r {
                Err(e) => (Err(e), st1),
                Ok(v) => if truthy(or_nil(v)) {
                    exec(*x.then_branch, st1, fuel)
                } else {
                    match x.else_branch {
                        Some(b) => exec(*b, st1, fuel),
                        None => (Ok(()), st1),
                    }
                },
            }
        },
        Stmt::WhileStmt(w) => {
            let (r, env1) = eval(w.condition, st.env);
            let st1 = InterpView { env: env1, out: st.out };
            match r {
                Err(e) => (Err(e), st1),
                Ok(v) => if !truthy(or_nil(v)) {
                    (Ok(()), st1)
                } else if fuel == 0 {
                    (Err(ErrorView::LoopLimit), st1)
                } else {
                    let (r2, st2) = exec(*w.body, st1, (fuel - 1) as nat);
                    match r2 {
                        Err(e) => (Err(e), st2),
                        Ok(_) => exec(s, st2, (fuel - 1) as nat),
                    }
                },
            }
        },
    }
}

/// Executes `ss[i..]` in order, stopping at the first error.
pub open spec fn exec_list(ss: Seq<Stmt>, i: int, st: InterpView, fuel: nat) -> (Result<(), ErrorView>, InterpView)
    decreases fuel, ss, ss.len() - i,
{
    if i < 0 || i >= ss.len() {
        (Ok(()), st)
    } else {
        let (r, st1) = exec(ss[i], st, fuel);
        match r {
            Err(e) => (Err(e), st1),
            Ok(_) => exec_list(ss, i + 1, st1, fuel),
        }
    }
}

pub open spec fn value_res(r: Result<Value, LoxErrors>) -> Result<Val, ErrorView> {
    match r {
        Ok(v) => Ok(v@),
        Err(e) => Err(e@),
    }
}

pub open spec fn eval_res(r: Result<Option<Value>, LoxErrors>) -> Result<Option<Val>, ErrorView> {
    match r {
        Ok(v) => Ok(opt_view(v)),
        Err(e) => Err(e@),
    }
}

pub open spec fn unit_res(r: Result<(), LoxErrors>) -> Result<(), ErrorView> {
    match r {
        Ok(_) => Ok(()),
        Err(e) => Err(e@),
    }
}

fn rt_error(line: usize, msg: &str) -> (r: LoxErrors)
    ensures
        r@ == runtime(line, msg@),
{
    LoxErrors::RunTimeException(Error::new(line, String::from_str(msg)))
}

fn arith_exec(r: Option<Number>, line: usize) -> (v: Result<Value, LoxErrors>)
    ensures
        value_res(v) == arith(r, line),
{
    match r {
        Some(n) => Ok(Value::Number(n)),
        None => Err(rt_error(line, "Number out of range.")),
    }
}

fn value_or_nil(v: Option<Value>) -> (r: Value)
    ensures
        r@ == or_nil(opt_view(v)),
{
    match v {
        Some(x) => x,
        None => Value::Nil,
    }
}

/// Applies a unary operator to a value.
pub fn unary_op(op: &Token, v: &Value) -> (r: Result<Value, LoxErrors>)
    ensures
        value_res(r) == unary_spec(*op, v@),
{
    match op.type_ {
        TokenType::Bang => Ok(Value::Boolean(!v.is_truthy())),
        TokenType::Minus => match v {
            Value::Number(n) => arith_exec(n.checked_neg(), op.line),
            _ => Err(rt_error(op.line, "Operand must be a number")),
        },
        _ => Err(rt_error(op.line, "Unknown operator.")),
    }
}

fn numeric_op(op: &Token, a: &Number, b: &Number) -> (r: Result<Value, LoxErrors>)
    requires
        is_numeric_op(op.type_),
    ensures
        value_res(r) == numeric_spec(*op, *a, *b),
{
    match op.type_ {
        TokenType::Minus => arith_exec(a.checked_sub(b), op.line),
        TokenType::Star => arith_exec(a.checked_mul(b), op.line),
        TokenType::Slash => if b.numerator() == 0 {
            Err(rt_error(op.line, "Division by zero."))
        } else {
            arith_exec(a.checked_div(b), op.line)
        },
        TokenType::Greater => Ok(Value::Boolean(b.less(a))),
        TokenType::GreaterEqual => Ok(Value::Boolean(!a.less(b))),
        TokenType::Less => Ok(Value::Boolean(a.less(b))),
        _ => Ok(Value::Boolean(!b.less(a))),
    }
}

/// Applies a binary operator to two values.
pub fn binary_op(op: &Token, l: &Value, r: &Value) -> (res: Result<Value, LoxErrors>)
    ensures
        value_res(res) == binary_spec(*op, l@, r@),
{
    let t = op.type_;
    if t == TokenType::EqualEqual {
        Ok(Value::Boolean(l.equals(r)))
    } else if t == TokenType::BangEqual {
        Ok(Value::Boolean(!l.equals(r)))
    } else if t == TokenType::Plus {
        match (l, r) {
            (Value::Number(a), Value::Number(b)) => arith_exec(a.checked_add(b), op.line),
            (Value::String(a), Value::String(b)) => {
                let mut s = a.clone();
                push_str(&mut s, b.as_str());
                Ok(Value::String(s))
            },
            _ => Err(rt_error(op.line, "Operands must be two numbers or two string")),
        }
    } else if t == TokenType::Minus || t == TokenType::Star || t == TokenType::Slash
        || t == TokenType::Greater || t == TokenType::GreaterEqual || t == TokenType::Less
        || t == TokenType::LessEqual {
        match (l, r) {
            (Value::Number(a), Value::Number(b)) => numeric_op(op, a, b),
            _ => Err(rt_error(op.line, "Operands must be numbers")),
        }
    } else {
        Err(rt_error(op.line, "Unknown operator."))
    }
}

/// The tree-walking interpreter: scopes, the lines printed so far, and the
/// number of iterations each loop may run.
pub struct Intrepreter {
    environment: Environment,
    output: Vec<String>,
    loop_limit: u64,
}

impl View for Intrepreter {
    type V = InterpView;

    closed spec fn view(&self) -> InterpView {
        InterpView { env: self.environment@, out: self.output@.map_values(|s: String| s@) }
    }
}

impl Intrepreter {
    pub closed spec fn wf(&self) -> bool {
        self.environment.wf()
    }

    /// How many iterations each loop may run.
    pub closed spec fn limit(&self) -> nat {
        self.loop_limit as nat
    }

    /// An interpreter with an empty global scope whose loops may run
    /// `limit` iterations.
    pub fn with_loop_limit(limit: u64) -> (r: Self)
        ensures
            r.wf(),
            r.limit() == limit,
            r@.env.bindings == Seq::<(Seq<char>, Option<Val>)>::empty(),
            r@.env.start == 0,
            r@.out == Seq::<Seq<char>>::empty(),
    {
        let r = Intrepreter { environment: Environment::new(), output: Vec::new(), loop_limit: limit };
        assert(r@.out =~= Seq::<Seq<char>>::empty());
        r
    }

    pub(crate) fn loop_limit(&self) -> (r: u64)
        ensures
            r == self.limit(),
    {
        self.loop_limit
    }

    /// The lines printed so far.
    pub fn output(&self) -> (r: &Vec<String>)
        ensures
            r@.map_values(|s: String| s@) == self@.out,
    {
        &self.output
    }

    /// Hands out the lines printed so far and forgets them.
    pub fn take_output(&mut self) -> (r: Vec<String>)
        ensures
            r@.map_values(|s: String| s@) == old(self)@.out,
            final(self)@.env == old(self)@.env,
            final(self)@.out == Seq::<Seq<char>>::empty(),
            final(self).wf() == old(self).wf(),
            final(self).limit() == old(self).limit(),
    {
        let mut r: Vec<String> = Vec::new();
        std::mem::swap(&mut r, &mut self.output);
        assert(self@.out =~= Seq::<Seq<char>>::empty());
        r
    }

    /// Opens a scope; returns what `exit_scope` needs to close it.
    pub(crate) fn enter_scope(&mut self) -> (r: (usize, usize))
        requires
            old(self).wf(),
        ensures
            final(self).wf(),
            r.0 <= r.1,
            r.0 == old(self)@.env.start,
            r.1 == old(self)@.env.bindings.len(),
            final(self)@ == (InterpView { env: EnvView { bindings: old(self)@.env.bindings, start: old(self)@.env.bindings.len() as int }, out: old(self)@.out }),
            final(self).limit() == old(self).limit(),
    {
        self.environment.begin_scope()
    }

    /// Closes the scope `enter_scope` returned `saved` for.
    pub(crate) fn exit_scope(&mut self, saved: (usize, usize))
        requires
            old(self).wf(),
            saved.0 <= saved.1 <= old(self)@.env.bindings.len(),
        ensures
            final(self).wf(),
            final(self)@ == (InterpView { env: EnvView { bindings: old(self)@.env.bindings.take(saved.1 as int), start: saved.0 as int }, out: old(self)@.out }),
            final(self).limit() == old(self).limit(),
    {
        self.environment.end_scope(saved);
    }

    pub(crate) fn evaluate(&mut self, e: &Expr) -> (r: Result<Option<Value>, LoxErrors>)
        requires
            old(self).wf(),
        ensures
            final(self).wf(),
            eval_res(r) == eval(*e, old(self)@.env).0,
            final(self)@.env == eval(*e, old(self)@.env).1,
            final(self)@.out == old(self)@.out,
            final(self).limit() == old(self).limit(),
            final(self)@.env.bindings.len() == old(self)@.env.bindings.len(),
            final(self)@.env.start == old(self)@.env.start,
        decreases e,
    {
        match e {
            Expr::LiteralExpr(l) => match &l.value {
                Some(v) => Ok(Some(v.duplicate())),
                None => Ok(None),
            },
            Expr::GroupingExpr(g) => self.evaluate(&g.expression),
            Expr::VariableExpr(v) => self.environment.get(&v.name),
            Expr::AssignExpr(a) => {
                let v = self.evaluate(&a.value)?;
                let copy = match &v {
                    Some(x) => Some(x.duplicate()),
                    None => None,
                };
                proof { self.environment.lemma_wf(); }
                self.environment.assign(&a.name, copy)?;
                Ok(v)
            },
            Expr::UnaryExpr(u) => self.visit_unary_expr(u),
            Expr::BinaryExpr(b) => self.visit_binary_exp(b),
            Expr::LogicalExpr(b) => {
                let v1 = self.evaluate(&b.left)?;
                let t = match &v1 {
                    Some(x) => x.is_truthy(),
                    None => false,
                };
                if (b.operator.type_ == TokenType::Or) == t {
                    Ok(v1)
                } else {
                    self.evaluate(&b.right)
                }
            },
        }
    }

    /// Evaluates a unary expression.
    pub fn visit_unary_expr(&mut self, u: &UnaryExpr) -> (r: Result<Option<Value>, LoxErrors>)
        requires
            old(self).wf(),
        ensures
            final(self).wf(),
            eval_res(r) == eval(Expr::UnaryExpr(*u), old(self)@.env).0,
            final(self)@.env == eval(Expr::UnaryExpr(*u), old(self)@.env).1,
            final(self)@.out == old(self)@.out,
            final(self).limit() == old(self).limit(),
            final(self)@.env.bindings.len() == old(self)@.env.bindings.len(),
            final(self)@.env.start == old(self)@.env.start,
        decreases u, 0nat,
    {
        let v = self.evaluate(&u.right)?;
        let x = unary_op(&u.operator, &value_or_nil(v))?;
        Ok(Some(x))
    }

    /// Evaluates a binary expression, left operand first.
    pub fn visit_binary_exp(&mut self, b: &BinaryExpr) -> (r: Result<Option<Value>, LoxErrors>)
        requires
            old(self).wf(),
        ensures
            final(self).wf(),
            eval_res(r) == eval(Expr::BinaryExpr(*b), old(self)@.env).0,
            final(self)@.env == eval(Expr::BinaryExpr(*b), old(self)@.env).1,
            final(self)@.out == old(self)@.out,
            final(self).limit() == old(self).limit(),
            final(self)@.env.bindings.len() == old(self)@.env.bindings.len(),
            final(self)@.env.start == old(self)@.env.start,
        decreases b, 0nat,
    {
        let v1 = self.evaluate(&b.left)?;
        let v2 = self.evaluate(&b.right)?;
        let x = binary_op(&b.operator, &value_or_nil(v1), &value_or_nil(v2))?;
        Ok(Some(x))
    }

    pub(crate) fn execute(&mut self, s: &Stmt, fuel: u64) -> (r: Result<(), LoxErrors>)
        requires
            old(self).wf(),
        ensures
            final(self).wf(),
            unit_res(r) == exec(*s, old(self)@, fuel as nat).0,
            final(self)@ == exec(*s, old(self)@, fuel as nat).1,
            final(self).limit() == old(self).limit(),
            final(self)@.env.bindings.len() >= old(self)@.env.bindings.len(),
            final(self)@.env.start == old(self)@.env.start,
        decreases fuel, s, 0nat,
    {
        match s {
            Stmt::ExpressionStmt(x) => {
                self.evaluate(&x.expression)?;
                Ok(())
            },
            Stmt::PrintStmt(x) => {
                let v = self.evaluate(&x.expression)?;
                let text = value_or_nil(v).to_text();
                self.output.push(text);
                assert(self@.out =~= old(self)@.out.push(text@));
                Ok(())
            },
            Stmt::VarStmt(x) => {
                let v = match &x.initializer {
                    None => None,
                    Some(init) => self.evaluate(init)?,
                };
                self.environment.define(x.name.lexeme.clone(), v);
                Ok(())
            },
            Stmt::BlockStmt(b) => {
                let saved = self.environment.begin_scope();
                let r = self.execute_block(&b.statements, fuel);
                self.environment.end_scope(saved);
                r
            },
            Stmt::IfStmt(x) => {
                let v = self.evaluate(&x.condition)?;
                if value_or_nil(v).is_truthy() {
                    self.execute(&x.then_branch, fuel)
                } else {
                    match &x.else_branch {
                        Some(b) => self.execute(b, fuel),
                        None => Ok(()),
                    }
                }
            },
            Stmt::WhileStmt(w) => {
                let v = self.evaluate(&w.condition)?;
                if !value_or_nil(v).is_truthy() {
                    Ok(())
                } else if fuel == 0 {
                    Err(LoxErrors::LoopLimit)
                } else {
                    self.execute(&w.body, fuel - 1)?;
                    self.execute(s, fuel - 1)
                }
            },
        }
    }

    fn execute_block(&mut self, ss: &Vec<Stmt>, fuel: u64) -> (r: Result<(), LoxErrors>)
        requires
            old(self).wf(),
        ensures
            final(self).wf(),
            unit_res(r) == exec_list(ss@, 0, old(self)@, fuel as nat).0,
            final(self)@ == exec_list(ss@, 0, old(self)@, fuel as nat).1,
            final(self).limit() == old(self).limit(),
            final(self)@.env.bindings.len() >= old(self)@.env.bindings.len(),
            final(self)@.env.start == old(self)@.env.start,
        decreases fuel, ss, 0nat,
    {
        let mut i: usize = 0;
        while i < ss.len()
            invariant
                0 <= i <= ss.len(),
                self.wf(),
                exec_list(ss@, 0, old(self)@, fuel as nat) == exec_list(ss@, i as int, self@, fuel as nat),
                self.limit() == old(self).limit(),
                self@.env.bindings.len() >= old(self)@.env.bindings.len(),
                self@.env.start == old(self)@.env.start,
            decreases ss.len() - i,
        {
            self.execute(&ss[i], fuel)?;
            i = i + 1;
        }
        Ok(())
    }

    /// Runs the statements in order against the interpreter's scopes,
    /// stopping at the first error.
    pub fn intrepret(&mut self, statements: &Vec<Stmt>) -> (r: Result<(), LoxErrors>)
        requires
            old(self).wf(),
        ensures
            final(self).wf(),
            unit_res(r) == exec_list(statements@, 0, old(self)@, old(self).limit()).0,
            final(self)@ == exec_list(statements@, 0, old(self)@, old(self).limit()).1,
            final(self).limit() == old(self).limit(),
    {
        let fuel = self.loop_limit;
        self.execute_block(statements, fuel)
    }
}

impl Default for Intrepreter {
    /// An interpreter with an empty global scope and no practical limit on
    /// loop iterations.
    fn default() -> (r: Self)
        ensures
            r.wf(),
            r.limit() == u64::MAX,
            r@.env.bindings == Seq::<(Seq<char>, Option<Val>)>::empty(),
            r@.env.start == 0,
            r@.out == Seq::<Seq<char>>::empty(),
    {
        Intrepreter::with_loop_limit(u64::MAX)
    }
}

} // verus!
