use vstd::prelude::*;
use crate::ast::{Expr, Stmt};
use crate::environment::{undefined, undefined_error, EnvView};
use crate::error::{Error, ErrorView, LoxErrors};
use crate::interpreter::{eval, exec, or_nil, runtime, InterpView, Intrepreter};
use crate::number::Number;
use crate::text::{decimal, push_char, push_decimal};
use crate::token_type::TokenType;
use crate::value::{truthy, Val, Value};
use crate::vm::{last_entry, lookup, put, opt_int, ByteCode, Register};

verus! {

/// An instruction with its names and constants seen as plain values.
pub enum Instr {
    Return,
    LoadUndefined(Register),
    NewString(Register, Seq<char>),
    Add(Register, Register, Register),
    Mul(Register, Register, Register),
    Sub(Register, Register, Register),
    Div(Register, Register, Register),
    SetVariable(Seq<char>, Register),
    GetVariable(Seq<char>, Register),
    Load(Register, Val),
    JumpIfTrue(Seq<char>),
    TestLessThan(Register, Register),
    TestGreaterThan(Register, Register),
    TestLessEqThan(Register, Register),
    TestGreaterEqThan(Register, Register),
    Label(Seq<char>),
    Print(Register),
}

impl View for ByteCode {
    type V = Instr;

    open spec fn view(&self) -> Instr {
        match self {
            ByteCode::Return => Instr::Return,
            ByteCode::LoadUndefined(r) => Instr::LoadUndefined(*r),
            ByteCode::NewString(r, s) => Instr::NewString(*r, s@),
            ByteCode::Add(d, a, b) => Instr::Add(*d, *a, *b),
            ByteCode::Mul(d, a, b) => Instr::Mul(*d, *a, *b),
            ByteCode::Sub(d, a, b) => Instr::Sub(*d, *a, *b),
            ByteCode::Div(d, a, b) => Instr::Div(*d, *a, *b),
            ByteCode::SetVariable(n, r) => Instr::SetVariable(n@, *r),
            ByteCode::GetVariable(n, r) => Instr::GetVariable(n@, *r),
            ByteCode::Load(r, v) => Instr::Load(*r, v@),
            ByteCode::JumpIfTrue(n) => Instr::JumpIfTrue(n@),
            ByteCode::TestLessThan(a, b) => Instr::TestLessThan(*a, *b),
            ByteCode::TestGreaterThan(a, b) => Instr::TestGreaterThan(*a, *b),
            ByteCode::TestLessEqThan(a, b) => Instr::TestLessEqThan(*a, *b),
            ByteCode::TestGreaterEqThan(a, b) => Instr::TestGreaterEqThan(*a, *b),
            ByteCode::Label(n) => Instr::Label(n@),
            ByteCode::Print(r) => Instr::Print(*r),
        }
    }
}

/// Where the value of a lowered expression ends up: in a register, or, for
/// a comparison, in the machine's condition flag (with the operator's line).
#[derive(Clone, Copy, Debug, PartialEq, Eq, Structural)]
pub enum Operand {
    Reg(Register),
    Flag(usize),
}

/// The generator's state: the code so far, the registers and labels handed
/// out, the register each declared variable was last stored from, and the
/// interpreter state that the statements lowered so far leave.
pub struct GenView {
    pub code: Seq<Instr>,
    pub regs: nat,
    pub labels: nat,
    pub vars: Seq<(Seq<char>, Register)>,
    pub shadow: InterpView,
}

pub open spec fn emit(g: GenView, i: Instr) -> GenView {
    GenView { code: g.code.push(i), ..g }
}

/// Hands out the next register; registers are numbered from one.
pub open spec fn next_reg(g: GenView) -> Option<(Register, GenView)> {
    if g.regs < u32::MAX {
        Some(((g.regs + 1) as Register, GenView { regs: g.regs + 1, ..g }))
    } else {
        None
    }
}

pub open spec fn too_many_registers() -> ErrorView {
    ErrorView::Runtime(0, "Too many registers."@)
}

pub open spec fn unsupported(line: usize) -> ErrorView {
    runtime(line, "Operator not supported by the register machine."@)
}

pub open spec fn flag_as_value(line: usize) -> ErrorView {
    runtime(line, "A comparison can only be a loop condition."@)
}

/// The name of the label with number `n`.
pub open spec fn label_name(n: nat) -> Seq<char> {
    seq!['L'] + decimal(n)
}

/// The register an operand is in, or the error for a comparison used as a
/// value.
pub open spec fn need_reg(o: Operand) -> Result<Register, ErrorView> {
    match o {
        Operand::Reg(r) => Ok(r),
        Operand::Flag(line) => Err(flag_as_value(line)),
    }
}

/// Loads a fresh register with the value of a literal.
pub open spec fn lower_literal(v: Option<Value>, g: GenView) -> Result<(Operand, GenView), ErrorView> {
    match next_reg(g) {
        None => Err(too_many_registers()),
        Some((r, g1)) => match v {
            None => Ok((Operand::Reg(r), emit(g1, Instr::LoadUndefined(r)))),
            Some(Value::String(s)) => Ok((Operand::Reg(r), emit(g1, Instr::NewString(r, s@)))),
            Some(x) => Ok((Operand::Reg(r), emit(g1, Instr::Load(r, x@)))),
        },
    }
}

pub open spec fn arith_instr(t: TokenType, d: Register, a: Register, b: Register) -> Instr {
    if t == TokenType::Plus {
        Instr::Add(d, a, b)
    } else if t == TokenType::Minus {
        Instr::Sub(d, a, b)
    } else if t == TokenType::Star {
        Instr::Mul(d, a, b)
    } else {
        Instr::Div(d, a, b)
    }
}

pub open spec fn is_arith(t: TokenType) -> bool {
    t == TokenType::Plus || t == TokenType::Minus || t == TokenType::Star || t == TokenType::Slash
}

pub open spec fn is_compare(t: TokenType) -> bool {
    t == TokenType::Less || t == TokenType::Greater || t == TokenType::LessEqual || t == TokenType::GreaterEqual
}

pub open spec fn test_instr(t: TokenType, a: Register, b: Register) -> Instr {
    if t == TokenType::Less {
        Instr::TestLessThan(a, b)
    } else if t == TokenType::Greater {
        Instr::TestGreaterThan(a, b)
    } else if t == TokenType::LessEqual {
        Instr::TestLessEqThan(a, b)
    } else {
        Instr::TestGreaterEqThan(a, b)
    }
}

/// Lowers an expression to code that leaves its value in a fresh register,
/// or, for a comparison, in the condition flag. A variable is read from the
/// machine's variable store into a fresh register, not from the register of
/// its last store: a loop body is lowered once and run many times, so the
/// register recorded when it was lowered need not hold the value the last
/// assignment made, while the store always does. `-x` becomes `0 - x`;
/// `!`, `==`, `!=`, `and` and `or` have no instruction and are refused.
pub open spec fn lower_expr(e: Expr, g: GenView) -> Result<(Operand, GenView), ErrorView>
    decreases e,
{
    match e {
        Expr::LiteralExpr(l) => lower_literal(l.value, g),
        Expr::GroupingExpr(x) => lower_expr(*x.expression, g),
        Expr::VariableExpr(v) => if lookup(g.vars, v.name.lexeme@) is None {
            Err(undefined_error(v.name))
        } else {
            match next_reg(g) {
                None => Err(too_many_registers()),
                Some((r, g1)) => Ok((Operand::Reg(r), emit(g1, Instr::GetVariable(v.name.lexeme@, r)))),
            }
        },
        Expr::AssignExpr(a) => match lower_expr(*a.value, g) {
            Err(x) => Err(x),
            Ok((o, g1)) => match need_reg(o) {
                Err(x) => Err(x),
                Ok(r) => if lookup(g1.vars, a.name.lexeme@) is None {
                    Err(undefined_error(a.name))
                } else {
                    Ok((Operand::Reg(r), GenView {
                        vars: put(g1.vars, a.name.lexeme@, r),
                        ..emit(g1, Instr::SetVariable(a.name.lexeme@, r))
                    }))
                },
            },
        },
        Expr::UnaryExpr(u) => if u.operator.type_ != TokenType::Minus {
            Err(unsupported(u.operator.line))
        } else {
            match lower_expr(*u.right, g) {
                Err(x) => Err(x),
                Ok((o, g1)) => match need_reg(o) {
                    Err(x) => Err(x),
                    Ok(r) => match next_reg(g1) {
                        None => Err(too_many_registers()),
                        Some((z, g2)) => match next_reg(g2) {
                            None => Err(too_many_registers()),
                            Some((d, g3)) => Ok((Operand::Reg(d), emit(
                                emit(g3, Instr::Load(z, Val::Number(Number::zero_spec()))),
                                Instr::Sub(d, z, r),
                            ))),
                        },
                    },
                },
            }
        },
        Expr::BinaryExpr(b) => if !is_arith(b.operator.type_) && !is_compare(b.operator.type_) {
            Err(unsupported(b.operator.line))
        } else {
            match lower_expr(*b.left, g) {
                Err(x) => Err(x),
                Ok((o1, g1)) => match need_reg(o1) {
                    Err(x) => Err(x),
                    Ok(r1) => match lower_expr(*b.right, g1) {
                        Err(x) => Err(x),
                        Ok((o2, g2)) => match need_reg(o2) {
                            Err(x) => Err(x),
                            Ok(r2) => if is_compare(b.operator.type_) {
                                Ok((Operand::Flag(b.operator.line), emit(g2, test_instr(b.operator.type_, r1, r2))))
                            } else {
                                match next_reg(g2) {
                                    None => Err(too_many_registers()),
                                    Some((d, g3)) => Ok((Operand::Reg(d), emit(g3, arith_instr(b.operator.type_, d, r1, r2)))),
                                }
                            },
                        },
                    },
                },
            }
        },
        Expr::LogicalExpr(b) => Err(unsupported(b.operator.line)),
    }
}

pub open spec fn if_in_loop() -> ErrorView {
    ErrorView::Runtime(0, "An 'if' inside a loop cannot be decided at compile time."@)
}

pub open spec fn loop_condition_error() -> ErrorView {
    ErrorView::Runtime(0, "A loop condition must be a comparison."@)
}

pub open spec fn too_many_labels() -> ErrorView {
    ErrorView::Runtime(0, "Too many labels."@)
}

/// Outside loops, the statement is also run on the interpreter state the
/// generator keeps, so that later `if` conditions are known.
pub open spec fn shadow_run(s: Stmt, g: GenView, in_loop: bool, fuel: nat) -> Result<GenView, ErrorView> {
    if in_loop {
        Ok(g)
    } else {
        let (r, sh) = exec(s, g.shadow, fuel);
        match r {
            Ok(_) => Ok(GenView { shadow: sh, ..g }),
            Err(e) => Err(e),
        }
    }
}

/// Whether an expression assigns to a variable somewhere inside it.
pub open spec fn has_assign(e: Expr) -> bool
    decreases e,
{
    match e {
        Expr::AssignExpr(_) => true,
        Expr::BinaryExpr(b) => has_assign(*b.left) || has_assign(*b.right),
        Expr::LogicalExpr(b) => has_assign(*b.left) || has_assign(*b.right),
        Expr::GroupingExpr(g) => has_assign(*g.expression),
        Expr::UnaryExpr(u) => has_assign(*u.right),
        _ => false,
    }
}

/// `b` begins with the instructions of `a`.
pub open spec fn grows(a: Seq<Instr>, b: Seq<Instr>) -> bool {
    &&& a.len() <= b.len()
    &&& forall|i: int| 0 <= i < a.len() ==> #[trigger] b[i] == a[i]
}

/// Lowers a statement. `while` becomes a label, the body, the condition and
/// a jump back while the condition holds, so the body runs once before the
/// condition is first tested; its condition must be a comparison. `if` is
/// decided at compile time from the interpreter state, and only its chosen
/// branch is lowered. Its condition is lowered too where it can be, so that
/// an assignment in it reaches the machine; where it cannot be and assigns
/// nothing, it leaves no code. Inside a loop the interpreter state differs
/// from one iteration to the next, so the branch cannot be chosen once for
/// all of them, and an `if` there is an error. Blocks share the machine's single variable store.
pub open spec fn lower_stmt(s: Stmt, g: GenView, in_loop: bool, fuel: nat) -> Result<GenView, ErrorView>
    decreases s, 0nat,
{
    match s {
        Stmt::ExpressionStmt(x) => match lower_expr(x.expression, g) {
            Err(e) => Err(e),
            Ok((_, g1)) => shadow_run(s, g1, in_loop, fuel),
        },
        Stmt::PrintStmt(x) => match lower_expr(x.expression, g) {
            Err(e) => Err(e),
            Ok((o, g1)) => match need_reg(o) {
                Err(e) => Err(e),
                Ok(r) => shadow_run(s, emit(g1, Instr::Print(r)), in_loop, fuel),
            },
        },
        Stmt::VarStmt(x) => {
            let lowered = match x.initializer {
                None => lower_literal(None, g),
                Some(init) => lower_expr(init, g),
            };
            match lowered {
                Err(e) => Err(e),
                Ok((o, g1)) => match need_reg(o) {
                    Err(e) => Err(e),
                    Ok(r) => shadow_run(s, GenView {
                        vars: put(g1.vars, x.name.lexeme@, r),
                        ..emit(g1, Instr::SetVariable(x.name.lexeme@, r))
                    }, in_loop, fuel),
                },
            }
        },
        Stmt::BlockStmt(b) => if in_loop {
            lower_list(b.statements@, 0, g, true, fuel)
        } else {
            let n = g.shadow.env.bindings.len() as int;
            let g0 = GenView { shadow: InterpView { env: EnvView { bindings: g.shadow.env.bindings, start: n }, out: g.shadow.out }, ..g };
            match lower_list(b.statements@, 0, g0, false, fuel) {
                Err(e) => Err(e),
                Ok(g1) => Ok(GenView { shadow: InterpView { env: EnvView { bindings: g1.shadow.env.bindings.take(n), start: g.shadow.env.start }, out: g1.shadow.out }, ..g1 }),
            }
        },
        Stmt::IfStmt(x) => if in_loop {
            Err(if_in_loop())
        } else {
            let lowered = match lower_expr(x.condition, g) {
                Ok((_, g1)) => Ok(g1),
                Err(e) => if has_assign(x.condition) { Err(e) } else { Ok(g) },
            };
            match lowered {
                Err(e) => Err(e),
                Ok(g1) => {
                    let (r, env1) = eval(x.condition, g1.shadow.env);
                    match r {
                        Err(e) => Err(e),
                        Ok(v) => {
                            let g2 = GenView { shadow: InterpView { env: env1, out: g1.shadow.out }, ..g1 };
                            if truthy(or_nil(v)) {
                                lower_stmt(*x.then_branch, g2, false, fuel)
                            } else {
                                match x.else_branch {
                                    Some(b) => lower_stmt(*b, g2, false, fuel),
                                    None => Ok(g2),
                                }
                            }
                        },
                    }
                },
            }
        },
        Stmt::WhileStmt(w) => if g.labels >= u64::MAX {
            Err(too_many_labels())
        } else {
            let name = label_name(g.labels + 1);
            let g1 = emit(GenView { labels: g.labels + 1, ..g }, Instr::Label(name));
            match lower_stmt(*w.body, g1, true, fuel) {
                Err(e) => Err(e),
                Ok(g2) => match lower_expr(w.condition, g2) {
                    Err(e) => Err(e),
                    Ok((o, g3)) => match o {
                        Operand::Reg(_) => Err(loop_condition_error()),
                        Operand::Flag(_) => shadow_run(s, emit(g3, Instr::JumpIfTrue(name)), in_loop, fuel),
                    },
                },
            }
        },
    }
}

/// Lowers `ss[i..]` in order.
pub open spec fn lower_list(ss: Seq<Stmt>, i: int, g: GenView, in_loop: bool, fuel: nat) -> Result<GenView, ErrorView>
    decreases ss, ss.len() - i,
{
    if i < 0 || i >= ss.len() {
        Ok(g)
    } else {
        match lower_stmt(ss[i], g, in_loop, fuel) {
            Err(e) => Err(e),
            Ok(g1) => lower_list(ss, i + 1, g1, in_loop, fuel),
        }
    }
}

fn err_at(line: usize, msg: &str) -> (r: LoxErrors)
    ensures
        r@ == runtime(line, msg@),
{
    LoxErrors::RunTimeException(Error::new(line, String::from_str(msg)))
}

pub open spec fn var_entry(p: (String, Register)) -> (Seq<char>, Register) {
    (p.0@, p.1)
}

/// Lowers a syntax tree to register machine code.
pub struct ByteCodeGenerator {
    pub bytecodes: Vec<ByteCode>,
    register_count: u32,
    label_count: u64,
    variables: Vec<(String, Register)>,
    shadow: Intrepreter,
}

impl View for ByteCodeGenerator {
    type V = GenView;

    closed spec fn view(&self) -> GenView {
        GenView {
            code: self.bytecodes@.map_values(|b: ByteCode| b@),
            regs: self.register_count as nat,
            labels: self.label_count as nat,
            vars: self.variables@.map_values(|p: (String, Register)| var_entry(p)),
            shadow: self.shadow@,
        }
    }
}

impl ByteCodeGenerator {
    pub closed spec fn wf(&self) -> bool {
        self.shadow.wf()
    }

    /// How many iterations each loop may run when the generator runs the
    /// program to decide its `if` statements.
    pub closed spec fn limit(&self) -> nat {
        self.shadow.limit()
    }

    /// A generator with no code yet, whose loops may run `limit`
    /// iterations while it decides `if` statements.
    pub fn with_loop_limit(limit: u64) -> (r: Self)
        ensures
            r.wf(),
            r.limit() == limit,
            r@.code.len() == 0,
            r@.regs == 0,
            r@.labels == 0,
            r@.vars.len() == 0,
            r@.shadow.env.bindings.len() == 0,
            r@.shadow.env.start == 0,
            r@.shadow.out.len() == 0,
    {
        ByteCodeGenerator {
            bytecodes: Vec::new(),
            register_count: 0,
            label_count: 0,
            variables: Vec::new(),
            shadow: Intrepreter::with_loop_limit(limit),
        }
    }

    fn emit_bytecode(&mut self, b: ByteCode)
        ensures
            final(self)@.vars == old(self)@.vars,
            final(self)@.labels == old(self)@.labels,
            grows(old(self)@.code, final(self)@.code),
            final(self)@.shadow == old(self)@.shadow,
            final(self)@ == emit(old(self)@, b@),
            final(self).wf() == old(self).wf(),
            final(self).limit() == old(self).limit(),
    {
        let ghost bv = b@;
        self.bytecodes.push(b);
        assert(self@.code =~= old(self)@.code.push(bv));
    }

    fn allocate_register(&mut self) -> (r: Result<Register, LoxErrors>)
        ensures
            final(self)@.vars == old(self)@.vars,
            final(self)@.labels == old(self)@.labels,
            grows(old(self)@.code, final(self)@.code),
            final(self)@.shadow == old(self)@.shadow,
            final(self).wf() == old(self).wf(),
            final(self).limit() == old(self).limit(),
            match next_reg(old(self)@) {
                Some((x, g)) => r == Ok::<Register, LoxErrors>(x) && final(self)@ == g,
                None => r matches Err(e) && e@ == too_many_registers(),
            },
    {
        if self.register_count == u32::MAX {
            return Err(err_at(0, "Too many registers."));
        }
        self.register_count = self.register_count + 1;
        Ok(self.register_count)
    }

    fn find_variable(&self, name: &String) -> (i: Option<usize>)
        ensures
            i matches Some(k) ==> k < self.variables.len(),
            opt_int(i) == last_entry(self@.vars, name@, self@.vars.len() as int),
    {
        let mut i = self.variables.len();
        while i > 0
            invariant
                i <= self.variables.len(),
                last_entry(self@.vars, name@, self@.vars.len() as int) == last_entry(self@.vars, name@, i as int),
            decreases i,
        {
            if self.variables[i - 1].0.eq(name) {
                return Some(i - 1);
            }
            i = i - 1;
        }
        None
    }

    fn record_variable(&mut self, name: &String, r: Register)
        ensures
            final(self)@.labels == old(self)@.labels,
            grows(old(self)@.code, final(self)@.code),
            final(self)@.shadow == old(self)@.shadow,
            final(self)@ == (GenView { vars: put(old(self)@.vars, name@, r), ..old(self)@ }),
            final(self).wf() == old(self).wf(),
            final(self).limit() == old(self).limit(),
    {
        match self.find_variable(name) {
            Some(i) => {
                self.variables.set(i, (name.clone(), r));
            },
            None => {
                self.variables.push((name.clone(), r));
            },
        }
        assert(self@.vars =~= put(old(self)@.vars, name@, r));
    }

    fn lower_literal_exec(&mut self, v: &Option<Value>) -> (r: Result<Operand, LoxErrors>)
        ensures
            final(self)@.vars == old(self)@.vars,
            final(self)@.labels == old(self)@.labels,
            grows(old(self)@.code, final(self)@.code),
            final(self)@.shadow == old(self)@.shadow,
            final(self).wf() == old(self).wf(),
            final(self).limit() == old(self).limit(),
            match lower_literal(*v, old(self)@) {
                Ok((o, g)) => r == Ok::<Operand, LoxErrors>(o) && final(self)@ == g,
                Err(x) => r matches Err(y) && y@ == x,
            },
    {
        let r = self.allocate_register()?;
        match v {
            None => self.emit_bytecode(ByteCode::LoadUndefined(r)),
            Some(Value::String(s)) => self.emit_bytecode(ByteCode::NewString(r, s.clone())),
            Some(x) => self.emit_bytecode(ByteCode::Load(r, x.duplicate())),
        }
        Ok(Operand::Reg(r))
    }

    fn evaluate(&mut self, e: &Expr) -> (r: Result<Operand, LoxErrors>)
        ensures
            final(self)@.labels == old(self)@.labels,
            grows(old(self)@.code, final(self)@.code),
            !has_assign(*e) ==> final(self)@.vars == old(self)@.vars,
            final(self)@.shadow == old(self)@.shadow,
            final(self).wf() == old(self).wf(),
            final(self).limit() == old(self).limit(),
            match lower_expr(*e, old(self)@) {
                Ok((o, g)) => r == Ok::<Operand, LoxErrors>(o) && final(self)@ == g,
                Err(x) => r matches Err(y) && y@ == x,
            },
        decreases e,
    {
        match e {
            Expr::LiteralExpr(l) => self.lower_literal_exec(&l.value),
            Expr::GroupingExpr(x) => self.evaluate(&x.expression),
            Expr::VariableExpr(v) => {
                if self.find_variable(&v.name.lexeme).is_none() {
                    return Err(undefined(&v.name));
                }
                let r = self.allocate_register()?;
                self.emit_bytecode(ByteCode::GetVariable(v.name.lexeme.clone(), r));
                Ok(Operand::Reg(r))
            },
            Expr::AssignExpr(a) => {
                let o = self.evaluate(&a.value)?;
                let r = match o {
                    Operand::Reg(r) => r,
                    Operand::Flag(line) => return Err(err_at(line, "A comparison can only be a loop condition.")),
                };
                if self.find_variable(&a.name.lexeme).is_none() {
                    return Err(undefined(&a.name));
                }
                self.emit_bytecode(ByteCode::SetVariable(a.name.lexeme.clone(), r));
                self.record_variable(&a.name.lexeme, r);
                Ok(Operand::Reg(r))
            },
            Expr::UnaryExpr(u) => {
                if u.operator.type_ != TokenType::Minus {
                    return Err(err_at(u.operator.line, "Operator not supported by the register machine."));
                }
                let o = self.evaluate(&u.right)?;
                let r = match o {
                    Operand::Reg(r) => r,
                    Operand::Flag(line) => return Err(err_at(line, "A comparison can only be a loop condition.")),
                };
                let z = self.allocate_register()?;
                let d = self.allocate_register()?;
                self.emit_bytecode(ByteCode::Load(z, Value::Number(Number::zero())));
                self.emit_bytecode(ByteCode::Sub(d, z, r));
                Ok(Operand::Reg(d))
            },
            Expr::BinaryExpr(b) => {
                let t = b.operator.type_;
                let arith = t == TokenType::Plus || t == TokenType::Minus || t == TokenType::Star || t == TokenType::Slash;
                let compare = t == TokenType::Less || t == TokenType::Greater || t == TokenType::LessEqual || t == TokenType::GreaterEqual;
                if !arith && !compare {
                    return Err(err_at(b.operator.line, "Operator not supported by the register machine."));
                }
                let o1 = self.evaluate(&b.left)?;
                let r1 = match o1 {
                    Operand::Reg(r) => r,
                    Operand::Flag(line) => return Err(err_at(line, "A comparison can only be a loop condition.")),
                };
                let o2 = self.evaluate(&b.right)?;
                let r2 = match o2 {
                    Operand::Reg(r) => r,
                    Operand::Flag(line) => return Err(err_at(line, "A comparison can only be a loop condition.")),
                };
                if compare {
                    let i = if t == TokenType::Less {
                        ByteCode::TestLessThan(r1, r2)
                    } else if t == TokenType::Greater {
                        ByteCode::TestGreaterThan(r1, r2)
                    } else if t == TokenType::LessEqual {
                        ByteCode::TestLessEqThan(r1, r2)
                    } else {
                        ByteCode::TestGreaterEqThan(r1, r2)
                    };
                    self.emit_bytecode(i);
                    Ok(Operand::Flag(b.operator.line))
                } else {
                    let d = self.allocate_register()?;
                    let i = if t == TokenType::Plus {
                        ByteCode::Add(d, r1, r2)
                    } else if t == TokenType::Minus {
                        ByteCode::Sub(d, r1, r2)
                    } else if t == TokenType::Star {
                        ByteCode::Mul(d, r1, r2)
                    } else {
                        ByteCode::Div(d, r1, r2)
                    };
                    self.emit_bytecode(i);
                    Ok(Operand::Reg(d))
                }
            },
            Expr::LogicalExpr(b) => Err(err_at(b.operator.line, "Operator not supported by the register machine.")),
        }
    }

    fn shadow_exec(&mut self, s: &Stmt, in_loop: bool) -> (r: Result<(), LoxErrors>)
        requires
            old(self).wf(),
        ensures
            r is Ok ==> final(self)@.shadow.env.bindings.len() >= old(self)@.shadow.env.bindings.len(),
            r is Ok ==> final(self)@.shadow.env.start == old(self)@.shadow.env.start,
            final(self).wf(),
            final(self).limit() == old(self).limit(),
            match shadow_run(*s, old(self)@, in_loop, old(self).limit()) {
                Ok(g) => r is Ok && final(self)@ == g,
                Err(x) => r matches Err(y) && y@ == x,
            },
    {
        if in_loop {
            return Ok(());
        }
        let fuel = self.shadow.loop_limit();
        self.shadow.execute(s, fuel)
    }

    fn execute(&mut self, s: &Stmt, in_loop: bool) -> (r: Result<(), LoxErrors>)
        requires
            old(self).wf(),
        ensures
            r is Ok ==> final(self)@.shadow.env.bindings.len() >= old(self)@.shadow.env.bindings.len(),
            r is Ok ==> final(self)@.shadow.env.start == old(self)@.shadow.env.start,
            final(self).wf(),
            final(self).limit() == old(self).limit(),
            match lower_stmt(*s, old(self)@, in_loop, old(self).limit()) {
                Ok(g) => r is Ok && final(self)@ == g,
                Err(x) => r matches Err(y) && y@ == x,
            },
        decreases s, 0nat,
    {
        match s {
            Stmt::ExpressionStmt(x) => {
                self.evaluate(&x.expression)?;
                self.shadow_exec(s, in_loop)
            },
            Stmt::PrintStmt(x) => {
                let o = self.evaluate(&x.expression)?;
                let r = match o {
                    Operand::Reg(r) => r,
                    Operand::Flag(line) => return Err(err_at(line, "A comparison can only be a loop condition.")),
                };
                self.emit_bytecode(ByteCode::Print(r));
                self.shadow_exec(s, in_loop)
            },
            Stmt::VarStmt(x) => {
                let o = match &x.initializer {
                    None => self.lower_literal_exec(&None)?,
                    Some(init) => self.evaluate(init)?,
                };
                let r = match o {
                    Operand::Reg(r) => r,
                    Operand::Flag(line) => return Err(err_at(line, "A comparison can only be a loop condition.")),
                };
                self.emit_bytecode(ByteCode::SetVariable(x.name.lexeme.clone(), r));
                self.record_variable(&x.name.lexeme, r);
                self.shadow_exec(s, in_loop)
            },
            Stmt::BlockStmt(b) => {
                if in_loop {
                    self.execute_block(&b.statements, true)
                } else {
                    let saved = self.shadow.enter_scope();
                    self.execute_block(&b.statements, false)?;
                    self.shadow.exit_scope(saved);
                    Ok(())
                }
            },
            Stmt::IfStmt(x) => {
                if in_loop {
                    return Err(err_at(0, "An 'if' inside a loop cannot be decided at compile time."));
                }
                let saved_code = self.bytecodes.len();
                let saved_regs = self.register_count;
                match self.evaluate(&x.condition) {
                    Ok(_) => {},
                    Err(e) => {
                        if assigns(&x.condition) {
                            return Err(e);
                        }
                        let ghost mid = self.bytecodes@;
                        assert(grows(old(self)@.code, self@.code));
                        self.bytecodes.truncate(saved_code);
                        self.register_count = saved_regs;
                        assert forall|i: int| 0 <= i < saved_code implies #[trigger] self@.code[i] == old(self)@.code[i] by {
                            assert(self.bytecodes@[i] == mid[i]);
                            assert(mid.map_values(|b: ByteCode| b@)[i] == old(self)@.code[i]);
                        }
                        assert(self@.code =~= old(self)@.code);
                    },
                }
                let v = self.shadow.evaluate(&x.condition)?;
                let t = match &v {
                    Some(v) => v.is_truthy(),
                    None => false,
                };
                if t {
                    self.execute(&x.then_branch, false)
                } else {
                    match &x.else_branch {
                        Some(b) => self.execute(b, false),
                        None => Ok(()),
                    }
                }
            },
            Stmt::WhileStmt(w) => {
                if self.label_count == u64::MAX {
                    return Err(err_at(0, "Too many labels."));
                }
                self.label_count = self.label_count + 1;
                let name = label_string(self.label_count);
                self.emit_bytecode(ByteCode::Label(name.clone()));
                self.execute(&w.body, true)?;
                let o = self.evaluate(&w.condition)?;
                match o {
                    Operand::Reg(_) => return Err(err_at(0, "A loop condition must be a comparison.")),
                    Operand::Flag(_) => {},
                }
                self.emit_bytecode(ByteCode::JumpIfTrue(name));
                self.shadow_exec(s, in_loop)
            },
        }
    }

    fn execute_block(&mut self, ss: &Vec<Stmt>, in_loop: bool) -> (r: Result<(), LoxErrors>)
        requires
            old(self).wf(),
        ensures
            r is Ok ==> final(self)@.shadow.env.bindings.len() >= old(self)@.shadow.env.bindings.len(),
            r is Ok ==> final(self)@.shadow.env.start == old(self)@.shadow.env.start,
            final(self).wf(),
            final(self).limit() == old(self).limit(),
            match lower_list(ss@, 0, old(self)@, in_loop, old(self).limit()) {
                Ok(g) => r is Ok && final(self)@ == g,
                Err(x) => r matches Err(y) && y@ == x,
            },
        decreases ss, 0nat,
    {
        let mut i: usize = 0;
        while i < ss.len()
            invariant
                0 <= i <= ss.len(),
                self.wf(),
                self.limit() == old(self).limit(),
                self@.shadow.env.bindings.len() >= old(self)@.shadow.env.bindings.len(),
                self@.shadow.env.start == old(self)@.shadow.env.start,
                lower_list(ss@, 0, old(self)@, in_loop, old(self).limit())
                    == lower_list(ss@, i as int, self@, in_loop, old(self).limit()),
            decreases ss.len() - i,
        {
            self.execute(&ss[i], in_loop)?;
            i = i + 1;
        }
        Ok(())
    }

    /// Lowers the statements in order, appending their code to `bytecodes`.
    pub fn intrepret(&mut self, statements: &Vec<Stmt>) -> (r: Result<(), LoxErrors>)
        requires
            old(self).wf(),
        ensures
            final(self).wf(),
            final(self).limit() == old(self).limit(),
            match lower_list(statements@, 0, old(self)@, false, old(self).limit()) {
                Ok(g) => r is Ok && final(self)@ == g,
                Err(x) => r matches Err(y) && y@ == x,
            },
    {
        self.execute_block(statements, false)
    }

    /// The code generated so far.
    pub fn into_bytecodes(self) -> (r: Vec<ByteCode>)
        ensures
            r@.map_values(|b: ByteCode| b@) == self@.code,
    {
        self.bytecodes
    }
}

impl Default for ByteCodeGenerator {
    /// A generator with no code yet and no practical limit on loop
    /// iterations.
    fn default() -> (r: Self)
        ensures
            r.wf(),
            r.limit() == u64::MAX,
            r@.code.len() == 0,
            r@.regs == 0,
            r@.labels == 0,
            r@.vars.len() == 0,
            r@.shadow.env.bindings.len() == 0,
            r@.shadow.env.start == 0,
            r@.shadow.out.len() == 0,
    {
        ByteCodeGenerator::with_loop_limit(u64::MAX)
    }
}

/// The generator state that lowering starts from.
pub open spec fn initial_gen() -> GenView {
    GenView {
        code: Seq::empty(),
        regs: 0,
        labels: 0,
        vars: Seq::empty(),
        shadow: InterpView { env: EnvView { bindings: Seq::empty(), start: 0 }, out: Seq::empty() },
    }
}

/// Lowers a whole program to register machine code.
pub fn compile(statements: &Vec<Stmt>) -> (r: Result<Vec<ByteCode>, LoxErrors>)
    ensures
        match lower_list(statements@, 0, initial_gen(), false, u64::MAX as nat) {
            Ok(g) => r matches Ok(code) && code@.map_values(|b: ByteCode| b@) == g.code,
            Err(x) => r matches Err(y) && y@ == x,
        },
{
    let mut g = ByteCodeGenerator::default();
    assert(g@.code =~= initial_gen().code);
    assert(g@.vars =~= initial_gen().vars);
    assert(g@.shadow.env.bindings =~= initial_gen().shadow.env.bindings);
    assert(g@.shadow.out =~= initial_gen().shadow.out);
    assert(g@ == initial_gen());
    g.intrepret(statements)?;
    Ok(g.into_bytecodes())
}

fn assigns(e: &Expr) -> (r: bool)
    ensures
        r == has_assign(*e),
    decreases e,
{
    match e {
        Expr::AssignExpr(_) => true,
        Expr::BinaryExpr(b) => assigns(&b.left) || assigns(&b.right),
        Expr::LogicalExpr(b) => assigns(&b.left) || assigns(&b.right),
        Expr::GroupingExpr(g) => assigns(&g.expression),
        Expr::UnaryExpr(u) => assigns(&u.right),
        _ => false,
    }
}

fn label_string(n: u64) -> (r: String)
    ensures
        r@ == label_name(n as nat),
{
    let mut s = String::new();
    push_char(&mut s, 'L');
    push_decimal(&mut s, n);
    assert(s@ =~= label_name(n as nat));
    s
}


} // verus!
