use vstd::prelude::*;
use crate::error::{Error, ErrorView, LoxErrors};
use crate::number::{div_spec, less_value, mul_spec, sub_spec, Number};
use crate::value::{machine_add, opt_view, val_text, Val, Value};

verus! {

/// A register of the machine.
pub type Register = u32;

/// One instruction of the register machine.
#[derive(Debug)]
pub enum ByteCode {
    Return,
    LoadUndefined(Register),
    NewString(Register, String),
    /// `Add(dst, src1, src2)`; the other arithmetic instructions alike.
    Add(Register, Register, Register),
    Mul(Register, Register, Register),
    Sub(Register, Register, Register),
    Div(Register, Register, Register),
    SetVariable(String, Register),
    GetVariable(String, Register),
    Load(Register, Value),
    JumpIfTrue(String),
    TestLessThan(Register, Register),
    TestGreaterThan(Register, Register),
    TestLessEqThan(Register, Register),
    TestGreaterEqThan(Register, Register),
    Label(String),
    Print(Register),
}

/// A jump target: its name and the index of the instruction after it.
#[derive(Clone, Debug)]
pub struct Label {
    pub name: String,
    pub address: usize,
}

impl Label {
    pub fn new(name: String, address: usize) -> (r: Self)
        ensures
            r.name == name,
            r.address == address,
    {
        Self { name, address }
    }

    pub fn get_name(&self) -> (r: &str)
        ensures
            r@ == self.name@,
    {
        self.name.as_str()
    }

    pub fn get_address(&self) -> (r: usize)
        ensures
            r == self.address,
    {
        self.address
    }
}

/// Whether the machine may go on, has stopped, or has failed.
pub enum Status {
    Running,
    Halted,
    Failed(ErrorView),
}

/// The machine's state. Registers, variables and labels are lists of
/// entries in which the last entry for a key counts.
pub struct VmView {
    pub regs: Seq<(Register, Option<Val>)>,
    pub vars: Seq<(Seq<char>, Option<Val>)>,
    pub labels: Seq<(Seq<char>, int)>,
    pub pc: int,
    pub flag: bool,
    pub out: Seq<Seq<char>>,
    pub status: Status,
}

/// The index of the last entry for `k` in `s[..hi]`.
pub open spec fn last_entry<K, V>(s: Seq<(K, V)>, k: K, hi: int) -> Option<int>
    decreases hi,
{
    if hi <= 0 {
        None
    } else if s[hi - 1].0 == k {
        Some(hi - 1)
    } else {
        last_entry(s, k, hi - 1)
    }
}

/// Sets the entry for `k` to `v`: the last entry for it is replaced, or a
/// new one is added.
pub open spec fn put<K, V>(s: Seq<(K, V)>, k: K, v: V) -> Seq<(K, V)> {
    match last_entry(s, k, s.len() as int) {
        Some(i) => s.update(i, (k, v)),
        None => s.push((k, v)),
    }
}

/// What is recorded for `k`, if anything.
pub open spec fn lookup<K, V>(s: Seq<(K, V)>, k: K) -> Option<V> {
    match last_entry(s, k, s.len() as int) {
        Some(i) => Some(s[i].1),
        None => None,
    }
}

/// What a register holds; a register never written holds nothing.
pub open spec fn reg(st: VmView, r: Register) -> Option<Val> {
    match lookup(st.regs, r) {
        Some(v) => v,
        None => None,
    }
}

pub open spec fn machine_error(m: Seq<char>) -> ErrorView {
    ErrorView::Runtime(0, m)
}

/// The machine's arithmetic: what the instruction with opcode `op` (0 add,
/// 1 subtract, 2 multiply, 3 divide) yields on two register contents.
pub open spec fn arith_spec(op: int, a: Option<Val>, b: Option<Val>) -> Result<Val, ErrorView> {
    let x = match a { Some(v) => v, None => Val::Nil };
    let y = match b { Some(v) => v, None => Val::Nil };
    if op == 0 {
        match machine_add(x, y) {
            Some(v) => Ok(v),
            None => Err(machine_error("Cannot add these values."@)),
        }
    } else {
        match (x, y) {
            (Val::Number(m), Val::Number(n)) => {
                let r = if op == 1 { sub_spec(m, n) } else if op == 2 { mul_spec(m, n) } else { div_spec(m, n) };
                match r {
                    Some(z) => Ok(Val::Number(z)),
                    None => Err(machine_error("Arithmetic failed."@)),
                }
            },
            _ => Err(machine_error("Operands must be numbers"@)),
        }
    }
}

/// The comparison with code `op` (0 `<`, 1 `>`, 2 `<=`, 3 `>=`); it holds
/// only between two numbers.
pub open spec fn compare_spec(op: int, a: Option<Val>, b: Option<Val>) -> bool {
    match (a, b) {
        (Some(Val::Number(m)), Some(Val::Number(n))) => if op == 0 {
            less_value(m, n)
        } else if op == 1 {
            less_value(n, m)
        } else if op == 2 {
            !less_value(n, m)
        } else {
            !less_value(m, n)
        },
        _ => false,
    }
}

pub open spec fn advance(st: VmView) -> VmView {
    VmView { pc: st.pc + 1, ..st }
}

pub open spec fn write_reg(st: VmView, r: Register, v: Option<Val>) -> VmView {
    VmView { regs: put(st.regs, r, v), pc: st.pc + 1, ..st }
}

pub open spec fn arith_step(st: VmView, op: int, d: Register, a: Register, b: Register) -> VmView {
    match arith_spec(op, reg(st, a), reg(st, b)) {
        Ok(v) => write_reg(st, d, Some(v)),
        Err(e) => VmView { status: Status::Failed(e), ..st },
    }
}

pub open spec fn test_step(st: VmView, op: int, a: Register, b: Register) -> VmView {
    VmView { flag: compare_spec(op, reg(st, a), reg(st, b)), pc: st.pc + 1, ..st }
}

/// One step of the machine on `prog`: running past the end halts it.
/// Reading a variable that was never set leaves the register as it was;
/// jumping to a label not yet passed is an error.
pub open spec fn step(prog: Seq<ByteCode>, st: VmView) -> VmView {
    if st.pc < 0 || st.pc >= prog.len() {
        VmView { status: Status::Halted, ..st }
    } else {
        match prog[st.pc] {
            ByteCode::Return => VmView { status: Status::Halted, ..st },
            ByteCode::LoadUndefined(r) => write_reg(st, r, None),
            ByteCode::NewString(r, s) => write_reg(st, r, Some(Val::Str(s@))),
            ByteCode::Load(r, v) => write_reg(st, r, Some(v@)),
            ByteCode::Add(d, a, b) => arith_step(st, 0, d, a, b),
            ByteCode::Sub(d, a, b) => arith_step(st, 1, d, a, b),
            ByteCode::Mul(d, a, b) => arith_step(st, 2, d, a, b),
            ByteCode::Div(d, a, b) => arith_step(st, 3, d, a, b),
            ByteCode::SetVariable(name, r) => VmView { vars: put(st.vars, name@, reg(st, r)), pc: st.pc + 1, ..st },
            ByteCode::GetVariable(name, r) => match lookup(st.vars, name@) {
                Some(v) => write_reg(st, r, v),
                None => advance(st),
            },
            ByteCode::TestLessThan(a, b) => test_step(st, 0, a, b),
            ByteCode::TestGreaterThan(a, b) => test_step(st, 1, a, b),
            ByteCode::TestLessEqThan(a, b) => test_step(st, 2, a, b),
            ByteCode::TestGreaterEqThan(a, b) => test_step(st, 3, a, b),
            ByteCode::Label(name) => VmView { labels: put(st.labels, name@, st.pc + 1), pc: st.pc + 1, ..st },
            ByteCode::JumpIfTrue(name) => if !st.flag {
                advance(st)
            } else {
                match lookup(st.labels, name@) {
                    Some(a) => VmView { pc: a, ..st },
                    None => VmView { status: Status::Failed(machine_error("Unknown label."@)), ..st },
                }
            },
            ByteCode::Print(r) => {
                let v = match reg(st, r) { Some(x) => x, None => Val::Nil };
                VmView { out: st.out.push(val_text(v)), pc: st.pc + 1, ..st }
            },
        }
    }
}

/// At most `n` steps, stopping once the machine no longer runs.
pub open spec fn run(prog: Seq<ByteCode>, st: VmView, n: nat) -> VmView
    decreases n,
{
    if n == 0 || !(st.status is Running) {
        st
    } else {
        run(prog, step(prog, st), (n - 1) as nat)
    }
}

pub open spec fn reg_entry(p: (Register, Option<Value>)) -> (Register, Option<Val>) {
    (p.0, opt_view(p.1))
}

pub open spec fn var_entry(p: (String, Option<Value>)) -> (Seq<char>, Option<Val>) {
    (p.0@, opt_view(p.1))
}

pub open spec fn label_entry(l: Label) -> (Seq<char>, int) {
    (l.name@, l.address as int)
}

pub open spec fn opt_res(r: Result<Value, LoxErrors>) -> Result<Val, ErrorView> {
    match r {
        Ok(v) => Ok(v@),
        Err(e) => Err(e@),
    }
}

fn machine_err(msg: &str) -> (r: LoxErrors)
    ensures
        r@ == machine_error(msg@),
{
    LoxErrors::RunTimeException(Error::new(0, String::from_str(msg)))
}

fn or_nil_ref(v: &Option<Value>) -> (r: Value)
    ensures
        r@ == match opt_view(*v) { Some(x) => x, None => Val::Nil },
{
    match v {
        Some(x) => x.duplicate(),
        None => Value::Nil,
    }
}

fn arith_exec(op: u8, a: &Option<Value>, b: &Option<Value>) -> (r: Result<Value, LoxErrors>)
    requires
        op < 4,
    ensures
        opt_res(r) == arith_spec(op as int, opt_view(*a), opt_view(*b)),
{
    let x = or_nil_ref(a);
    let y = or_nil_ref(b);
    if op == 0 {
        match x.machine_add(&y) {
            Some(v) => Ok(v),
            None => Err(machine_err("Cannot add these values.")),
        }
    } else {
        match (&x, &y) {
            (Value::Number(m), Value::Number(n)) => {
                let r = if op == 1 { m.checked_sub(n) } else if op == 2 { m.checked_mul(n) } else { m.checked_div(n) };
                match r {
                    Some(z) => Ok(Value::Number(z)),
                    None => Err(machine_err("Arithmetic failed.")),
                }
            },
            _ => Err(machine_err("Operands must be numbers")),
        }
    }
}

fn compare_exec(op: u8, a: &Option<Value>, b: &Option<Value>) -> (r: bool)
    ensures
        r == compare_spec(op as int, opt_view(*a), opt_view(*b)),
{
    match (a, b) {
        (Some(Value::Number(m)), Some(Value::Number(n))) => if op == 0 {
            m.less(n)
        } else if op == 1 {
            n.less(m)
        } else if op == 2 {
            !n.less(m)
        } else {
            !m.less(n)
        },
        _ => false,
    }
}

fn copy_opt(v: &Option<Value>) -> (r: Option<Value>)
    ensures
        opt_view(r) == opt_view(*v),
{
    match v {
        Some(x) => Some(x.duplicate()),
        None => None,
    }
}

/// The register machine.
pub struct Vm {
    registers: Vec<(Register, Option<Value>)>,
    variables: Vec<(String, Option<Value>)>,
    labels: Vec<Label>,
    pc: usize,
    flag: bool,
    program: Vec<ByteCode>,
    output: Vec<String>,
    halted: bool,
    failure: Option<LoxErrors>,
}

impl View for Vm {
    type V = VmView;

    closed spec fn view(&self) -> VmView {
        VmView {
            regs: self.registers@.map_values(|p: (Register, Option<Value>)| reg_entry(p)),
            vars: self.variables@.map_values(|p: (String, Option<Value>)| var_entry(p)),
            labels: self.labels@.map_values(|l: Label| label_entry(l)),
            pc: self.pc as int,
            flag: self.flag,
            out: self.output@.map_values(|s: String| s@),
            status: match self.failure {
                Some(e) => Status::Failed(e@),
                None => if self.halted { Status::Halted } else { Status::Running },
            },
        }
    }
}

impl Vm {
    /// The instructions the machine runs.
    pub closed spec fn program(&self) -> Seq<ByteCode> {
        self.program@
    }

    /// A machine about to run `bytecodes` from the first instruction.
    pub fn new(bytecodes: Vec<ByteCode>) -> (r: Self)
        ensures
            r.program() == bytecodes@,
            r@.regs.len() == 0,
            r@.vars.len() == 0,
            r@.labels.len() == 0,
            r@.pc == 0,
            !r@.flag,
            r@.out.len() == 0,
            r@.status is Running,
    {
        Vm {
            registers: Vec::new(),
            variables: Vec::new(),
            labels: Vec::new(),
            pc: 0,
            flag: false,
            program: bytecodes,
            output: Vec::new(),
            halted: false,
            failure: None,
        }
    }

    /// The lines printed so far.
    pub fn output(&self) -> (r: &Vec<String>)
        ensures
            r@.map_values(|s: String| s@) == self@.out,
    {
        &self.output
    }

    /// Whether the machine can take another step.
    pub fn is_running(&self) -> (r: bool)
        ensures
            r == (self@.status is Running),
    {
        self.failure.is_none() && !self.halted
    }

    /// The error the machine stopped with, if it failed.
    pub fn failure(&self) -> (r: &Option<LoxErrors>)
        ensures
            r.is_some() == (self@.status is Failed),
            self@.status matches Status::Failed(e) ==> r.unwrap()@ == e,
    {
        &self.failure
    }

    fn find_register(&self, r: Register) -> (i: Option<usize>)
        ensures
            i matches Some(k) ==> k < self.registers.len(),
            opt_int(i) == last_entry(self@.regs, r, self@.regs.len() as int),
    {
        let mut i = self.registers.len();
        while i > 0
            invariant
                i <= self.registers.len(),
                last_entry(self@.regs, r, self@.regs.len() as int) == last_entry(self@.regs, r, i as int),
            decreases i,
        {
            if self.registers[i - 1].0 == r {
                return Some(i - 1);
            }
            i = i - 1;
        }
        None
    }

    fn find_variable(&self, name: &String) -> (i: Option<usize>)
        ensures
            i matches Some(k) ==> k < self.variables.len(),
            opt_int(i) == last_entry(self@.vars, name@, self@.vars.len() as int),
    {
        let mut i = self.variables.len();
        while i > 0
            invariant
                i <= self.variables.len(),
                last_entry(self@.vars, name@, self@.vars.len() as int) == last_entry(self@.vars, name@, i as int),
            decreases i,
        {
            if self.variables[i - 1].0.eq(name) {
                return Some(i - 1);
            }
            i = i - 1;
        }
        None
    }

    fn find_label(&self, name: &String) -> (i: Option<usize>)
        ensures
            i matches Some(k) ==> k < self.labels.len(),
            opt_int(i) == last_entry(self@.labels, name@, self@.labels.len() as int),
    {
        let mut i = self.labels.len();
        while i > 0
            invariant
                i <= self.labels.len(),
                last_entry(self@.labels, name@, self@.labels.len() as int) == last_entry(self@.labels, name@, i as int),
            decreases i,
        {
            if self.labels[i - 1].name.eq(name) {
                return Some(i - 1);
            }
            i = i - 1;
        }
        None
    }

    fn read_register(&self, r: Register) -> (v: Option<Value>)
        ensures
            opt_view(v) == reg(self@, r),
    {
        match self.find_register(r) {
            Some(i) => copy_opt(&self.registers[i].1),
            None => None,
        }
    }

    fn write_register(&mut self, r: Register, v: Option<Value>)
        ensures
            final(self)@ == (VmView { regs: put(old(self)@.regs, r, opt_view(v)), ..old(self)@ }),
            final(self).program() == old(self).program(),
    {
        let ghost nv = opt_view(v);
        match self.find_register(r) {
            Some(i) => {
                self.registers.set(i, (r, v));
            },
            None => {
                self.registers.push((r, v));
            },
        }
        assert(self@.regs =~= put(old(self)@.regs, r, nv));
    }

    fn set_variable(&mut self, name: String, v: Option<Value>)
        ensures
            final(self)@ == (VmView { vars: put(old(self)@.vars, name@, opt_view(v)), ..old(self)@ }),
            final(self).program() == old(self).program(),
    {
        let ghost nv = opt_view(v);
        let ghost key = name@;
        match self.find_variable(&name) {
            Some(i) => {
                self.variables.set(i, (name, v));
            },
            None => {
                self.variables.push((name, v));
            },
        }
        assert(self@.vars =~= put(old(self)@.vars, key, nv));
    }

    fn write_label(&mut self, name: String, address: usize)
        ensures
            final(self)@ == (VmView { labels: put(old(self)@.labels, name@, address as int), ..old(self)@ }),
            final(self).program() == old(self).program(),
    {
        let ghost key = name@;
        let l = Label::new(name, address);
        match self.find_label(&l.name) {
            Some(i) => {
                self.labels.set(i, l);
            },
            None => {
                self.labels.push(l);
            },
        }
        assert(self@.labels =~= put(old(self)@.labels, key, address as int));
    }

    fn arith(&mut self, op: u8, d: Register, a: Register, b: Register, next: usize)
        requires
            op < 4,
            next == old(self)@.pc + 1,
            old(self)@.status is Running,
        ensures
            final(self)@ == arith_step(old(self)@, op as int, d, a, b),
            final(self).program() == old(self).program(),
    {
        let x = self.read_register(a);
        let y = self.read_register(b);
        match arith_exec(op, &x, &y) {
            Ok(v) => {
                self.write_register(d, Some(v));
                self.pc = next;
            },
            Err(e) => {
                self.failure = Some(e);
            },
        }
    }

    fn test(&mut self, op: u8, a: Register, b: Register, next: usize)
        requires
            next == old(self)@.pc + 1,
        ensures
            final(self)@ == test_step(old(self)@, op as int, a, b),
            final(self).program() == old(self).program(),
    {
        let x = self.read_register(a);
        let y = self.read_register(b);
        self.flag = compare_exec(op, &x, &y);
        self.pc = next;
    }

    /// Runs one instruction.
    pub fn step(&mut self)
        requires
            old(self)@.status is Running,
        ensures
            final(self)@ == step(old(self).program(), old(self)@),
            final(self).program() == old(self).program(),
    {
        if self.pc >= self.program.len() {
            self.halted = true;
            return;
        }
        let pc = self.pc;
        match &self.program[pc] {
            ByteCode::Return => {
                self.halted = true;
            },
            ByteCode::LoadUndefined(r) => {
                let r = *r;
                self.write_register(r, None);
                self.pc = pc + 1;
            },
            ByteCode::NewString(r, s) => {
                let r = *r;
                let v = Value::String(s.clone());
                self.write_register(r, Some(v));
                self.pc = pc + 1;
            },
            ByteCode::Load(r, v) => {
                let r = *r;
                let v = v.duplicate();
                self.write_register(r, Some(v));
                self.pc = pc + 1;
            },
            ByteCode::Add(d, a, b) => {
                let (d, a, b) = (*d, *a, *b);
                self.arith(0, d, a, b, pc + 1);
            },
            ByteCode::Sub(d, a, b) => {
                let (d, a, b) = (*d, *a, *b);
                self.arith(1, d, a, b, pc + 1);
            },
            ByteCode::Mul(d, a, b) => {
                let (d, a, b) = (*d, *a, *b);
                self.arith(2, d, a, b, pc + 1);
            },
            ByteCode::Div(d, a, b) => {
                let (d, a, b) = (*d, *a, *b);
                self.arith(3, d, a, b, pc + 1);
            },
            ByteCode::SetVariable(name, r) => {
                let name = name.clone();
                let v = self.read_register(*r);
                self.set_variable(name, v);
                self.pc = pc + 1;
            },
            ByteCode::GetVariable(name, r) => {
                let r = *r;
                match self.find_variable(name) {
                    Some(i) => {
                        let v = copy_opt(&self.variables[i].1);
                        self.write_register(r, v);
                    },
                    None => {},
                }
                self.pc = pc + 1;
            },
            ByteCode::TestLessThan(a, b) => {
                let (a, b) = (*a, *b);
                self.test(0, a, b, pc + 1);
            },
            ByteCode::TestGreaterThan(a, b) => {
                let (a, b) = (*a, *b);
                self.test(1, a, b, pc + 1);
            },
            ByteCode::TestLessEqThan(a, b) => {
                let (a, b) = (*a, *b);
                self.test(2, a, b, pc + 1);
            },
            ByteCode::TestGreaterEqThan(a, b) => {
                let (a, b) = (*a, *b);
                self.test(3, a, b, pc + 1);
            },
            ByteCode::Label(name) => {
                let name = name.clone();
                self.write_label(name, pc + 1);
                self.pc = pc + 1;
            },
            ByteCode::JumpIfTrue(name) => {
                if !self.flag {
                    self.pc = pc + 1;
                } else {
                    match self.find_label(name) {
                        Some(i) => {
                            self.pc = self.labels[i].address;
                        },
                        None => {
                            self.failure = Some(machine_err("Unknown label."));
                        },
                    }
                }
            },
            ByteCode::Print(r) => {
                let v = self.read_register(*r);
                let text = or_nil_ref(&v).to_text();
                self.output.push(text);
                assert(self@.out =~= old(self)@.out.push(text@));
                self.pc = pc + 1;
            },
        }
    }

    /// Runs at most `max_steps` instructions, stopping early when the program
    /// returns, runs past its end, or fails.
    pub fn interpret(&mut self, max_steps: u64)
        ensures
            final(self)@ == run(old(self).program(), old(self)@, max_steps as nat),
            final(self).program() == old(self).program(),
    {
        let mut n = max_steps;
        while n > 0 && self.is_running()
            invariant
                self.program() == old(self).program(),
                run(old(self).program(), old(self)@, max_steps as nat) == run(self.program(), self@, n as nat),
            decreases n,
        {
            self.step();
            n = n - 1;
        }
    }
}

pub open spec fn opt_int(i: Option<usize>) -> Option<int> {
    match i {
        Some(k) => Some(k as int),
        None => None,
    }
}

} // verus!
