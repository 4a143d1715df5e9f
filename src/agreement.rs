use vstd::prelude::*;
use crate::ast::{Expr, Stmt};
use crate::environment::EnvView;
use crate::generator::{initial_gen, lower_list, lower_stmt};
use crate::interpreter::{exec, exec_list, InterpView};
use crate::{code_views, initial_vm, machine_outcome};
use crate::environment::{find, Binding};
use crate::generator::{is_arith, lower_expr, GenView, Instr, Operand};
use crate::interpreter::{binary_spec, eval, or_nil};
use crate::token::Token;
use crate::token_type::TokenType;
use crate::value::Val;
use crate::vm::{arith_spec, last_entry, lookup, put, reg, run, step, Register, VmView, ByteCode};

verus! {

proof fn lemma_find_is_last_entry(b: Seq<Binding>, name: Seq<char>, hi: int)
    requires
        hi <= b.len(),
    ensures
        find(b, name, 0, hi) == last_entry(b, name, hi),
    decreases hi,
{
    if hi > 0 {
        lemma_find_is_last_entry(b, name, hi - 1);
    }
}

proof fn lemma_last_entry_push<K, V>(s: Seq<(K, V)>, x: (K, V), k: K, hi: int)
    requires
        hi <= s.len(),
    ensures
        last_entry(s.push(x), k, hi) == last_entry(s, k, hi),
    decreases hi,
{
    if hi > 0 {
        lemma_last_entry_push(s, x, k, hi - 1);
    }
}

proof fn lemma_last_entry_update<K, V>(s: Seq<(K, V)>, i: int, v: V, k: K, hi: int)
    requires
        0 <= i < s.len(),
        hi <= s.len(),
    ensures
        last_entry(s.update(i, (s[i].0, v)), k, hi) == last_entry(s, k, hi),
    decreases hi,
{
    if hi > 0 {
        lemma_last_entry_update(s, i, v, k, hi - 1);
    }
}

proof fn lemma_last_entry_bound<K, V>(s: Seq<(K, V)>, k: K, hi: int)
    ensures
        last_entry(s, k, hi) matches Some(i) ==> 0 <= i < hi && s[i].0 == k,
    decreases hi,
{
    if hi > 0 {
        lemma_last_entry_bound(s, k, hi - 1);
    }
}

/// What `put` does to lookups: the key put gets the new value, every other
/// key keeps its own.
proof fn lemma_lookup_put<K, V>(s: Seq<(K, V)>, k: K, v: V, q: K)
    ensures
        lookup(put(s, k, v), q) == if q == k { Some(v) } else { lookup(s, q) },
{
    lemma_last_entry_bound(s, k, s.len() as int);
    lemma_last_entry_bound(s, q, s.len() as int);
    match last_entry(s, k, s.len() as int) {
        Some(i) => {
            let t = s.update(i, (k, v));
            assert(put(s, k, v) == t);
            assert(t == s.update(i, (s[i].0, v)));
            lemma_last_entry_update(s, i, v, q, s.len() as int);
            assert(last_entry(t, q, t.len() as int) == last_entry(s, q, s.len() as int));
            if q == k {
                assert(last_entry(t, q, t.len() as int) == Some(i));
                assert(t[i].1 == v);
            } else {
                match last_entry(s, q, s.len() as int) {
                    Some(j) => {
                        assert(j != i);
                        assert(t[j] == s[j]);
                    },
                    None => {},
                }
            }
        },
        None => {
            let t = s.push((k, v));
            assert(put(s, k, v) == t);
            lemma_last_entry_push(s, (k, v), q, s.len() as int);
            assert(t[s.len() as int] == (k, v));
            assert(last_entry(t, q, t.len() as int) == if t[t.len() - 1].0 == q { Some(t.len() - 1) } else { last_entry(t, q, t.len() - 1) });
            if q != k {
                lemma_last_entry_bound(s, q, s.len() as int);
                match last_entry(s, q, s.len() as int) {
                    Some(j) => {
                        assert(t[j] == s[j]);
                    },
                    None => {},
                }
            }
        },
    }
}

/// Running `a` steps and then `b` more is running `a + b` steps.
proof fn lemma_run_split(prog: Seq<ByteCode>, st: VmView, a: nat, b: nat)
    ensures
        run(prog, st, a + b) == run(prog, run(prog, st, a), b),
    decreases a,
{
    if a > 0 && st.status is Running {
        lemma_run_split(prog, step(prog, st), (a - 1) as nat, b);
        assert((a + b - 1) as nat == ((a - 1) as nat + b) as nat);
    } else if a == 0 {
    } else {
        lemma_run_stopped(prog, st, b);
        lemma_run_stopped(prog, st, a + b);
    }
}

proof fn lemma_run_stopped(prog: Seq<ByteCode>, st: VmView, n: nat)
    requires
        !(st.status is Running),
    ensures
        run(prog, st, n) == st,
{
}

/// Expressions built from literals, variables, groupings, the four
/// arithmetic operators and assignments.
pub open spec fn arith_expr(e: Expr) -> bool
    decreases e,
{
    match e {
        Expr::LiteralExpr(_) => true,
        Expr::VariableExpr(_) => true,
        Expr::GroupingExpr(g) => arith_expr(*g.expression),
        Expr::BinaryExpr(b) => is_arith(b.operator.type_) && arith_expr(*b.left) && arith_expr(*b.right),
        Expr::AssignExpr(a) => arith_expr(*a.value),
        _ => false,
    }
}

/// The first `code.len()` instructions of `prog` are `code`.
pub open spec fn code_matches(prog: Seq<ByteCode>, code: Seq<Instr>) -> bool {
    &&& code.len() <= prog.len()
    &&& forall|i: int| 0 <= i < code.len() ==> #[trigger] prog[i]@ == code[i]
}

pub open spec fn extends(a: Seq<Instr>, b: Seq<Instr>) -> bool {
    b.len() <= a.len() && a.subrange(0, b.len() as int) == b
}

proof fn lemma_extends_trans(a: Seq<Instr>, b: Seq<Instr>, c: Seq<Instr>)
    requires
        extends(a, b),
        extends(b, c),
    ensures
        extends(a, c),
{
    assert(a.subrange(0, c.len() as int) =~= b.subrange(0, c.len() as int));
}

proof fn lemma_matches_prefix(prog: Seq<ByteCode>, a: Seq<Instr>, b: Seq<Instr>)
    requires
        code_matches(prog, a),
        extends(a, b),
    ensures
        code_matches(prog, b),
{
    assert forall|i: int| 0 <= i < b.len() implies #[trigger] prog[i]@ == b[i] by {
        assert(a.subrange(0, b.len() as int)[i] == a[i]);
    }
}

/// Lowering an arithmetic expression only appends code and hands out
/// registers; it leaves everything else of the generator as it was.
proof fn lemma_lower_shape(e: Expr, g: GenView)
    requires
        arith_expr(e),
        lower_expr(e, g) is Ok,
    ensures
        ({
            let (o, g2) = lower_expr(e, g)->Ok_0;
            &&& extends(g2.code, g.code)
            &&& g2.code.len() > g.code.len()
            &&& g2.shadow == g.shadow
            &&& g2.labels == g.labels
            &&& g2.regs >= g.regs
            &&& o matches Operand::Reg(r) && g.regs < r <= g2.regs
        }),
    decreases e,
{
    match e {
        Expr::GroupingExpr(x) => {
            lemma_lower_shape(*x.expression, g);
        },
        Expr::BinaryExpr(b) => {
            lemma_lower_shape(*b.left, g);
            let (o1, g1) = lower_expr(*b.left, g)->Ok_0;
            lemma_lower_shape(*b.right, g1);
            let (o2, g2) = lower_expr(*b.right, g1)->Ok_0;
            lemma_extends_trans(g2.code, g1.code, g.code);
            let (o, g4) = lower_expr(e, g)->Ok_0;
            assert(g4.code.subrange(0, g2.code.len() as int) =~= g2.code);
            lemma_extends_trans(g4.code, g2.code, g.code);
        },
        Expr::AssignExpr(a) => {
            lemma_lower_shape(*a.value, g);
            let (o1, g1) = lower_expr(*a.value, g)->Ok_0;
            let (o, g2) = lower_expr(e, g)->Ok_0;
            assert(g2.code.subrange(0, g1.code.len() as int) =~= g1.code);
            lemma_extends_trans(g2.code, g1.code, g.code);
        },
        _ => {
            let (o, g2) = lower_expr(e, g)->Ok_0;
            assert(g2.code.subrange(0, g.code.len() as int) =~= g.code);
        },
    }
}

/// The machine opcode that an arithmetic operator is lowered to.
pub open spec fn opcode(t: TokenType) -> int {
    if t == TokenType::Plus { 0 } else if t == TokenType::Minus { 1 } else if t == TokenType::Star { 2 } else { 3 }
}

/// Where the interpreter's arithmetic succeeds, the machine's gives the same
/// value.
proof fn lemma_arith_agrees(op: Token, a: Option<Val>, b: Option<Val>)
    requires
        is_arith(op.type_),
        binary_spec(op, or_nil(a), or_nil(b)) is Ok,
    ensures
        arith_spec(opcode(op.type_), a, b) == binary_spec(op, or_nil(a), or_nil(b)),
{
}

proof fn lemma_one_step(prog: Seq<ByteCode>, st: VmView)
    requires
        st.status is Running,
    ensures
        run(prog, st, 1) == step(prog, st),
{
    assert(run(prog, step(prog, st), 0) == step(prog, st));
}

/// Running the code lowered from an arithmetic expression in a machine
/// whose variables are the bindings of `env` leaves the value the
/// interpreter computes in `env` in the result register, the variables the
/// bindings it leaves, and the registers handed out before as they were.
proof fn lemma_expr_sim(prog: Seq<ByteCode>, e: Expr, g: GenView, st: VmView, env: EnvView)
    requires
        arith_expr(e),
        lower_expr(e, g) is Ok,
        eval(e, env).0 is Ok,
        st.status is Running,
        st.pc == g.code.len(),
        st.vars == env.bindings,
        code_matches(prog, lower_expr(e, g)->Ok_0.1.code),
    ensures
        ({
            let (o, g2) = lower_expr(e, g)->Ok_0;
            let st2 = run(prog, st, (g2.code.len() - g.code.len()) as nat);
            &&& o matches Operand::Reg(r) && reg(st2, r) == eval(e, env).0->Ok_0
            &&& eval(e, env).1.start == env.start
            &&& st2.status is Running
            &&& st2.pc == g2.code.len()
            &&& st2.vars == eval(e, env).1.bindings
            &&& st2.out == st.out
            &&& forall|q: Register| q <= g.regs ==> #[trigger] reg(st2, q) == reg(st, q)
        }),
    decreases e,
{
    lemma_lower_shape(e, g);
    let (o, g2) = lower_expr(e, g)->Ok_0;
    match e {
        Expr::GroupingExpr(x) => {
            lemma_expr_sim(prog, *x.expression, g, st, env);
        },
        Expr::LiteralExpr(l) => {
            let r = o->Reg_0;
            lemma_one_step(prog, st);
            assert(prog[st.pc]@ == g2.code[st.pc]);
            let st2 = step(prog, st);
            let val = crate::value::opt_view(l.value);
            assert(st2.regs == put(st.regs, r, val));
            assert forall|q: Register| q <= g.regs implies #[trigger] reg(st2, q) == reg(st, q) by {
                lemma_lookup_put(st.regs, r, val, q);
            }
            lemma_lookup_put(st.regs, r, val, r);
        },
        Expr::VariableExpr(v) => {
            let r = o->Reg_0;
            lemma_one_step(prog, st);
            assert(prog[st.pc]@ == g2.code[st.pc]);
            lemma_find_is_last_entry(st.vars, v.name.lexeme@, st.vars.len() as int);
            let x = lookup(st.vars, v.name.lexeme@)->Some_0;
            let st2 = step(prog, st);
            assert forall|q: Register| q <= g.regs implies #[trigger] reg(st2, q) == reg(st, q) by {
                lemma_lookup_put(st.regs, r, x, q);
            }
            lemma_lookup_put(st.regs, r, x, r);
        },
        Expr::AssignExpr(a) => {
            lemma_lower_shape(*a.value, g);
            let (o1, g1) = lower_expr(*a.value, g)->Ok_0;
            let r = o1->Reg_0;
            assert(g2.code.subrange(0, g1.code.len() as int) =~= g1.code);
            lemma_matches_prefix(prog, g2.code, g1.code);
            lemma_expr_sim(prog, *a.value, g, st, env);
            let k1 = (g1.code.len() - g.code.len()) as nat;
            let st1 = run(prog, st, k1);
            let env1 = eval(*a.value, env).1;
            lemma_run_split(prog, st, k1, 1);
            lemma_one_step(prog, st1);
            assert(prog[st1.pc]@ == g2.code[st1.pc]);
            lemma_find_is_last_entry(env1.bindings, a.name.lexeme@, env1.bindings.len() as int);
            let st2 = step(prog, st1);
            assert(st2.regs == st1.regs);
            assert forall|q: Register| q <= g.regs implies #[trigger] reg(st2, q) == reg(st, q) by {
                assert(reg(st1, q) == reg(st, q));
            }
            assert(reg(st2, r) == reg(st1, r));
        },
        Expr::BinaryExpr(b) => {
            lemma_lower_shape(*b.left, g);
            let (o1, g1) = lower_expr(*b.left, g)->Ok_0;
            lemma_lower_shape(*b.right, g1);
            let (o2, g2r) = lower_expr(*b.right, g1)->Ok_0;
            let r1 = o1->Reg_0;
            let r2 = o2->Reg_0;
            let d = (g2r.regs + 1) as Register;
            assert(extends(g2.code, g2r.code)) by {
                assert(g2.code.subrange(0, g2r.code.len() as int) =~= g2r.code);
            }
            lemma_matches_prefix(prog, g2.code, g2r.code);
            lemma_matches_prefix(prog, g2r.code, g1.code);
            lemma_expr_sim(prog, *b.left, g, st, env);
            let env1 = eval(*b.left, env).1;
            let k1 = (g1.code.len() - g.code.len()) as nat;
            let st1 = run(prog, st, k1);
            lemma_expr_sim(prog, *b.right, g1, st1, env1);
            let k2 = (g2r.code.len() - g1.code.len()) as nat;
            let st2 = run(prog, st1, k2);
            lemma_run_split(prog, st, k1, k2);
            lemma_run_split(prog, st, k1 + k2, 1);
            lemma_one_step(prog, st2);
            assert(prog[st2.pc]@ == g2.code[st2.pc]);
            let v1 = eval(*b.left, env).0->Ok_0;
            let v2 = eval(*b.right, env1).0->Ok_0;
            assert(reg(st2, r1) == v1);
            lemma_arith_agrees(b.operator, v1, v2);
            let v = binary_spec(b.operator, or_nil(v1), or_nil(v2))->Ok_0;
            let st3 = step(prog, st2);
            assert(st3 == crate::vm::arith_step(st2, opcode(b.operator.type_), d, r1, r2));
            assert forall|q: Register| q <= g.regs implies #[trigger] reg(st3, q) == reg(st, q) by {
                lemma_lookup_put(st2.regs, d, Some(v), q);
                assert(q <= g1.regs);
                assert(reg(st2, q) == reg(st1, q));
                assert(reg(st1, q) == reg(st, q));
            }
            lemma_lookup_put(st2.regs, d, Some(v), d);
            assert((k1 + k2 + 1) as nat == (g2.code.len() - g.code.len()) as nat);
        },
        _ => {},
    }
}

/// The expression a declaration stores: its initializer, or a literal with
/// no value.
pub open spec fn declared_expr(init: Option<Expr>) -> Expr {
    match init {
        Some(e) => e,
        None => Expr::LiteralExpr(crate::ast::LiteralExpr { value: None }),
    }
}

/// Statements without control flow over arithmetic expressions: a
/// declaration, a print, or an expression statement.
pub open spec fn straight_stmt(s: Stmt) -> bool {
    match s {
        Stmt::VarStmt(x) => x.initializer is None || arith_expr(x.initializer->Some_0),
        Stmt::PrintStmt(x) => arith_expr(x.expression),
        Stmt::ExpressionStmt(x) => arith_expr(x.expression),
        _ => false,
    }
}

pub open spec fn straight_program(p: Seq<Stmt>) -> bool {
    forall|j: int| 0 <= j < p.len() ==> straight_stmt(#[trigger] p[j])
}

/// The machine state `st` stands where the code of `g` ends, with the
/// variables and output of the interpreter state `g` keeps.
pub open spec fn in_step(g: GenView, st: VmView) -> bool {
    &&& st.status is Running
    &&& st.pc == g.code.len()
    &&& st.vars == g.shadow.env.bindings
    &&& g.shadow.env.start == 0
    &&& st.out == g.shadow.out
}

proof fn lemma_stmt_shape(s: Stmt, g: GenView, fuel: nat)
    requires
        straight_stmt(s),
        lower_stmt(s, g, false, fuel) is Ok,
    ensures
        extends(lower_stmt(s, g, false, fuel)->Ok_0.code, g.code),
{
    let g2 = lower_stmt(s, g, false, fuel)->Ok_0;
    match s {
        Stmt::VarStmt(x) => {
            let e = declared_expr(x.initializer);
            lemma_lower_shape(e, g);
            let g1 = lower_expr(e, g)->Ok_0.1;
            assert(g2.code.subrange(0, g1.code.len() as int) =~= g1.code);
            lemma_extends_trans(g2.code, g1.code, g.code);
        },
        Stmt::PrintStmt(x) => {
            lemma_lower_shape(x.expression, g);
            let g1 = lower_expr(x.expression, g)->Ok_0.1;
            assert(g2.code.subrange(0, g1.code.len() as int) =~= g1.code);
            lemma_extends_trans(g2.code, g1.code, g.code);
        },
        Stmt::ExpressionStmt(x) => {
            lemma_lower_shape(x.expression, g);
        },
        _ => {},
    }
}

proof fn lemma_list_shape(p: Seq<Stmt>, i: int, g: GenView, fuel: nat)
    requires
        straight_program(p),
        0 <= i <= p.len(),
        lower_list(p, i, g, false, fuel) is Ok,
    ensures
        extends(lower_list(p, i, g, false, fuel)->Ok_0.code, g.code),
    decreases p.len() - i,
{
    if i < p.len() {
        lemma_stmt_shape(p[i], g, fuel);
        let g1 = lower_stmt(p[i], g, false, fuel)->Ok_0;
        lemma_list_shape(p, i + 1, g1, fuel);
        lemma_extends_trans(lower_list(p, i, g, false, fuel)->Ok_0.code, g1.code, g.code);
    } else {
        assert(g.code.subrange(0, g.code.len() as int) =~= g.code);
    }
}

#[verifier::rlimit(60)]
proof fn lemma_stmt_sim(prog: Seq<ByteCode>, s: Stmt, g: GenView, st: VmView, fuel: nat)
    requires
        straight_stmt(s),
        lower_stmt(s, g, false, fuel) is Ok,
        in_step(g, st),
        code_matches(prog, lower_stmt(s, g, false, fuel)->Ok_0.code),
    ensures
        ({
            let g2 = lower_stmt(s, g, false, fuel)->Ok_0;
            &&& in_step(g2, run(prog, st, (g2.code.len() - g.code.len()) as nat))
            &&& exec(s, g.shadow, fuel) == (Ok::<(), crate::error::ErrorView>(()), g2.shadow)
        }),
{
    let g2 = lower_stmt(s, g, false, fuel)->Ok_0;
    lemma_stmt_shape(s, g, fuel);
    let e = match s {
        Stmt::VarStmt(x) => declared_expr(x.initializer),
        Stmt::PrintStmt(x) => x.expression,
        Stmt::ExpressionStmt(x) => x.expression,
        _ => s->ExpressionStmt_0.expression,
    };
    lemma_lower_shape(e, g);
    let (o, g1) = lower_expr(e, g)->Ok_0;
    let r = o->Reg_0;
    assert(g2.code.subrange(0, g1.code.len() as int) =~= g1.code);
    lemma_matches_prefix(prog, g2.code, g1.code);
    lemma_expr_sim(prog, e, g, st, g.shadow.env);
    let k1 = (g1.code.len() - g.code.len()) as nat;
    let st1 = run(prog, st, k1);
    let v = eval(e, g.shadow.env).0->Ok_0;
    let env1 = eval(e, g.shadow.env).1;
    assert(st1.vars == env1.bindings);
    match s {
        Stmt::ExpressionStmt(x) => {
            assert(exec(s, g.shadow, fuel).1.env == env1);
            assert(g2.shadow.env == env1);
            assert(g2.code.len() == g1.code.len());
        },
        Stmt::VarStmt(x) => {
            lemma_run_split(prog, st, k1, 1);
            lemma_one_step(prog, st1);
            assert(prog[st1.pc]@ == g2.code[st1.pc]);
            lemma_find_is_last_entry(env1.bindings, x.name.lexeme@, env1.bindings.len() as int);
        },
        Stmt::PrintStmt(x) => {
            lemma_run_split(prog, st, k1, 1);
            lemma_one_step(prog, st1);
            assert(prog[st1.pc]@ == g2.code[st1.pc]);
        },
        _ => {},
    }
}

proof fn lemma_list_sim(prog: Seq<ByteCode>, p: Seq<Stmt>, i: int, g: GenView, st: VmView, fuel: nat)
    requires
        straight_program(p),
        0 <= i <= p.len(),
        lower_list(p, i, g, false, fuel) is Ok,
        in_step(g, st),
        code_matches(prog, lower_list(p, i, g, false, fuel)->Ok_0.code),
    ensures
        ({
            let g2 = lower_list(p, i, g, false, fuel)->Ok_0;
            &&& in_step(g2, run(prog, st, (g2.code.len() - g.code.len()) as nat))
            &&& exec_list(p, i, g.shadow, fuel) == (Ok::<(), crate::error::ErrorView>(()), g2.shadow)
        }),
    decreases p.len() - i,
{
    if i < p.len() {
        let g1 = lower_stmt(p[i], g, false, fuel)->Ok_0;
        let g2 = lower_list(p, i, g, false, fuel)->Ok_0;
        lemma_list_shape(p, i + 1, g1, fuel);
        lemma_stmt_shape(p[i], g, fuel);
        lemma_matches_prefix(prog, g2.code, g1.code);
        lemma_stmt_sim(prog, p[i], g, st, fuel);
        let k1 = (g1.code.len() - g.code.len()) as nat;
        let st1 = run(prog, st, k1);
        lemma_list_sim(prog, p, i + 1, g1, st1, fuel);
        let k2 = (g2.code.len() - g1.code.len()) as nat;
        lemma_run_split(prog, st, k1, k2);
    }
}

/// The interpreter state a run starts from.
pub open spec fn initial_interp() -> InterpView {
    InterpView { env: EnvView { bindings: Seq::empty(), start: 0 }, out: Seq::empty() }
}

/// The two ways of running a program agree. For a program of declarations,
/// prints and expression statements over literals, variables, groupings,
/// `+ - * /` and assignments, whose lowering succeeds
/// (lowering fails exactly where the interpreter would, or when registers
/// run out): the interpreter runs it without error, and the register
/// machine, given a step more than the code is long, halts having printed
/// exactly the lines the interpreter prints.
pub proof fn lemma_paths_agree(p: Seq<Stmt>, prog: Seq<ByteCode>, n: nat)
    requires
        straight_program(p),
        lower_list(p, 0, initial_gen(), false, u64::MAX as nat) is Ok,
        code_views(prog) == lower_list(p, 0, initial_gen(), false, u64::MAX as nat)->Ok_0.code,
        n > prog.len(),
    ensures
        exec_list(p, 0, initial_interp(), u64::MAX as nat).0 is Ok,
        machine_outcome(prog, n) == Ok::<Seq<Seq<char>>, crate::error::ErrorView>(exec_list(p, 0, initial_interp(), u64::MAX as nat).1.out),
{
    let fuel = u64::MAX as nat;
    let g0 = initial_gen();
    let g = lower_list(p, 0, g0, false, fuel)->Ok_0;
    assert(g0.shadow == initial_interp());
    assert(code_matches(prog, g.code)) by {
        assert forall|i: int| 0 <= i < g.code.len() implies #[trigger] prog[i]@ == g.code[i] by {
            assert(code_views(prog)[i] == prog[i]@);
        }
    }
    let st0 = initial_vm();
    assert(in_step(g0, st0));
    lemma_list_sim(prog, p, 0, g0, st0, fuel);
    let len = prog.len() as nat;
    let st1 = run(prog, st0, len);
    assert(len == (g.code.len() - g0.code.len()) as nat);
    lemma_run_split(prog, st0, len, (n - len) as nat);
    lemma_one_step(prog, st1);
    lemma_run_split(prog, st1, 1, (n - len - 1) as nat);
    let st2 = step(prog, st1);
    lemma_run_stopped(prog, st2, (n - len - 1) as nat);
}

} // verus!
