//! A small dynamically typed scripting language: a scanner, a recursive
//! descent parser, a tree-walking interpreter and a register machine that
//! runs the code lowered from the same syntax tree.
use vstd::prelude::*;

pub mod agreement;
pub mod ast;
pub mod ast_printer;
pub mod environment;
pub mod error;
pub mod generator;
pub mod interpreter;
pub mod number;
pub mod parser;
pub mod scanner;
pub mod text;
pub mod token;
pub mod token_type;
pub mod value;
pub mod vm;

verus! {

use crate::ast::{stmts_model, Stmt};
use crate::error::{Error, LoxErrors};
use crate::generator::{compile, initial_gen, lower_list, Instr};
use crate::interpreter::{exec_list, unit_res, Intrepreter};
use crate::parser::{parse_all, Parser};
use crate::scanner::{err_view, scan, tok_views, Scanner};
use crate::token::Token;
use crate::vm::{run as run_machine, ByteCode, Status, Vm, VmView};

pub open spec fn errors_view(v: Seq<Error>) -> Seq<(int, Seq<char>)> {
    v.map_values(|e: Error| err_view(e))
}

/// Scans, parses and runs `source` on the interpreter, whose scopes and
/// output carry over from earlier runs. What the scanner reports is added
/// to `reported`; it does not stop the run. A parse error leaves the
/// interpreter as it was.
pub fn run(source: String, intrepreter: &mut Intrepreter, reported: &mut Vec<Error>) -> (r: Result<(), LoxErrors>)
    requires
        old(intrepreter).wf(),
        source@.len() < usize::MAX,
    ensures
        final(intrepreter).wf(),
        errors_view(final(reported)@) == errors_view(old(reported)@) + scan(source@).1,
        exists|toks: Seq<Token>| #[trigger] tok_views(toks) == scan(source@).0
            && match parse_all(toks, 0, Seq::empty()) {
                Err(e) => r matches Err(y) && y@ == e && final(intrepreter)@ == old(intrepreter)@,
                Ok(ss) => exists|stmts: Seq<Stmt>| #[trigger] stmts_model(stmts, stmts.len() as int) == ss
                    && unit_res(r) == exec_list(stmts, 0, old(intrepreter)@, old(intrepreter).limit()).0
                    && final(intrepreter)@ == exec_list(stmts, 0, old(intrepreter)@, old(intrepreter).limit()).1,
            },
{
    let mut scanner = Scanner::new(source);
    let tokens = scanner.scan_tokens();
    scanner.take_errors(reported);
    let mut parser = Parser::new(&tokens);
    let parsed = parser.parse();
    match parsed {
        Err(e) => {
            assert(tok_views(tokens@) == scan(source@).0);
            Err(e)
        },
        Ok(statements) => {
            let r = intrepreter.intrepret(&statements);
            assert(stmts_model(statements@, statements@.len() as int) == parse_all(tokens@, 0, Seq::empty())->Ok_0);
            assert(tok_views(tokens@) == scan(source@).0);
            r
        },
    }
}

/// The state a machine starts in.
pub open spec fn initial_vm() -> VmView {
    VmView {
        regs: Seq::empty(),
        vars: Seq::empty(),
        labels: Seq::empty(),
        pc: 0,
        flag: false,
        out: Seq::empty(),
        status: Status::Running,
    }
}

pub open spec fn code_views(p: Seq<ByteCode>) -> Seq<Instr> {
    p.map_values(|b: ByteCode| b@)
}

/// What running a program for at most `n` steps hands back: the printed
/// lines once it has stopped, its error if it failed, and the loop limit
/// error if it was still running.
pub open spec fn machine_outcome(prog: Seq<ByteCode>, n: nat) -> Result<Seq<Seq<char>>, crate::error::ErrorView> {
    let fin = run_machine(prog, initial_vm(), n);
    match fin.status {
        Status::Failed(e) => Err(e),
        Status::Halted => Ok(fin.out),
        Status::Running => Err(crate::error::ErrorView::LoopLimit),
    }
}

/// Scans, parses and lowers `source`, then runs the code on a fresh register
/// machine for at most `max_steps` steps; returns the printed lines. What
/// the scanner reports is added to `reported`.
pub fn run_vm(source: String, max_steps: u64, reported: &mut Vec<Error>) -> (r: Result<Vec<String>, LoxErrors>)
    requires
        source@.len() < usize::MAX,
    ensures
        errors_view(final(reported)@) == errors_view(old(reported)@) + scan(source@).1,
        exists|toks: Seq<Token>| #[trigger] tok_views(toks) == scan(source@).0
            && match parse_all(toks, 0, Seq::empty()) {
                Err(e) => r matches Err(y) && y@ == e,
                Ok(ss) => exists|stmts: Seq<Stmt>| #[trigger] stmts_model(stmts, stmts.len() as int) == ss
                    && match lower_list(stmts, 0, initial_gen(), false, u64::MAX as nat) {
                        Err(e) => r matches Err(y) && y@ == e,
                        Ok(g) => exists|prog: Seq<ByteCode>| #[trigger] code_views(prog) == g.code
                            && match machine_outcome(prog, max_steps as nat) {
                                Err(e) => r matches Err(y) && y@ == e,
                                Ok(out) => r matches Ok(lines) && lines@.map_values(|l: String| l@) == out,
                            },
                    },
            },
{
    let mut scanner = Scanner::new(source);
    let tokens = scanner.scan_tokens();
    scanner.take_errors(reported);
    assert(tok_views(tokens@) == scan(source@).0);
    let mut parser = Parser::new(&tokens);
    let statements = parser.parse()?;
    assert(stmts_model(statements@, statements@.len() as int) == parse_all(tokens@, 0, Seq::empty())->Ok_0);
    let code = compile(&statements)?;
    let ghost prog = code@;
    assert(code_views(prog) == lower_list(statements@, 0, initial_gen(), false, u64::MAX as nat)->Ok_0.code);
    let mut vm = Vm::new(code);
    assert(vm@.regs =~= initial_vm().regs);
    assert(vm@.vars =~= initial_vm().vars);
    assert(vm@.labels =~= initial_vm().labels);
    assert(vm@.out =~= initial_vm().out);
    assert(vm@ == initial_vm());
    vm.interpret(max_steps);
    if vm.is_running() {
        return Err(LoxErrors::LoopLimit);
    }
    match vm.failure() {
        Some(e) => Err(e.clone_error()),
        None => {
            let mut out: Vec<String> = Vec::new();
            let lines = vm.output();
            let mut i: usize = 0;
            while i < lines.len()
                invariant
                    i <= lines@.len(),
                    out@.len() == i,
                    forall|j: int| 0 <= j < i ==> #[trigger] out@[j]@ == lines@[j]@,
                decreases lines.len() - i,
            {
                out.push(lines[i].clone());
                i = i + 1;
            }
            assert(out@.map_values(|l: String| l@) =~= lines@.map_values(|l: String| l@));
            Ok(out)
        },
    }
}

} // verus!
