use lox::ast::{BinaryExpr, Expr, GroupingExpr, LiteralExpr, UnaryExpr};
use lox::ast_printer::AstPrinter;
use lox::error::{Error, LoxErrors};
use lox::generator::compile;
use lox::interpreter::Intrepreter;
use lox::number::Number;
use lox::parser::Parser;
use lox::scanner::Scanner;
use lox::token::Token;
use lox::token_type::TokenType;
use lox::value::Value;
use lox::vm::{ByteCode, Vm};
use lox::{run, run_vm};

fn kinds(source: &str) -> Vec<TokenType> {
    let mut scanner = Scanner::new(source.to_string());
    scanner.scan_tokens().iter().map(|t| t.type_).collect()
}

fn output_of(source: &str) -> (Result<(), LoxErrors>, Vec<String>) {
    let mut terp = Intrepreter::default();
    let r = run(source.to_string(), &mut terp, &mut Vec::new());
    (r, terp.take_output())
}

fn runtime_error(r: Result<(), LoxErrors>) -> Error {
    match r {
        Err(LoxErrors::RunTimeException(e)) => e,
        other => panic!("expected a runtime error, got {:?}", other),
    }
}

fn parse_error(source: &str) -> Error {
    let mut scanner = Scanner::new(source.to_string());
    let tokens = scanner.scan_tokens();
    let mut parser = Parser::new(&tokens);
    match parser.parse() {
        Err(LoxErrors::ParseError(e)) => e,
        other => panic!("expected a parse error, got {:?}", other),
    }
}

#[test]
fn single_lexemes_scan_to_one_token() {
    let cases: Vec<(&str, TokenType)> = vec![
        ("(", TokenType::LeftParen),
        (")", TokenType::RightParen),
        ("{", TokenType::LeftBrace),
        ("}", TokenType::RightBrace),
        (",", TokenType::Comma),
        (".", TokenType::Dot),
        ("-", TokenType::Minus),
        ("+", TokenType::Plus),
        (";", TokenType::Semicolon),
        ("/", TokenType::Slash),
        ("*", TokenType::Star),
        ("!", TokenType::Bang),
        ("=", TokenType::Equal),
        ("==", TokenType::EqualEqual),
        ("!=", TokenType::BangEqual),
        (">", TokenType::Greater),
        (">=", TokenType::GreaterEqual),
        ("<", TokenType::Less),
        ("<=", TokenType::LessEqual),
        ("name_1", TokenType::Identifier),
        ("\"text\"", TokenType::String),
        ("12.5", TokenType::Number),
        ("and", TokenType::And),
        ("class", TokenType::Class),
        ("else", TokenType::Else),
        ("false", TokenType::False),
        ("fun", TokenType::Fun),
        ("for", TokenType::For),
        ("if", TokenType::If),
        ("nil", TokenType::Nil),
        ("or", TokenType::Or),
        ("print", TokenType::Print),
        ("return", TokenType::Return),
        ("super", TokenType::Super),
        ("this", TokenType::This),
        ("true", TokenType::True),
        ("var", TokenType::Var),
        ("while", TokenType::While),
    ];
    for (text, kind) in cases {
        assert_eq!(kinds(text), vec![kind, TokenType::Eof], "lexeme {}", text);
    }
    assert_eq!(kinds(""), vec![TokenType::Eof]);
    let mut scanner = Scanner::new("12.5".to_string());
    let tokens = scanner.scan_tokens();
    assert_eq!(tokens[0].lexeme, "12.5");
    assert_eq!(tokens[0].line, 1);
    assert_eq!(tokens[1].lexeme, "");
    assert_eq!(tokens[1].line, 1);
}

#[test]
fn literals_carry_their_values() {
    let mut scanner = Scanner::new("\"hi\" 45.67".to_string());
    let tokens = scanner.scan_tokens();
    assert_eq!(tokens[0].literal, Some(Value::String("hi".to_string())));
    assert_eq!(tokens[0].lexeme, "\"hi\"");
    assert_eq!(tokens[1].literal, Some(Value::Number(Number::ratio(4567, 100).unwrap())));
}

#[test]
fn comments_and_lines() {
    let mut scanner = Scanner::new("// note\nvar\n\n x".to_string());
    let tokens = scanner.scan_tokens();
    assert_eq!(tokens.len(), 3);
    assert_eq!(tokens[0].type_, TokenType::Var);
    assert_eq!(tokens[0].line, 2);
    assert_eq!(tokens[1].line, 4);
    assert_eq!(tokens[2].type_, TokenType::Eof);
}

#[test]
fn unterminated_string_still_ends_with_eof() {
    let mut scanner = Scanner::new("print \"abc".to_string());
    let tokens = scanner.scan_tokens();
    assert_eq!(tokens.len(), 2);
    assert_eq!(tokens[1].type_, TokenType::Eof);
    assert_eq!(scanner.errors().len(), 1);
    assert_eq!(scanner.errors()[0].message, "Unterminated string.");
}

#[test]
fn unexpected_character_is_reported() {
    let mut scanner = Scanner::new("@ 1".to_string());
    let tokens = scanner.scan_tokens();
    assert_eq!(tokens.len(), 2);
    assert_eq!(scanner.errors()[0].message, "Unexpected character.");
}

#[test]
fn multiplication_binds_tighter() {
    let (r, out) = output_of("print 1 + 2 * 3;");
    assert!(r.is_ok());
    assert_eq!(out, vec!["7"]);
}

#[test]
fn string_concatenation_and_mixed_error() {
    let (r, out) = output_of("print \"a\" + \"b\";");
    assert!(r.is_ok());
    assert_eq!(out, vec!["ab"]);
    let (r, _) = output_of("print \"a\" + 1;");
    let e = runtime_error(r);
    assert_eq!(e.line, 1);
    assert_eq!(e.message, "Operands must be two numbers or two string");
}

#[test]
fn block_shadowing() {
    let (r, out) = output_of("var x = 4; { var x = x + 1; print x; } print x;");
    assert!(r.is_ok());
    assert_eq!(out, vec!["5", "4"]);
}

#[test]
fn while_loop_counts() {
    let (r, out) = output_of("var i = 0; while (i < 3) { print i; i = i + 1; }");
    assert!(r.is_ok());
    assert_eq!(out, vec!["0", "1", "2"]);
}

#[test]
fn undefined_variable() {
    let (r, _) = output_of("\n\nprint y;");
    let e = runtime_error(r);
    assert_eq!(e.line, 3);
    assert_eq!(e.message, "Undefined variable y .");
    let (r, _) = output_of("y = 1;");
    assert_eq!(runtime_error(r).message, "Undefined variable y .");
}

#[test]
fn both_paths_agree() {
    let source = "var a = 1; var b = 2; print (a + b) * 3;";
    let (r, out) = output_of(source);
    assert!(r.is_ok());
    assert_eq!(out, vec!["9"]);
    let vm_out = run_vm(source.to_string(), 1000, &mut Vec::new()).ok().unwrap();
    assert_eq!(vm_out, vec!["9"]);
}

#[test]
fn vm_runs_a_loop() {
    let source = "var i = 0; var n = 3; while (i < n) { print i; i = i + 1; }";
    let vm_out = run_vm(source.to_string(), 1000, &mut Vec::new()).ok().unwrap();
    assert_eq!(vm_out, vec!["0", "1", "2"]);
}

#[test]
fn vm_step_limit_and_manual_run() {
    let mut scanner = Scanner::new("var a = 2; print a * 4 - 1;".to_string());
    let tokens = scanner.scan_tokens();
    let mut parser = Parser::new(&tokens);
    let statements = parser.parse().ok().unwrap();
    let code = compile(&statements).ok().unwrap();
    let mut vm = Vm::new(code);
    vm.interpret(2);
    assert!(vm.is_running());
    vm.interpret(100);
    assert!(!vm.is_running());
    assert_eq!(vm.output(), &vec!["7".to_string()]);
    assert!(vm.failure().is_none());
}

#[test]
fn if_is_decided_when_compiling() {
    let source = "var a = 1; if (a < 2) print 10; else print 20;";
    assert_eq!(run_vm(source.to_string(), 1000, &mut Vec::new()).ok().unwrap(), vec!["10"]);
    let (r, out) = output_of(source);
    assert!(r.is_ok());
    assert_eq!(out, vec!["10"]);
    match run_vm("var i = 0; while (i < 2) { if (i < 1) print i; i = i + 1; }".to_string(), 1000, &mut Vec::new()) {
        Err(LoxErrors::RunTimeException(e)) => {
            assert_eq!(e.message, "An 'if' inside a loop cannot be decided at compile time.")
        },
        other => panic!("unexpected {:?}", other),
    }
}

#[test]
fn for_loop_desugars() {
    let (r, out) = output_of("for (var i = 0; i < 3; i = i + 1) print i;");
    assert!(r.is_ok());
    assert_eq!(out, vec!["0", "1", "2"]);
}

#[test]
fn logic_and_truthiness() {
    let (r, out) = output_of("print nil or 2; print false and 1; print !nil; print 1 == 1; print \"a\" != \"a\";");
    assert!(r.is_ok());
    assert_eq!(out, vec!["2", "false", "true", "true", "false"]);
    let (r, out) = output_of("if (false) print 1; else print 2;");
    assert!(r.is_ok());
    assert_eq!(out, vec!["2"]);
}

#[test]
fn number_rendering() {
    let (r, out) = output_of("print 7 / 2; print 1 / 3; print -5; print 0.5 + 0.25; print 2 / 4 * 4;");
    assert!(r.is_ok());
    assert_eq!(out, vec!["3.5", "0.3333333333333333", "-5", "0.75", "2"]);
}

#[test]
fn division_by_zero_and_range() {
    let (r, _) = output_of("print 1 / 0;");
    assert_eq!(runtime_error(r).message, "Division by zero.");
    let (r, _) = output_of("print 9000000000000000000 * 10;");
    assert_eq!(runtime_error(r).message, "Number out of range.");
    let (r, _) = output_of("print -\"x\";");
    assert_eq!(runtime_error(r).message, "Operand must be a number");
    let (r, _) = output_of("print 1 < \"x\";");
    assert_eq!(runtime_error(r).message, "Operands must be numbers");
}

#[test]
fn uninitialized_variable_prints_nil() {
    let (r, out) = output_of("var a; print a;");
    assert!(r.is_ok());
    assert_eq!(out, vec!["nil"]);
}

#[test]
fn loop_limit() {
    let mut terp = Intrepreter::with_loop_limit(2);
    let r = run("var i = 0; while (i < 5) i = i + 1;".to_string(), &mut terp, &mut Vec::new());
    assert!(matches!(r, Err(LoxErrors::LoopLimit)));
    let mut terp = Intrepreter::with_loop_limit(3);
    let r = run("var i = 0; while (i < 3) i = i + 1; print i;".to_string(), &mut terp, &mut Vec::new());
    assert!(r.is_ok());
    assert_eq!(terp.take_output(), vec!["3"]);
}

#[test]
fn parse_errors() {
    let e = parse_error("1 = 2;");
    assert_eq!(e.message, "Invalid assignment target");
    assert_eq!(e.line, 1);
    let e = parse_error("print 1\n");
    assert_eq!(e.message, "Expect ';' after value.");
    let e = parse_error("{ print 1;");
    assert_eq!(e.message, "Expect'}' after block.");
    let e = parse_error("print (1;");
    assert_eq!(e.message, "Expect ')' after expression");
    let e = parse_error("\nprint ;");
    assert_eq!(e.message, "Expect Expression.");
    assert_eq!(e.line, 2);
}

#[test]
fn state_carries_over_between_runs() {
    let mut terp = Intrepreter::default();
    assert!(run("var a = 1;".to_string(), &mut terp, &mut Vec::new()).is_ok());
    assert!(run("print a + 1;".to_string(), &mut terp, &mut Vec::new()).is_ok());
    assert_eq!(terp.take_output(), vec!["2"]);
    assert!(run("print (;".to_string(), &mut terp, &mut Vec::new()).is_err());
    assert!(run("print a;".to_string(), &mut terp, &mut Vec::new()).is_ok());
    assert_eq!(terp.output(), &vec!["1".to_string()]);
}

#[test]
fn printer_renders_prefix_form() {
    let expr = Expr::BinaryExpr(BinaryExpr {
        left: Box::new(Expr::UnaryExpr(UnaryExpr {
            operator: Token::new(TokenType::Minus, "-", None, 1),
            right: Box::new(Expr::LiteralExpr(LiteralExpr {
                value: Some(Value::Number(Number::from_int(123))),
            })),
        })),
        operator: Token::new(TokenType::Star, "*", None, 1),
        right: Box::new(Expr::GroupingExpr(GroupingExpr {
            expression: Box::new(Expr::LiteralExpr(LiteralExpr {
                value: Some(Value::Number(Number::ratio(4567, 100).unwrap())),
            })),
        })),
    });
    let mut printer = AstPrinter::new();
    let first = printer.print(&expr);
    assert_eq!(first, "(* (- 123) (group 45.67))");
    assert_eq!(printer.print(&expr), first);
}

#[test]
fn error_rendering() {
    let e = Error::new(3, "boom".to_string());
    assert_eq!(e.to_string(), "Error occured at line 3: boom");
    assert_eq!(LoxErrors::LoopLimit.to_string(), "Loop limit reached");
    assert_eq!(LoxErrors::ParseError(e).to_string(), "Error occured at line 3: boom");
}

#[test]
fn values_compare_by_meaning() {
    assert_eq!(Value::Number(Number::ratio(1, 2).unwrap()), Value::Number(Number::ratio(2, 4).unwrap()));
    assert_ne!(Value::Number(Number::from_int(0)), Value::Boolean(false));
    assert_ne!(Value::Nil, Value::Boolean(false));
    assert_eq!(Value::String("x".to_string()).to_text(), "x");
    assert!(Number::ratio(1, 0).is_none());
}

#[test]
fn machine_refuses_what_it_cannot_express() {
    match run_vm("print 1 < 2;".to_string(), 100, &mut Vec::new()) {
        Err(LoxErrors::RunTimeException(e)) => assert_eq!(e.message, "A comparison can only be a loop condition."),
        other => panic!("unexpected {:?}", other),
    }
    match run_vm("print !true;".to_string(), 100, &mut Vec::new()) {
        Err(LoxErrors::RunTimeException(e)) => assert_eq!(e.message, "Operator not supported by the register machine."),
        other => panic!("unexpected {:?}", other),
    }
    match run_vm("var i = 0; while (i) i = i + 1;".to_string(), 100, &mut Vec::new()) {
        Err(LoxErrors::RunTimeException(e)) => assert_eq!(e.message, "A loop condition must be a comparison."),
        other => panic!("unexpected {:?}", other),
    }
    match run_vm("print z;".to_string(), 100, &mut Vec::new()) {
        Err(LoxErrors::RunTimeException(e)) => assert_eq!(e.message, "Undefined variable z ."),
        other => panic!("unexpected {:?}", other),
    }
}

#[test]
fn machine_arithmetic_and_strings() {
    let out = run_vm("print -3 + 1; print 9 / 3 - 1; print \"a\" + \"b\";".to_string(), 100, &mut Vec::new()).ok().unwrap();
    assert_eq!(out, vec!["-2", "2", "ab"]);
    let mut vm = Vm::new(vec![
        ByteCode::NewString(1, "n=".to_string()),
        ByteCode::Load(2, Value::Number(Number::from_int(4))),
        ByteCode::Add(3, 1, 2),
        ByteCode::Print(3),
        ByteCode::Return,
    ]);
    vm.interpret(10);
    assert!(vm.output().is_empty());
    match vm.failure() {
        Some(LoxErrors::RunTimeException(e)) => assert_eq!(e.message, "Cannot add these values."),
        other => panic!("unexpected {:?}", other),
    }
    let mut vm = Vm::new(vec![
        ByteCode::Load(1, Value::Number(Number::from_int(4))),
        ByteCode::NewString(2, "x".to_string()),
        ByteCode::Sub(3, 1, 2),
    ]);
    vm.interpret(10);
    assert!(vm.failure().is_some());
    let mut vm = Vm::new(vec![ByteCode::JumpIfTrue("L9".to_string())]);
    vm.interpret(10);
    assert!(!vm.is_running());
    assert!(vm.failure().is_none());
}

#[test]
fn both_paths_agree_with_assignment() {
    let source = "var a = 1; var b = a = a + 2; print a * 3; print b / 2; a = (a - 1) * b; print a;";
    let (r, out) = output_of(source);
    assert!(r.is_ok());
    assert_eq!(out, vec!["9", "1.5", "6"]);
    assert_eq!(run_vm(source.to_string(), 1000, &mut Vec::new()).ok().unwrap(), out);
}

#[test]
fn identifiers_continue_with_unicode_letters() {
    assert_eq!(kinds("caf\u{e9}_2"), vec![TokenType::Identifier, TokenType::Eof]);
    let mut scanner = Scanner::new("n\u{e9} \u{2014}".to_string());
    let tokens = scanner.scan_tokens();
    assert_eq!(tokens[0].lexeme, "n\u{e9}");
    assert_eq!(tokens.len(), 2);
    assert_eq!(scanner.errors().len(), 1);
}

#[test]
fn if_with_equality_on_the_machine() {
    let source = "var a = 1; if (a == 1) print a; else print 0; if (!(a < 0)) print 2;";
    let (r, out) = output_of(source);
    assert!(r.is_ok());
    assert_eq!(out, vec!["1", "2"]);
    assert_eq!(run_vm(source.to_string(), 1000, &mut Vec::new()).ok().unwrap(), out);
    let source = "var a = 1; if ((a = 5) == 5) print a;";
    assert!(run_vm(source.to_string(), 1000, &mut Vec::new()).is_err());
}

#[test]
fn runs_hand_out_scanner_reports() {
    let mut terp = Intrepreter::default();
    let mut reported: Vec<Error> = Vec::new();
    let r = run("print 1; @".to_string(), &mut terp, &mut reported);
    assert!(r.is_ok());
    assert_eq!(reported.len(), 1);
    assert_eq!(reported[0].message, "Unexpected character.");
    let out = run_vm("print 1; \"ab".to_string(), 10, &mut reported);
    assert!(out.is_ok());
    assert_eq!(reported.len(), 2);
    assert_eq!(reported[1].message, "Unterminated string.");
}

#[test]
fn both_paths_agree_on_undefined_declarations() {
    let source = "var x; print x; x = 2; print x * 2;";
    let (r, out) = output_of(source);
    assert!(r.is_ok());
    assert_eq!(out, vec!["nil", "4"]);
    assert_eq!(run_vm(source.to_string(), 1000, &mut Vec::new()).ok().unwrap(), out);
}

#[test]
fn tokens_before_an_unterminated_string_stay() {
    let mut scanner = Scanner::new("var a = 1;\n\"open\nstill".to_string());
    let tokens = scanner.scan_tokens();
    let found: Vec<TokenType> = tokens.iter().map(|t| t.type_).collect();
    assert_eq!(found, vec![TokenType::Var, TokenType::Identifier, TokenType::Equal, TokenType::Number, TokenType::Semicolon, TokenType::Eof]);
    assert_eq!(tokens[5].line, 3);
    assert_eq!(scanner.errors()[0].line, 3);
}
