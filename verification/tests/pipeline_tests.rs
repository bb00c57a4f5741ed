use roxy::chunk::Chunk;
use roxy::compiler::Parser;
use roxy::disassembler::Disassembler;
use roxy::error::RxError;
use roxy::value::Value;
use roxy::vm::Vm;

fn run(src: &str) -> Result<Option<Value>, RxError> {
    let mut vm = Vm::new();
    vm.interpret(src)
}

fn run_int(src: &str) -> i64 {
    match run(src) {
        Ok(Some(Value::Int(i))) => i,
        other => panic!("{src}: expected an integer, got {other:?}"),
    }
}

fn run_float_bits(src: &str) -> u64 {
    match run(src) {
        Ok(Some(Value::Float(b))) => b,
        other => panic!("{src}: expected a float, got {other:?}"),
    }
}

fn run_bool(src: &str) -> bool {
    match run(src) {
        Ok(Some(Value::Bool(b))) => b,
        other => panic!("{src}: expected a boolean, got {other:?}"),
    }
}

fn runtime_msg(src: &str) -> String {
    match run(src) {
        Err(RxError::Runtime(rt)) => rt.msg,
        other => panic!("{src}: expected a runtime fault, got {other:?}"),
    }
}

#[test]
fn p3_precedence_and_associativity() {
    assert_eq!(run_int("2 + 3 * 4"), 14);
    assert_eq!(run_int("(2 + 3) * 4"), 20);
    assert_eq!(run_int("10 - 2 - 3"), 5);
    assert_eq!(run_int("20 / 2 / 5"), 2);
    assert_eq!(run_int("1 + 2 * 3 - 4"), 3);
    assert_eq!(run_int("7 / 2"), 3);
}

#[test]
fn p4_mixed_arithmetic_promotes_to_float() {
    assert_eq!(run_float_bits("1 + 2.5"), (1.0f64 + 2.5).to_bits());
    assert_eq!(run_float_bits("2.5 + 1"), 3.5f64.to_bits());
    assert_eq!(run_float_bits("2 * 1.25"), 2.5f64.to_bits());
    assert_eq!(run_float_bits("5 / 2.0"), 2.5f64.to_bits());
    assert_eq!(run_float_bits("1.5 - 1"), 0.5f64.to_bits());
}

#[test]
fn p5_string_concatenation() {
    match run("\"ab\" + \"cd\"") {
        Ok(Some(Value::String(s))) => assert_eq!(s, "abcd"),
        other => panic!("expected a string, got {other:?}"),
    }
}

#[test]
fn p5_string_plus_non_string_faults() {
    assert_eq!(
        runtime_msg("\"ab\" + 1"),
        "TypeError: invalid operand types for addition"
    );
    assert_eq!(
        runtime_msg("1 + \"ab\""),
        "TypeError: invalid operand types for addition"
    );
}

#[test]
fn p6_comparison_complements_round_trip() {
    for (a, b) in [("3", "2"), ("2", "3"), ("2", "2"), ("2.5", "2"), ("1", "1.0")] {
        let ge = run_bool(&format!("{a} >= {b}"));
        let not_lt = run_bool(&format!("!({a} < {b})"));
        assert_eq!(ge, not_lt, "{a} >= {b}");
        let le = run_bool(&format!("{a} <= {b}"));
        let not_gt = run_bool(&format!("!({a} > {b})"));
        assert_eq!(le, not_gt, "{a} <= {b}");
    }
}

#[test]
fn p7_negation_involution() {
    assert_eq!(run_int("-(-7)"), 7);
    assert_eq!(run_float_bits("-(-2.5)"), 2.5f64.to_bits());
    assert_eq!(run_int("0 - -3"), 3);
}

#[test]
fn p8_syntax_error_reports_one_error() {
    match run("1 +") {
        Err(RxError::Compile(c)) => {
            assert_eq!(c.msg, "Expect expression.");
        },
        other => panic!("expected a compile error, got {other:?}"),
    }
    // a cascade of problems still yields a single (the first) diagnostic
    match run(") ) )") {
        Err(RxError::Compile(c)) => assert_eq!(c.msg, "Expect expression."),
        other => panic!("expected a compile error, got {other:?}"),
    }
}

#[test]
fn p9_constant_pool_overflow_is_reported() {
    // 257 literal occurrences: one more than the pool can address
    let mut src = String::from("1");
    for _ in 0..256 {
        src.push_str(" + 1");
    }
    match run(&src) {
        Err(RxError::Compile(c)) => {
            assert_eq!(c.msg, "Too many constants in one chunk.");
        },
        other => panic!("expected a compile error, got {other:?}"),
    }
    // exactly 256 literals still compile and run
    let mut ok_src = String::from("1");
    for _ in 0..255 {
        ok_src.push_str(" + 1");
    }
    assert_eq!(run_int(&ok_src), 256);
}

#[test]
fn p10_disassembly_does_not_alter_execution() {
    let src = "2 + 3 * 4";

    // plain run
    let mut chunk1 = Chunk::new();
    assert!(Parser::new(src).compile(&mut chunk1).is_ok());
    let mut vm1 = Vm::new();
    let r1 = vm1.run(&chunk1);

    // traced run: disassemble before and during
    let mut chunk2 = Chunk::new();
    assert!(Parser::new(src).compile(&mut chunk2).is_ok());
    let listing = Disassembler::new(&chunk2, None).disassemble("code");
    assert!(listing.contains("OP_Return"));
    let mut vm2 = Vm::new();
    let r2 = vm2.run(&chunk2);

    match (r1, r2) {
        (Ok(Some(Value::Int(a))), Ok(Some(Value::Int(b)))) => {
            assert_eq!(a, 14);
            assert_eq!(b, 14);
        },
        other => panic!("unexpected outcomes {other:?}"),
    }
}

#[test]
fn literals_evaluate_to_themselves() {
    assert!(matches!(run("true"), Ok(Some(Value::Bool(true)))));
    assert!(matches!(run("false"), Ok(Some(Value::Bool(false)))));
    assert!(matches!(run("nil"), Ok(Some(Value::Nil))));
    assert_eq!(run_int("42"), 42);
    assert_eq!(run_float_bits("3.5"), 3.5f64.to_bits());
    assert_eq!(run_float_bits("7."), 7.0f64.to_bits());
}

#[test]
fn equality_semantics() {
    assert!(run_bool("1 == 1"));
    assert!(run_bool("1 == 1.0"));
    assert!(run_bool("0.0 == -0.0"));
    assert!(run_bool("nil == nil"));
    assert!(!run_bool("1 == true"));
    assert!(!run_bool("\"a\" == 1"));
    assert!(run_bool("\"ab\" == \"ab\""));
    assert!(run_bool("\"ab\" != \"cd\""));
    assert!(run_bool("1 != 2"));
}

#[test]
fn comparison_faults_on_non_numeric_operands() {
    assert_eq!(runtime_msg("true < 1"), "TypeError: operands cannot be ordered");
    assert_eq!(runtime_msg("\"a\" > \"b\""), "TypeError: operands cannot be ordered");
    assert_eq!(runtime_msg("nil <= nil"), "TypeError: operands cannot be ordered");
}

#[test]
fn logical_not_semantics() {
    assert!(!run_bool("!true"));
    assert!(run_bool("!false"));
    // nil is falsey through not, and not of an integer negates it
    assert!(!run_bool("!nil"));
    assert_eq!(run_int("!3"), -3);
    assert_eq!(runtime_msg("!2.5"), "TypeError: operand does not support logical not");
    assert_eq!(runtime_msg("!\"s\""), "TypeError: operand does not support logical not");
}

#[test]
fn arithmetic_fault_cases() {
    assert_eq!(runtime_msg("1 / 0"), "RuntimeError: division by zero");
    assert_eq!(
        runtime_msg("9223372036854775807 + 1"),
        "RuntimeError: integer overflow"
    );
    assert_eq!(
        runtime_msg("true - false"),
        "TypeError: invalid operand types for subtraction"
    );
    assert_eq!(
        runtime_msg("nil * 2"),
        "TypeError: invalid operand types for multiplication"
    );
    assert_eq!(
        runtime_msg("\"a\" / 2"),
        "TypeError: invalid operand types for division"
    );
    assert_eq!(runtime_msg("-nil"), "TypeError: operand cannot be negated");
    assert_eq!(runtime_msg("-\"s\""), "TypeError: operand cannot be negated");
}

#[test]
fn float_division_by_zero_is_infinite_not_a_fault() {
    assert_eq!(run_float_bits("1.0 / 0.0"), f64::INFINITY.to_bits());
    assert_eq!(run_float_bits("1 / 0.0"), f64::INFINITY.to_bits());
}

#[test]
fn integer_literal_overflow_falls_back_to_float() {
    // too large for i64: read as the nearest binary64 instead
    let huge = "99999999999999999999999999";
    let expected = huge.parse::<f64>().unwrap().to_bits();
    assert_eq!(run_float_bits(huge), expected);
}

#[test]
fn runtime_fault_reports_the_line() {
    match run("1 +\n\"x\"") {
        Err(RxError::Runtime(rt)) => {
            assert_eq!(rt.msg, "TypeError: invalid operand types for addition");
            assert_eq!(rt.line, 2);
        },
        other => panic!("expected a runtime fault, got {other:?}"),
    }
}

#[test]
fn compile_error_reports_line_and_context() {
    match run("(1 + 2") {
        Err(RxError::Compile(c)) => {
            assert_eq!(c.msg, "Expect ')' after expression.");
            assert_eq!(c.line, 1);
        },
        other => panic!("expected a compile error, got {other:?}"),
    }
    match run("1 2") {
        Err(RxError::Compile(c)) => {
            assert_eq!(c.msg, "Expect end of expression");
            assert_eq!(c.at, "2");
        },
        other => panic!("expected a compile error, got {other:?}"),
    }
}

#[test]
fn scan_error_becomes_compile_error() {
    match run("1 + #") {
        Err(RxError::Compile(c)) => assert_eq!(c.msg, "Unexpected character."),
        other => panic!("expected a compile error, got {other:?}"),
    }
    match run("\"abc") {
        Err(RxError::Compile(c)) => assert_eq!(c.msg, "Unterminated string"),
        other => panic!("expected a compile error, got {other:?}"),
    }
}

#[test]
fn vm_survives_a_fault_and_keeps_working() {
    let mut vm = Vm::new();
    assert!(matches!(vm.interpret("1 + nil"), Err(RxError::Runtime(_))));
    // the stack was reset; the same machine runs the next source cleanly
    match vm.interpret("6 * 7") {
        Ok(Some(Value::Int(i))) => assert_eq!(i, 42),
        other => panic!("expected 42, got {other:?}"),
    }
    assert!(matches!(vm.interpret("1 +"), Err(RxError::Compile(_))));
    match vm.interpret("\"a\" + \"b\"") {
        Ok(Some(Value::String(s))) => assert_eq!(s, "ab"),
        other => panic!("expected a string, got {other:?}"),
    }
}

#[test]
fn nesting_and_unary_chains() {
    assert_eq!(run_int("((((5))))"), 5);
    assert_eq!(run_int("--3"), 3);
    assert_eq!(run_int("---3"), -3);
    assert!(run_bool("!!true"));
    assert_eq!(run_int("-(1 + 2) * 3"), -9);
    assert!(run_bool("1 + 2 == 3"));
    assert!(run_bool("1 < 2 == true"));
}

#[test]
fn multiline_sources_track_lines() {
    assert_eq!(run_int("1 +\n2 +\n3"), 6);
    match run("1 +\n2 +\nnil") {
        Err(RxError::Runtime(rt)) => assert_eq!(rt.line, 3),
        other => panic!("expected a fault, got {other:?}"),
    }
}
