use roxy::chunk::{Chunk, Opcode};
use roxy::compiler::{ParseRule, Parser};
use roxy::disassembler::Disassembler;
use roxy::float::{f64_eq, f64_lt, f64_neg};
use roxy::error::{Compile, FaultKind, Runtime, RxError};
use roxy::precedence::Precedence;
use roxy::token::{Span, Token, TokenType};
use roxy::value::Value;

#[test]
fn chunk_write_and_read() {
    let mut c = Chunk::new();
    let ix = c.add_constant(Value::Int(7)).unwrap();
    assert_eq!(ix, 0);
    c.write(Opcode::Constant(ix), 1);
    c.write(Opcode::Return, 1);
    assert_eq!(c.code.len(), 2);
    assert_eq!(c.lines, vec![1, 1]);
    match c.read_constant(ix) {
        Value::Int(i) => assert_eq!(i, 7),
        _ => panic!(),
    }
}

#[test]
fn chunk_constant_pool_caps_at_256() {
    let mut c = Chunk::new();
    for i in 0..256u32 {
        assert!(c.add_constant(Value::Int(i as i64)).is_some());
    }
    assert!(c.add_constant(Value::Int(0)).is_none());
    assert_eq!(c.constants.len(), 256);
}

#[test]
fn precedence_next_cycles_upward() {
    assert_eq!(Precedence::Assignment.next(), Precedence::Or);
    assert_eq!(Precedence::Term.next(), Precedence::Factor);
    assert_eq!(Precedence::Factor.next(), Precedence::Unary);
    assert_eq!(Precedence::Primary.next(), Precedence::NoPrec);
    assert!(Precedence::Term.rank() < Precedence::Factor.rank());
}

#[test]
fn parse_rule_table_rows() {
    let plus = ParseRule::get_rule(TokenType::Plus);
    assert!(plus.prefix.is_none());
    assert!(plus.infix.is_some());
    assert_eq!(plus.precedence, Precedence::Term);

    let minus = ParseRule::get_rule(TokenType::Minus);
    assert!(minus.prefix.is_some());
    assert!(minus.infix.is_some());
    assert_eq!(minus.precedence, Precedence::Term);

    let star = ParseRule::get_rule(TokenType::Star);
    assert_eq!(star.precedence, Precedence::Factor);

    let eq = ParseRule::get_rule(TokenType::EqualEqual);
    assert_eq!(eq.precedence, Precedence::Equality);

    let lt = ParseRule::get_rule(TokenType::Less);
    assert_eq!(lt.precedence, Precedence::Comparison);

    let eof = ParseRule::get_rule(TokenType::Eof);
    assert!(eof.prefix.is_none());
    assert!(eof.infix.is_none());
    assert_eq!(eof.precedence, Precedence::NoPrec);
}

#[test]
fn span_new_and_combine() {
    let a = Span::new(0, 3, 1);
    let b = Span::new(5, 9, 2);
    let c = a.combine(&b);
    assert_eq!(c, Span(0, 9, 1));
}

#[test]
fn token_accessors() {
    let t = Token::new(TokenType::Plus, Span::new(4, 5, 3));
    assert_eq!(t.line(), 3);
    assert_eq!(t.lexeme(), "+");
    assert_eq!(TokenType::Eof.as_str(), "<<EOF>>");
    assert_eq!(TokenType::Ident("abc").as_str(), "abc");
}

#[test]
fn compile_emits_trailing_return() {
    let mut chunk = Chunk::new();
    assert!(Parser::new("1 + 2").compile(&mut chunk).is_ok());
    assert_eq!(chunk.code.last(), Some(&Opcode::Return));
    assert_eq!(chunk.code.len(), chunk.lines.len());
    assert_eq!(chunk.constants.len(), 2);
}

#[test]
fn compile_failure_keeps_chunk_unexecuted() {
    let mut chunk = Chunk::new();
    let err = Parser::new("1 +").compile(&mut chunk);
    assert!(err.is_err());
    // the pipeline refuses to run a failed compilation
    let mut vm = roxy::vm::Vm::new();
    assert!(matches!(vm.interpret("1 +"), Err(RxError::Compile(_))));
}

#[test]
fn value_operators() {
    assert!(matches!(
        Value::Int(2).add(Value::Int(3)),
        Ok(Value::Int(5))
    ));
    assert!(matches!(
        Value::Int(2).sub(Value::Int(3)),
        Ok(Value::Int(-1))
    ));
    assert!(matches!(
        Value::Int(2).mul(Value::Int(3)),
        Ok(Value::Int(6))
    ));
    assert!(matches!(
        Value::Int(7).div(Value::Int(2)),
        Ok(Value::Int(3))
    ));
    assert!(matches!(
        Value::Int(1).div(Value::Int(0)),
        Err(FaultKind::DivideByZero)
    ));
    assert!(matches!(
        Value::Int(i64::MIN).div(Value::Int(-1)),
        Err(FaultKind::IntOverflow)
    ));
    assert!(matches!(
        Value::Int(i64::MIN).neg(),
        Err(FaultKind::IntOverflow)
    ));
    assert!(Value::Int(1).equals(&Value::Float(1.0f64.to_bits())));
    assert!(!Value::Nil.equals(&Value::Bool(false)));
    assert_eq!(Value::Int(1).lt(&Value::Int(2)), Ok(true));
    assert_eq!(Value::Int(1).get_ty(), "int64");
    assert_eq!(Value::Float(0).get_ty(), "float64");
}

#[test]
fn float_bit_comparisons_match_native_semantics() {
    let cases: [(f64, f64); 7] = [
        (1.0, 2.0),
        (2.0, 1.0),
        (-1.0, 1.0),
        (-2.0, -1.0),
        (0.0, -0.0),
        (f64::NAN, 1.0),
        (f64::INFINITY, f64::MAX),
    ];
    for (a, b) in cases {
        assert_eq!(f64_lt(a.to_bits(), b.to_bits()), a < b, "{a} < {b}");
        assert_eq!(f64_eq(a.to_bits(), b.to_bits()), a == b, "{a} == {b}");
    }
    assert!(!f64_eq(f64::NAN.to_bits(), f64::NAN.to_bits()));
    assert_eq!(f64_neg(2.5f64.to_bits()), (-2.5f64).to_bits());
}

#[test]
fn value_display_text() {
    assert_eq!(Value::Float(2.5f64.to_bits()).display_string(), "2.5");
    assert_eq!(Value::Int(42).display_string(), "42");
    assert_eq!(Value::Int(-42).display_string(), "-42");
    assert_eq!(Value::Bool(true).display_string(), "true");
    assert_eq!(Value::Nil.display_string(), "nil");
    assert_eq!(Value::String("hi".to_string()).display_string(), "hi");
}

#[test]
fn error_constructors() {
    let c = Compile::new("boom");
    assert_eq!(c.msg, "boom");
    assert_eq!(c.line, 0);
    let r = Runtime::new("bang");
    assert_eq!(r.msg, "bang");
    let e = RxError::new(Compile::new("x"));
    assert!(matches!(e, RxError::Compile(_)));
    let e2 = RxError::new(Runtime::new("y"));
    assert!(matches!(e2, RxError::Runtime(_)));
}

#[test]
fn disassembler_lists_instructions() {
    let mut chunk = Chunk::new();
    assert!(Parser::new("1 + 2.5").compile(&mut chunk).is_ok());
    let text = Disassembler::new(&chunk, None).disassemble("main");
    assert!(text.starts_with("== BEGIN main ==\n"));
    assert!(text.ends_with("== END main ==\n"));
    assert!(text.contains("OP_Constant"));
    assert!(text.contains("OP_Add"));
    assert!(text.contains("OP_Return"));
    let stack = vec![Value::Int(1)];
    let with_stack = Disassembler::new(&chunk, Some(&stack)).disassemble("t");
    assert!(with_stack.contains("[ 1 ]"));
}
