use loxrs::bytecode::chunk::Chunk;
use loxrs::bytecode::compiler::{compile, get_rule, Rule, PREC_FACTOR, PREC_NONE, PREC_TERM};
use loxrs::bytecode::object::{ObjString, ObjType, StringPool};
use loxrs::bytecode::opcode;
use loxrs::bytecode::value::Value;
use loxrs::bytecode::vm::{ArithOp, Pause, VM};
use loxrs::error::{InternalError, InvalidAccessError, LoxError, OverflowError, SyntaxError};
use loxrs::scanner::{number_lexemes, scan, with_numbers};
use loxrs::token::{Span, Token, TokenType};

fn tokens_of(source: &str) -> Vec<Token> {
    let tokens = scan(source).unwrap();
    let values: Vec<Option<u64>> = number_lexemes(&tokens)
        .iter()
        .map(|text| text.parse::<f64>().ok().map(f64::to_bits))
        .collect();
    with_numbers(tokens, &values).unwrap()
}

fn arith(op: ArithOp, lhs: u64, rhs: u64) -> u64 {
    let (a, b) = (f64::from_bits(lhs), f64::from_bits(rhs));
    match op {
        ArithOp::Add => a + b,
        ArithOp::Subtract => a - b,
        ArithOp::Multiply => a * b,
        ArithOp::Divide => a / b,
    }
    .to_bits()
}

fn show(vm: &VM, value: Value) -> String {
    if let Ok(bits) = value.try_number() {
        return format!("{}", f64::from_bits(bits));
    }
    if let Ok(b) = value.try_bool() {
        return format!("{}", b);
    }
    if value.is_nil() {
        return "nil".to_owned();
    }
    match vm.text_of(value) {
        Some(text) => text.to_owned(),
        None => format!("{}", value.bits()),
    }
}

fn finish(vm: &mut VM, mut pause: Result<Pause, LoxError>) -> Result<String, LoxError> {
    loop {
        match pause? {
            Pause::Return(value) => return Ok(show(vm, value)),
            Pause::Arith { op, lhs, rhs } => pause = vm.resume(arith(op, lhs, rhs)),
        }
    }
}

fn eval(source: &str) -> Result<String, LoxError> {
    let mut vm = VM::new();
    let first = vm
        .interpret(tokens_of(source))
        .map_err(|mut errors| errors.remove(0).0);
    finish(&mut vm, first)
}

#[test]
fn negated_sum_times_four() {
    assert_eq!(eval("-(1+2)*4;").unwrap(), "-12");
}

#[test]
fn precedence_of_arithmetic() {
    assert_eq!(eval("1 + 2 * 3").unwrap(), "7");
    assert_eq!(eval("(1 + 2) * 3").unwrap(), "9");
    assert_eq!(eval("8 - 2 - 1").unwrap(), "5");
    assert_eq!(eval("8 / 4 / 2").unwrap(), "1");
    assert_eq!(eval("1 / 4").unwrap(), "0.25");
    assert_eq!(eval("--3").unwrap(), "3");
}

#[test]
fn comparisons_and_equality() {
    assert_eq!(eval("1 < 2").unwrap(), "true");
    assert_eq!(eval("2 <= 2").unwrap(), "true");
    assert_eq!(eval("1 > 2").unwrap(), "false");
    assert_eq!(eval("1 >= 2").unwrap(), "false");
    assert_eq!(eval("1 == 1").unwrap(), "true");
    assert_eq!(eval("1 != 1").unwrap(), "false");
    assert_eq!(eval("nil == false").unwrap(), "false");
    assert_eq!(eval("1 + 1 == 2").unwrap(), "true");
    assert_eq!(eval("-1 < 0").unwrap(), "true");
    assert_eq!(eval("!nil").unwrap(), "true");
    assert_eq!(eval("!0").unwrap(), "false");
    assert_eq!(eval("!(1 < 2)").unwrap(), "false");
}

#[test]
fn strings_are_joined_and_interned() {
    assert_eq!(eval("\"foo\" + \"bar\"").unwrap(), "foobar");
    assert_eq!(eval("\"foo\" + \"bar\" == \"foobar\"").unwrap(), "true");
    assert_eq!(eval("\"a\" == \"b\"").unwrap(), "false");
    assert_eq!(eval("\"a\" == 1").unwrap(), "false");
}

#[test]
fn ternary_selects_and_nests_to_the_right() {
    assert_eq!(eval("true ? 1 : 2").unwrap(), "1");
    assert_eq!(eval("1 > 2 ? 1 : 2").unwrap(), "2");
    assert_eq!(eval("false ? 1 : true ? 2 : 3").unwrap(), "2");
    assert_eq!(eval("true ? \"yes\" : nil").unwrap(), "yes");
    assert!(matches!(eval("1 ? 2 : 3"), Err(LoxError::ConversionError(_))));
}

#[test]
fn type_errors() {
    assert!(matches!(eval("-true"), Err(LoxError::ConversionError(_))));
    assert!(matches!(eval("1 + nil"), Err(LoxError::ConversionError(_))));
    assert!(matches!(eval("\"a\" * 2"), Err(LoxError::ConversionError(_))));
    assert!(matches!(eval("\"a\" < \"b\""), Err(LoxError::ConversionError(_))));
}

#[test]
fn compile_errors() {
    let mut pool = StringPool::new();
    let errors = compile(tokens_of("(1 + 2"), &mut pool).err().unwrap();
    assert_eq!(errors.len(), 1);
    assert!(matches!(&errors[0].0, LoxError::SyntaxError(SyntaxError::UnexpectedValue(_))));
    let errors = compile(tokens_of("* 2"), &mut pool).err().unwrap();
    assert!(matches!(&errors[0].0, LoxError::CompilerError(_)));
    assert_eq!(errors[0].1, Span { start: 0, end: 1 });
    let errors = compile(tokens_of("1 + var"), &mut pool).err().unwrap();
    assert!(matches!(&errors[0].0, LoxError::CompilerError(_)));
    let errors = compile(tokens_of("true ? 1"), &mut pool).err().unwrap();
    assert!(matches!(&errors[0].0, LoxError::SyntaxError(_)));
}

#[test]
fn chunk_has_a_span_for_every_byte() {
    let mut pool = StringPool::new();
    let chunk = compile(tokens_of("-(1+2)*4 >= \"x\""), &mut pool).unwrap();
    let code: Vec<u8> = (0..chunk.len()).map(|i| chunk.byte(i)).collect();
    assert_eq!(
        code,
        vec![
            opcode::CONSTANT,
            0,
            opcode::CONSTANT,
            1,
            opcode::ADD,
            opcode::NEGATE,
            opcode::CONSTANT,
            2,
            opcode::MULTIPLY,
            opcode::CONSTANT,
            3,
            opcode::LESS,
            opcode::NOT,
            opcode::RETURN
        ]
    );
    assert_eq!(chunk.span(4), Span { start: 3, end: 4 });
    assert_eq!(chunk.span(5), Span { start: 0, end: 1 });
    assert_eq!(chunk.span(13), Span { start: 0, end: 0 });
    assert_eq!(chunk.constants_len(), 4);
    assert_eq!(pool.len(), 1);
}

#[test]
fn constant_pool_holds_256() {
    let mut chunk = Chunk::new();
    let span = Span { start: 1, end: 2 };
    for i in 0..256u64 {
        assert!(chunk.add_constant(opcode::CONSTANT, Value::from_number(i), &span).is_ok());
    }
    assert_eq!(chunk.len(), 512);
    assert_eq!(chunk.byte(511), 255);
    let err = chunk.add_constant(opcode::CONSTANT, Value::nil(), &span).unwrap_err();
    assert!(matches!(err.0, LoxError::OverflowError(OverflowError::ExceedsConstSize(256))));
    assert_eq!(err.1, span);
    assert_eq!(chunk.len(), 512);
    assert_eq!(chunk.constants_len(), 256);
    assert_eq!(chunk.read_const(511).unwrap(), Value::from_number(255));
    assert!(matches!(
        chunk.read_const(512),
        Err(LoxError::OverflowError(OverflowError::IndexOverflow(256)))
    ));
}

#[test]
fn too_many_constants_do_not_compile() {
    let source = vec!["1"; 257].join(" + ");
    let mut pool = StringPool::new();
    let errors = compile(tokens_of(&source), &mut pool).err().unwrap();
    assert!(matches!(
        errors[0].0,
        LoxError::OverflowError(OverflowError::ExceedsConstSize(256))
    ));
    let source = vec!["1"; 256].join(" + ");
    assert_eq!(eval(&source).unwrap(), "256");
}

#[test]
fn rules() {
    let tokens = tokens_of("- * 1 ( ; var");
    let minus = get_rule(&tokens[0]).unwrap();
    assert_eq!((minus.prefix, minus.infix), (Some(Rule::Unary), Some(Rule::Binary)));
    assert_eq!(minus.precedence, PREC_TERM);
    let star = get_rule(&tokens[1]).unwrap();
    assert_eq!((star.prefix, star.infix, star.precedence), (None, Some(Rule::Binary), PREC_FACTOR));
    assert_eq!(get_rule(&tokens[2]).unwrap().prefix, Some(Rule::Number));
    assert_eq!(get_rule(&tokens[3]).unwrap().prefix, Some(Rule::Grouping));
    let semi = get_rule(&tokens[4]).unwrap();
    assert_eq!((semi.prefix, semi.infix, semi.precedence), (None, None, PREC_NONE));
    assert!(get_rule(&tokens[5]).is_err());
}

#[test]
fn values_box_and_unbox() {
    for n in [0.0f64, -0.0, 1.5, -12.0, f64::INFINITY, f64::MIN_POSITIVE, f64::MAX] {
        let v = Value::from_number(n.to_bits());
        assert!(v.is_number());
        assert_eq!(v.try_number().unwrap(), n.to_bits());
        assert!(!v.is_nil() && !v.is_object() && !v.is_falsey());
    }
    assert!(Value::from_number(f64::NAN.to_bits()).is_number());
    assert!(Value::nil().is_nil() && Value::nil().is_falsey());
    assert!(Value::nil().try_number().is_err());
    assert!(Value::nil().try_bool().is_err());
    assert_eq!(Value::from_bool(true).try_bool().unwrap(), true);
    assert_eq!(Value::from_bool(false).try_bool().unwrap(), false);
    assert!(Value::from_bool(false).is_false() && Value::from_bool(false).is_falsey());
    assert!(Value::from_bool(true).is_true() && !Value::from_bool(true).is_falsey());
    let mut pool = StringPool::new();
    let a = pool.intern_string("a").unwrap();
    let b = pool.intern_string("b").unwrap();
    assert_eq!(pool.intern_string("a").unwrap(), a);
    assert_ne!(a, b);
    let v = Value::from_object(b);
    assert!(v.is_object() && v.is_str() && !v.is_number() && !v.is_nil());
    assert_eq!(v.as_object(), Some(b));
    assert_eq!(pool.text(b), Some("b"));
    assert_eq!(pool.type_(b), ObjType::String);
    assert_eq!(Value::nil().as_object(), None);
    assert_eq!(ObjString::new("x".to_owned()).common.type_, ObjType::String);
}

#[test]
fn machine_reports_where_it_failed() {
    let mut vm = VM::new();
    let errors = vm.interpret(tokens_of("1 + -nil")).unwrap_err();
    assert_eq!(errors.len(), 1);
    assert!(matches!(&errors[0].0, LoxError::ConversionError(_)));
    assert_eq!(errors[0].1, Span { start: 4, end: 5 });
    assert_eq!(vm.ip(), 4);
}

#[test]
fn empty_program_has_nothing_to_return() {
    assert!(matches!(
        eval(""),
        Err(LoxError::InvalidAccessError(InvalidAccessError::StackEmpty))
    ));
    let mut vm = VM::new();
    assert!(matches!(
        vm.run(),
        Err(LoxError::InternalError(InternalError::UnexpectedCodePath))
    ));
    assert!(vm.resume(0).is_err());
    assert_eq!(TokenType::Plus.text(), "+");
}

#[test]
fn arithmetic_is_the_hosts() {
    let mut vm = VM::new();
    let pause = vm.interpret(tokens_of("6 / 3")).unwrap();
    assert_eq!(
        pause,
        Pause::Arith { op: ArithOp::Divide, lhs: 6.0f64.to_bits(), rhs: 3.0f64.to_bits() }
    );
    let pause = vm.resume(2.0f64.to_bits()).unwrap();
    assert_eq!(pause, Pause::Return(Value::from_number(2.0f64.to_bits())));
}
