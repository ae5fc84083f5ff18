use rlox::parser::{compile, Chunk, ConstantIdx};
use rlox::stack::Stack;
use rlox::value::{values_eq, Value};
use rlox::vm::{interpret_source, InterpretError, OpCode, Vm};

fn num(x: f64) -> Value {
    Value::Number(x.to_bits())
}

fn run(source: &str) -> Result<Value, String> {
    interpret_source(source)
}

fn bits(v: Result<Value, String>) -> u64 {
    match v {
        Ok(Value::Number(b)) => b,
        other => panic!("not a number: {:?}", other),
    }
}

#[test]
fn multiplication_is_left_associative() {
    let chunk = compile("2 * 2 * 2").unwrap();
    assert_eq!(Vm::new(chunk).interpret().unwrap(), num(8.0));
}

#[test]
fn desugared_comparison_results() {
    assert_eq!(run("1 < 2"), Ok(Value::Bool(true)));
    assert_eq!(run("1 >= 2"), Ok(Value::Bool(false)));
    assert_eq!(run("2 <= 2"), Ok(Value::Bool(true)));
    assert_eq!(run("3 > 2"), Ok(Value::Bool(true)));
    assert_eq!(run("1 != 2"), Ok(Value::Bool(true)));
}

#[test]
fn falsiness_of_nil_and_zero() {
    assert_eq!(run("!nil"), Ok(Value::Bool(true)));
    assert_eq!(run("!0"), Ok(Value::Bool(false)));
    assert_eq!(run("!false"), Ok(Value::Bool(true)));
    assert_eq!(run("!!true"), Ok(Value::Bool(true)));
}

#[test]
fn non_numeric_operands_fail_at_run_time() {
    for source in ["\"a\" + 1", "true + 1", "1 - nil", "false * 2", "2 / true", "-nil", "-true"] {
        let chunk = compile(source).expect("type errors are not compile errors");
        match Vm::new(chunk).interpret() {
            Err(InterpretError::RuntimeError(_)) => {}
            Ok(v) => panic!("{} gave {:?}", source, v),
        }
    }
}

#[test]
fn missing_paren_produces_no_unit() {
    assert!(compile("(1 + 2").is_err());
    assert!(run("(1 + 2").is_err());
}

#[test]
fn arithmetic_results() {
    assert_eq!(run("7 - 2"), Ok(num(5.0)));
    assert_eq!(run("6 / 4"), Ok(num(1.5)));
    assert_eq!(run("1 + 2 * 3"), Ok(num(9.0)));
    assert_eq!(run("1 + (2 * 3)"), Ok(num(7.0)));
    assert_eq!(run("(1 + 2) * 3"), Ok(num(9.0)));
    assert_eq!(run("-(3)"), Ok(num(-3.0)));
    assert_eq!(run("--3"), Ok(num(3.0)));
    assert_eq!(bits(run("0.1 + 0.2")), (0.1f64 + 0.2f64).to_bits());
    assert_eq!(bits(run("1.1 * 3")), (1.1f64 * 3.0f64).to_bits());
}

#[test]
fn division_by_zero_follows_ieee() {
    assert_eq!(bits(run("1 / 0")), f64::INFINITY.to_bits());
    assert_eq!(bits(run("-1 / 0")), f64::NEG_INFINITY.to_bits());
    let nan = f64::from_bits(bits(run("0 / 0")));
    assert!(nan.is_nan());
    assert_eq!(run("0 / 0 == 0 / 0"), Ok(Value::Bool(false)));
    assert_eq!(run("0 / 0 < 1"), Ok(Value::Bool(false)));
}

#[test]
fn equality_across_variants() {
    assert_eq!(run("nil == nil"), Ok(Value::Bool(true)));
    assert_eq!(run("1 == true"), Ok(Value::Bool(false)));
    assert_eq!(run("0 == -0"), Ok(Value::Bool(true)));
    assert_eq!(run("true == true"), Ok(Value::Bool(true)));
    assert_eq!(run("nil == false"), Ok(Value::Bool(false)));
}

#[test]
fn ordering_non_numbers_is_false() {
    assert_eq!(run("true > false"), Ok(Value::Bool(false)));
    assert_eq!(run("nil < 1"), Ok(Value::Bool(false)));
    assert_eq!(run("-2 < -1"), Ok(Value::Bool(true)));
    assert_eq!(run("-0 < 0"), Ok(Value::Bool(false)));
}

#[test]
fn empty_program_is_a_runtime_error() {
    let chunk = compile("").unwrap();
    assert!(Vm::new(chunk).interpret().is_err());
}

#[test]
fn hand_written_bytecode_faults_are_reported() {
    let mut chunk = Chunk::new();
    chunk.push(OpCode::Add, 1);
    assert!(Vm::new(chunk).interpret().is_err());

    let mut chunk = Chunk::new();
    chunk.push(OpCode::Constant(ConstantIdx(3)), 1);
    chunk.push(OpCode::Return, 1);
    assert!(Vm::new(chunk).interpret().is_err());

    let mut chunk = Chunk::new();
    chunk.push(OpCode::True, 1);
    assert!(Vm::new(chunk).interpret().is_err());

    let mut chunk = Chunk::new();
    chunk.push(OpCode::Nop, 1);
    chunk.push(OpCode::False, 1);
    chunk.push(OpCode::Return, 1);
    assert_eq!(Vm::new(chunk).interpret().unwrap(), Value::Bool(false));
}

#[test]
fn value_falsiness_and_equality() {
    assert!(Value::Nil.is_falsey());
    assert!(Value::Bool(false).is_falsey());
    assert!(!Value::Bool(true).is_falsey());
    assert!(!num(0.0).is_falsey());
    assert!(values_eq(&num(0.0), &num(-0.0)));
    assert!(!values_eq(&num(f64::NAN), &num(f64::NAN)));
    assert!(!values_eq(&Value::Nil, &Value::Bool(false)));
}

#[test]
fn stack_push_pop_iter() {
    let mut stack = Stack::new();
    assert_eq!(stack.pop(), None);
    stack.push(Value::Nil);
    stack.push(num(1.0));
    assert_eq!(stack.len(), 2);
    let seen: Vec<Value> = stack.iter().copied().collect();
    assert_eq!(seen, vec![Value::Nil, num(1.0)]);
    assert_eq!(stack.pop(), Some(num(1.0)));
    assert_eq!(stack.len(), 1);
}
