use rlox::parser::{compile, Chunk, ConstantIdx, Parser, Precedence};
use rlox::scanner::{Scanner, TokenType};
use rlox::value::Value;
use rlox::vm::OpCode;

fn num(x: f64) -> Value {
    Value::Number(x.to_bits())
}

fn ops(chunk: &Chunk) -> Vec<OpCode> {
    (0..chunk.len()).map(|i| chunk.get_opcode(i)).collect()
}

fn constants(chunk: &Chunk) -> Vec<Value> {
    (0..chunk.constant_count())
        .map(|i| chunk.get_constant(ConstantIdx(i)))
        .collect()
}

#[test]
fn precedence_increment_steps_and_saturates() {
    assert_eq!(Precedence::Lowest.increment(), Precedence::Assignment);
    assert_eq!(Precedence::Term.increment(), Precedence::Factor);
    assert_eq!(Precedence::Call.increment(), Precedence::Primary);
    assert_eq!(Precedence::Primary.increment(), Precedence::Primary);
}

#[test]
fn infix_precedence_table() {
    assert_eq!(TokenType::Plus.infix_precedence(), Precedence::Term);
    assert_eq!(TokenType::Slash.infix_precedence(), Precedence::Factor);
    assert_eq!(TokenType::BangEqual.infix_precedence(), Precedence::Equality);
    assert_eq!(TokenType::LessEqual.infix_precedence(), Precedence::Comparison);
    assert_eq!(TokenType::RightParen.infix_precedence(), Precedence::Lowest);
}

#[test]
fn left_associative_code() {
    let chunk = compile("1 - 2 - 3").unwrap();
    assert_eq!(
        ops(&chunk),
        vec![
            OpCode::Constant(ConstantIdx(0)),
            OpCode::Constant(ConstantIdx(1)),
            OpCode::Subtract,
            OpCode::Constant(ConstantIdx(2)),
            OpCode::Subtract,
            OpCode::Return,
        ]
    );
    assert_eq!(constants(&chunk), vec![num(1.0), num(2.0), num(3.0)]);
}

#[test]
fn right_operand_stops_at_next_binary_operator() {
    // The right operand of `+` is parsed one level above Term, and the loop
    // only takes operators strictly above that level, so `*` (Factor) is
    // left to the outer loop.
    let chunk = compile("1 + 2 * 3").unwrap();
    assert_eq!(
        ops(&chunk),
        vec![
            OpCode::Constant(ConstantIdx(0)),
            OpCode::Constant(ConstantIdx(1)),
            OpCode::Add,
            OpCode::Constant(ConstantIdx(2)),
            OpCode::Multiply,
            OpCode::Return,
        ]
    );
    let chunk = compile("1 + -2").unwrap();
    assert_eq!(
        ops(&chunk),
        vec![
            OpCode::Constant(ConstantIdx(0)),
            OpCode::Constant(ConstantIdx(1)),
            OpCode::Negate,
            OpCode::Add,
            OpCode::Return,
        ]
    );
}

#[test]
fn desugared_comparisons() {
    let chunk = compile("1 >= 2").unwrap();
    assert_eq!(
        ops(&chunk),
        vec![
            OpCode::Constant(ConstantIdx(0)),
            OpCode::Constant(ConstantIdx(1)),
            OpCode::Less,
            OpCode::Not,
            OpCode::Return,
        ]
    );
    let chunk = compile("1 <= 2").unwrap();
    assert_eq!(ops(&chunk)[2..4], [OpCode::Greater, OpCode::Not]);
    let chunk = compile("1 != 2").unwrap();
    assert_eq!(ops(&chunk)[2..4], [OpCode::Equal, OpCode::Not]);
}

#[test]
fn literals_use_no_constants() {
    let chunk = compile("!(true == nil) == false").unwrap();
    assert_eq!(
        ops(&chunk),
        vec![
            OpCode::True,
            OpCode::Nil,
            OpCode::Equal,
            OpCode::Not,
            OpCode::False,
            OpCode::Equal,
            OpCode::Return,
        ]
    );
    assert_eq!(chunk.constant_count(), 0);
}

#[test]
fn number_text_is_parsed_to_its_value() {
    let chunk = compile("0123.456").unwrap();
    assert_eq!(constants(&chunk), vec![num(123.456)]);
    let chunk = compile("-01234").unwrap();
    assert_eq!(constants(&chunk), vec![num(1234.0)]);
    assert_eq!(ops(&chunk), vec![OpCode::Constant(ConstantIdx(0)), OpCode::Negate, OpCode::Return]);
}

#[test]
fn missing_closing_paren_is_a_compile_error() {
    assert!(compile("(1 + 2").is_err());
}

#[test]
fn trailing_tokens_are_a_compile_error() {
    assert!(compile("1 2").is_err());
    assert!(compile("(1))").is_err());
}

#[test]
fn lexer_errors_are_compile_errors() {
    assert!(compile("\"abc").is_err());
    assert!(compile("1 + @").is_err());
    assert!(compile("@").is_err());
}

#[test]
fn token_without_prefix_rule_emits_nothing() {
    let chunk = compile("\"a\" + 1").unwrap();
    assert_eq!(
        ops(&chunk),
        vec![OpCode::Constant(ConstantIdx(0)), OpCode::Add, OpCode::Return]
    );
    let chunk = compile("").unwrap();
    assert_eq!(ops(&chunk), vec![OpCode::Return]);
}

#[test]
fn compiling_twice_gives_the_same_chunk() {
    for source in ["1 + 2 * 3", "-(4 / 2) >= !nil", "true != false", "(1)"] {
        let a = compile(source).unwrap();
        let b = compile(source).unwrap();
        assert_eq!(ops(&a), ops(&b));
        assert_eq!(constants(&a), constants(&b));
    }
}

#[test]
fn parser_over_a_scanner() {
    let parser = Parser::new(Scanner::new("2 * 3"));
    let chunk = parser.compile().unwrap();
    assert_eq!(chunk.len(), 4);
    assert_eq!(chunk.get_line(3), 0);
}

#[test]
fn chunk_push_and_push_constant() {
    let mut chunk = Chunk::new();
    chunk.push(OpCode::Nil, 7);
    chunk.push_constant(num(2.5), 8);
    chunk.push_constant(Value::Bool(true), 8);
    assert_eq!(
        ops(&chunk),
        vec![
            OpCode::Nil,
            OpCode::Constant(ConstantIdx(0)),
            OpCode::Constant(ConstantIdx(1)),
        ]
    );
    assert_eq!(chunk.get_line(0), 7);
    assert_eq!(chunk.get_line(2), 8);
    assert_eq!(chunk.get_constant(ConstantIdx(1)), Value::Bool(true));
}
