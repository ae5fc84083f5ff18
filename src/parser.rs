//! The single-pass compiler: a precedence-climbing parser that emits bytecode
//! as it recognises the expression, with no syntax tree in between.
use crate::float::{decimal_bits, parse_decimal};
use crate::scanner::{lemma_eof_is_sticky, lemma_scan_progress, scan_at, Scanner, Token, TokenType};
use crate::value::Value;
use crate::vm::OpCode;
use vstd::prelude::*;

verus! {

/// Binding strength of operators, weakest first.
#[derive(Debug, Copy, Clone, Ord, PartialOrd, Eq, PartialEq, Structural)]
pub enum Precedence {
    Lowest,
    Assignment,
    Or,
    And,
    Equality,
    Comparison,
    Term,
    Factor,
    Unary,
    Call,
    Primary,
}

/// The rank of a precedence level, from 0 (`None`) to 10 (`Primary`).
pub open spec fn rank(p: Precedence) -> int {
    match p {
        Precedence::Lowest => 0,
        Precedence::Assignment => 1,
        Precedence::Or => 2,
        Precedence::And => 3,
        Precedence::Equality => 4,
        Precedence::Comparison => 5,
        Precedence::Term => 6,
        Precedence::Factor => 7,
        Precedence::Unary => 8,
        Precedence::Call => 9,
        Precedence::Primary => 10,
    }
}

/// The level one step stronger than `p`; `Primary` stays `Primary`.
pub open spec fn one_above(p: Precedence) -> Precedence {
    match p {
        Precedence::Lowest => Precedence::Assignment,
        Precedence::Assignment => Precedence::Or,
        Precedence::Or => Precedence::And,
        Precedence::And => Precedence::Equality,
        Precedence::Equality => Precedence::Comparison,
        Precedence::Comparison => Precedence::Term,
        Precedence::Term => Precedence::Factor,
        Precedence::Factor => Precedence::Unary,
        Precedence::Unary => Precedence::Call,
        Precedence::Call => Precedence::Primary,
        Precedence::Primary => Precedence::Primary,
    }
}

impl Precedence {
    /// The next stronger level, saturating at `Primary`.
    pub fn increment(&self) -> (r: Self)
        ensures
            r == one_above(*self),
            rank(r) == if rank(*self) < 10 {
                rank(*self) + 1
            } else {
                10
            },
    {
        match self {
            Precedence::Lowest => Precedence::Assignment,
            Precedence::Assignment => Precedence::Or,
            Precedence::Or => Precedence::And,
            Precedence::And => Precedence::Equality,
            Precedence::Equality => Precedence::Comparison,
            Precedence::Comparison => Precedence::Term,
            Precedence::Term => Precedence::Factor,
            Precedence::Factor => Precedence::Unary,
            Precedence::Unary => Precedence::Call,
            Precedence::Call => Precedence::Primary,
            Precedence::Primary => Precedence::Primary,
        }
    }

    fn rank(&self) -> (r: u8)
        ensures
            r == rank(*self),
    {
        match self {
            Precedence::Lowest => 0,
            Precedence::Assignment => 1,
            Precedence::Or => 2,
            Precedence::And => 3,
            Precedence::Equality => 4,
            Precedence::Comparison => 5,
            Precedence::Term => 6,
            Precedence::Factor => 7,
            Precedence::Unary => 8,
            Precedence::Call => 9,
            Precedence::Primary => 10,
        }
    }
}

/// How strongly a token binds as an infix operator; `None` for tokens that
/// are no infix operator.
pub open spec fn infix_prec(k: TokenType) -> Precedence {
    match k {
        TokenType::Minus | TokenType::Plus => Precedence::Term,
        TokenType::Slash | TokenType::Star => Precedence::Factor,
        TokenType::BangEqual | TokenType::EqualEqual => Precedence::Equality,
        TokenType::Greater | TokenType::GreaterEqual | TokenType::Less | TokenType::LessEqual => {
            Precedence::Comparison
        },
        _ => Precedence::Lowest,
    }
}

impl TokenType {
    pub fn infix_precedence(&self) -> (r: Precedence)
        ensures
            r == infix_prec(*self),
    {
        match self {
            TokenType::Minus | TokenType::Plus => Precedence::Term,
            TokenType::Slash | TokenType::Star => Precedence::Factor,
            TokenType::BangEqual | TokenType::EqualEqual => Precedence::Equality,
            TokenType::Greater | TokenType::GreaterEqual | TokenType::Less
            | TokenType::LessEqual => Precedence::Comparison,
            _ => Precedence::Lowest,
        }
    }
}

/// A handle on a slot of a chunk's constant pool.
#[derive(Debug, Ord, PartialOrd, Eq, PartialEq, Copy, Clone, Structural)]
pub struct ConstantIdx(pub usize);

/// Compiled code: the instructions, a source line for each, and the pool of
/// constants they refer to.
pub struct Chunk {
    bytecode: Vec<OpCode>,
    lines: Vec<u32>,
    constants: Vec<Value>,
}

/// Code under construction: instructions and constant pool.
pub type Code = (Seq<OpCode>, Seq<Value>);

pub open spec fn emit(c: Code, op: OpCode) -> Code {
    (c.0.push(op), c.1)
}

/// Appends `v` to the pool and an instruction that loads it.
pub open spec fn emit_constant(c: Code, v: Value) -> Code {
    (c.0.push(OpCode::Constant(ConstantIdx(c.1.len() as usize))), c.1.push(v))
}

/// Every `Constant` instruction of `c` refers to a slot of its pool.
pub open spec fn constants_in_range(c: Code) -> bool {
    forall|i: int|
        0 <= i < c.0.len() ==> (#[trigger] c.0[i] matches OpCode::Constant(k) ==> k.0 < c.1.len())
}

impl Chunk {
    pub closed spec fn code(&self) -> Seq<OpCode> {
        self.bytecode@
    }

    pub closed spec fn source_lines(&self) -> Seq<u32> {
        self.lines@
    }

    pub closed spec fn constants(&self) -> Seq<Value> {
        self.constants@
    }

    pub open spec fn view(&self) -> Code {
        (self.code(), self.constants())
    }

    /// One source line per instruction.
    pub open spec fn wf(&self) -> bool {
        self.code().len() == self.source_lines().len()
    }

    pub fn new() -> (r: Self)
        ensures
            r.wf(),
            r.code() == Seq::<OpCode>::empty(),
            r.constants() == Seq::<Value>::empty(),
    {
        Self { bytecode: Vec::new(), lines: Vec::new(), constants: Vec::new() }
    }

    /// The number of instructions.
    pub fn len(&self) -> (r: usize)
        ensures
            r == self.code().len(),
    {
        self.bytecode.len()
    }

    /// The number of constants in the pool.
    pub fn constant_count(&self) -> (r: usize)
        ensures
            r == self.constants().len(),
    {
        self.constants.len()
    }

    pub fn get_opcode(&self, idx: usize) -> (r: OpCode)
        requires
            idx < self.code().len(),
        ensures
            r == self.code()[idx as int],
    {
        self.bytecode[idx]
    }

    /// The source line of the instruction at `idx`.
    pub fn get_line(&self, idx: usize) -> (r: u32)
        requires
            self.wf(),
            idx < self.code().len(),
        ensures
            r == self.source_lines()[idx as int],
    {
        self.lines[idx]
    }

    pub fn get_constant(&self, constant_idx: ConstantIdx) -> (r: Value)
        requires
            constant_idx.0 < self.constants().len(),
        ensures
            r == self.constants()[constant_idx.0 as int],
    {
        self.constants[constant_idx.0]
    }

    /// Appends an instruction and its source line.
    pub fn push(&mut self, op: OpCode, line: u32)
        requires
            old(self).wf(),
        ensures
            final(self).wf(),
            final(self).code() == old(self).code().push(op),
            final(self).source_lines() == old(self).source_lines().push(line),
            final(self).constants() == old(self).constants(),
    {
        self.bytecode.push(op);
        self.lines.push(line);
    }

    /// Appends `constant` to the pool and an instruction that loads it.
    pub fn push_constant(&mut self, constant: Value, line: u32)
        requires
            old(self).wf(),
        ensures
            final(self).wf(),
            final(self)@ == emit_constant(old(self)@, constant),
            final(self).source_lines() == old(self).source_lines().push(line),
    {
        self.constants.push(constant);
        let constant_idx = ConstantIdx(self.constants.len() - 1);
        let op = OpCode::Constant(constant_idx);
        self.push(op, line);
    }
}

// ---------------------------------------------------------------------------
// The grammar, as the code it compiles to.
//
// A parser state is the position `p` from which its next token was scanned:
// that token is `scan_at(src, p)`, and the scanner stands at its end.
// ---------------------------------------------------------------------------

/// What is left to parse from `p`: the characters after the next token, and
/// one more where that token is not `Eof`. Every advance past a token other
/// than `Eof` makes it smaller.
pub open spec fn measure(src: Seq<char>, p: int) -> int {
    let t = scan_at(src, p);
    let m = (src.len() - t.2) + if t.0 == TokenType::Eof {
        0int
    } else {
        1int
    };
    if m < 0 {
        0
    } else {
        m
    }
}

/// Consumes the next token: the state moves past it, and fails where that
/// token or the one after it is an error.
pub open spec fn advance_to(src: Seq<char>, p: int) -> Option<int> {
    let pa = scan_at(src, p).2;
    if scan_at(src, p).0 == TokenType::Error || scan_at(src, pa).0 == TokenType::Error {
        None
    } else {
        Some(pa)
    }
}

/// Tokens that may start an expression.
pub open spec fn has_prefix(k: TokenType) -> bool {
    k == TokenType::LeftParen || k == TokenType::Minus || k == TokenType::Bang || k
        == TokenType::Number || k == TokenType::True || k == TokenType::False || k
        == TokenType::Nil
}

/// The instructions that the binary operator `k` compiles to, after its operands.
pub open spec fn emit_binary(c: Code, k: TokenType) -> Code {
    match k {
        TokenType::Plus => emit(c, OpCode::Add),
        TokenType::Minus => emit(c, OpCode::Subtract),
        TokenType::Star => emit(c, OpCode::Multiply),
        TokenType::Slash => emit(c, OpCode::Divide),
        TokenType::BangEqual => emit(emit(c, OpCode::Equal), OpCode::Not),
        TokenType::EqualEqual => emit(c, OpCode::Equal),
        TokenType::Greater => emit(c, OpCode::Greater),
        TokenType::GreaterEqual => emit(emit(c, OpCode::Less), OpCode::Not),
        TokenType::Less => emit(c, OpCode::Less),
        TokenType::LessEqual => emit(emit(c, OpCode::Greater), OpCode::Not),
        _ => c,
    }
}

/// Parses an expression whose operators all bind more strongly than `min`,
/// starting at state `p`, appending its code to `c`. A token that cannot
/// start an expression emits nothing.
pub open spec fn parse_expr(src: Seq<char>, p: int, min: Precedence, c: Code) -> Option<(int, Code)>
    decreases measure(src, p), 3int,
{
    let cur = scan_at(src, p);
    match advance_to(src, p) {
        None => None,
        Some(pa) => {
            let pre = if has_prefix(cur.0) {
                if measure(src, pa) < measure(src, p) {
                    parse_prefix(src, pa, cur.0, cur.1, c)
                } else {
                    None
                }
            } else {
                Some((pa, c))
            };
            match pre {
                None => None,
                Some((pb, c2)) => if measure(src, pb) <= measure(src, p) {
                    parse_infix(src, pb, min, c2)
                } else {
                    None
                },
            }
        },
    }
}

/// The prefix rule of the token `kind` (with text `text`) just consumed.
pub open spec fn parse_prefix(
    src: Seq<char>,
    p: int,
    kind: TokenType,
    text: Seq<char>,
    c: Code,
) -> Option<(int, Code)>
    decreases measure(src, p) + 1, 1int,
{
    if kind == TokenType::LeftParen {
        match parse_expr(src, p, Precedence::Assignment, c) {
            None => None,
            Some((pb, c2)) => if scan_at(src, pb).0 == TokenType::RightParen {
                match advance_to(src, pb) {
                    None => None,
                    Some(pc) => Some((pc, c2)),
                }
            } else {
                None
            },
        }
    } else if kind == TokenType::Minus || kind == TokenType::Bang {
        match parse_expr(src, p, Precedence::Unary, c) {
            None => None,
            Some((pb, c2)) => Some(
                (pb, emit(c2, if kind == TokenType::Minus { OpCode::Negate } else { OpCode::Not })),
            ),
        }
    } else if kind == TokenType::Number {
        match decimal_bits(text) {
            None => None,
            Some(b) => Some((p, emit_constant(c, Value::Number(b)))),
        }
    } else if kind == TokenType::True {
        Some((p, emit(c, OpCode::True)))
    } else if kind == TokenType::False {
        Some((p, emit(c, OpCode::False)))
    } else if kind == TokenType::Nil {
        Some((p, emit(c, OpCode::Nil)))
    } else {
        Some((p, c))
    }
}

/// Consumes infix operators that bind more strongly than `min`, each with its
/// right operand.
pub open spec fn parse_infix(src: Seq<char>, p: int, min: Precedence, c: Code) -> Option<(int, Code)>
    decreases measure(src, p), 2int,
{
    let k = scan_at(src, p).0;
    if rank(min) < rank(infix_prec(k)) {
        match advance_to(src, p) {
            None => None,
            Some(pa) => if measure(src, pa) < measure(src, p) {
                match parse_binary(src, pa, k, c) {
                    None => None,
                    Some((pb, c2)) => if measure(src, pb) < measure(src, p) {
                        parse_infix(src, pb, min, c2)
                    } else {
                        None
                    },
                }
            } else {
                None
            },
        }
    } else {
        Some((p, c))
    }
}

/// The right operand of the binary operator `k` just consumed, then the
/// operator's instructions.
pub open spec fn parse_binary(src: Seq<char>, p: int, k: TokenType, c: Code) -> Option<(int, Code)>
    decreases measure(src, p) + 1, 0int,
{
    match parse_expr(src, p, one_above(infix_prec(k)), c) {
        None => None,
        Some((pb, c2)) => Some((pb, emit_binary(c2, k))),
    }
}

/// The code compiled from `src` with the first token scanned from `p`: one
/// expression, then the end of the input, then `Return`.
pub open spec fn compile_from(src: Seq<char>, p: int) -> Option<Code> {
    match parse_expr(src, p, Precedence::Assignment, (Seq::empty(), Seq::empty())) {
        None => None,
        Some((pb, c)) => if scan_at(src, pb).0 == TokenType::Eof && advance_to(src, pb) is Some {
            Some(emit(c, OpCode::Return))
        } else {
            None
        },
    }
}

/// The code compiled from the whole of `src`.
pub open spec fn compiled(src: Seq<char>) -> Option<Code> {
    compile_from(src, 0)
}

/// Advancing never makes the measure grow, and past any token but `Eof` it
/// shrinks.
pub proof fn lemma_advance_measure(src: Seq<char>, p: int)
    requires
        0 <= p <= src.len(),
    ensures
        0 <= scan_at(src, p).2 <= src.len(),
        measure(src, scan_at(src, p).2) <= measure(src, p),
        scan_at(src, p).0 != TokenType::Eof ==> measure(src, scan_at(src, p).2) < measure(src, p),
{
    lemma_scan_progress(src, p);
    let pa = scan_at(src, p).2;
    lemma_scan_progress(src, pa);
    if scan_at(src, p).0 == TokenType::Eof {
        lemma_eof_is_sticky(src, p);
    }
}

// ---------------------------------------------------------------------------
// The parser.
// ---------------------------------------------------------------------------

pub type ParseResult<T> = Result<T, String>;

pub struct Parser<'text> {
    scanner: Scanner<'text>,
    chunk: Chunk,
    current: Option<Token<'text>>,
    next: Token<'text>,
    at: Ghost<int>,
}

impl<'text> Parser<'text> {
    /// The source text being compiled.
    pub closed spec fn source(&self) -> Seq<char> {
        self.scanner.source()
    }

    /// The state: the position from which the lookahead token was scanned.
    pub closed spec fn state(&self) -> int {
        self.at@
    }

    pub closed spec fn wf(&self) -> bool {
        let t = scan_at(self.source(), self.at@);
        &&& self.scanner.wf()
        &&& self.chunk.wf()
        &&& constants_in_range(self.chunk@)
        &&& 0 <= self.at@ <= self.source().len()
        &&& self.scanner.position() == t.2
        &&& self.next.token_type == t.0
        &&& self.next.text@ == t.1
    }

    /// The code emitted so far.
    pub closed spec fn code(&self) -> Code {
        self.chunk@
    }

    /// A parser over `scanner`, with the first token scanned as lookahead.
    pub fn new(scanner: Scanner<'text>) -> (r: Self)
        requires
            scanner.wf(),
            0 <= scanner.position() <= scanner.source().len(),
        ensures
            r.wf(),
            r.source() == scanner.source(),
            r.state() == scanner.position(),
            r.code() == (Seq::<OpCode>::empty(), Seq::<Value>::empty()),
    {
        let ghost at = scanner.position();
        let mut scanner = scanner;
        let chunk = Chunk::new();
        let next = scanner.scan();
        Self { scanner, chunk, current: None, next, at: Ghost(at) }
    }

    /// Compiles one expression followed by the end of the input.
    pub fn compile(self) -> (r: ParseResult<Chunk>)
        requires
            self.wf(),
            self.code() == (Seq::<OpCode>::empty(), Seq::<Value>::empty()),
        ensures
            match compile_from(self.source(), self.state()) {
                None => r is Err,
                Some(c) => r matches Ok(chunk) && chunk.wf() && chunk@ == c,
            },
            r matches Ok(chunk) ==> constants_in_range(chunk@),
    {
        let mut parser = self;
        match parser.expression() {
            Ok(()) => {},
            Err(e) => return Err(e),
        }
        match parser.consume(TokenType::Eof, "Expected end of expression.") {
            Ok(()) => {},
            Err(e) => return Err(e),
        }
        parser.chunk.push(OpCode::Return, 0);
        Ok(parser.chunk)
    }

    /// Moves the lookahead token into `current` and scans the next one.
    fn advance(&mut self) -> (r: ParseResult<()>)
        requires
            old(self).wf(),
        ensures
            final(self).source() == old(self).source(),
            final(self).code() == old(self).code(),
            match advance_to(old(self).source(), old(self).state()) {
                None => r is Err,
                Some(pa) => r is Ok && final(self).wf() && final(self).state() == pa
                    && final(self).current == Some(old(self).next),
            },
    {
        if self.next.token_type == TokenType::Error {
            return Err("Error token".to_owned());
        }
        let next = self.scanner.scan();
        if next.token_type == TokenType::Error {
            return Err("Error token".to_owned());
        }
        self.current = Some(self.next);
        self.next = next;
        self.at = Ghost(scan_at(self.source(), self.at@).2);
        proof {
            lemma_scan_progress(self.source(), old(self).at@);
        }
        Ok(())
    }

    /// Consumes the lookahead token where it is of kind `token_type`.
    fn consume(&mut self, token_type: TokenType, error_msg: &str) -> (r: ParseResult<()>)
        requires
            old(self).wf(),
        ensures
            final(self).source() == old(self).source(),
            final(self).code() == old(self).code(),
            ({
                let p = old(self).state();
                if scan_at(old(self).source(), p).0 == token_type {
                    match advance_to(old(self).source(), p) {
                        None => r is Err,
                        Some(pa) => r is Ok && final(self).wf() && final(self).state() == pa,
                    }
                } else {
                    r is Err
                }
            }),
    {
        if self.next.token_type == token_type {
            self.advance()
        } else {
            Err(error_msg.to_owned())
        }
    }

    /// The body of a parenthesised expression, and its closing `)`.
    fn grouping(&mut self) -> (r: ParseResult<()>)
        requires
            old(self).wf(),
        ensures
            final(self).source() == old(self).source(),
            match parse_prefix(
                old(self).source(),
                old(self).state(),
                TokenType::LeftParen,
                Seq::empty(),
                old(self).code(),
            ) {
                None => r is Err,
                Some((p, c)) => r is Ok && final(self).wf() && final(self).state() == p
                    && final(self).code() == c,
            },
            r is Ok ==> measure(final(self).source(), final(self).state()) <= measure(
                old(self).source(),
                old(self).state(),
            ),
        decreases measure(old(self).source(), old(self).state()) + 1, 0int,
    {
        match self.expression() {
            Ok(()) => {},
            Err(e) => return Err(e),
        }
        proof {
            lemma_advance_measure(self.source(), self.at@);
        }
        self.consume(TokenType::RightParen, "Expect ')' at end of grouping.")
    }

    /// `true`, `false` or `nil`.
    fn literal(&mut self, token_type: TokenType, line: u32) -> (r: ParseResult<()>)
        requires
            old(self).wf(),
        ensures
            final(self).source() == old(self).source(),
            final(self).state() == old(self).state(),
            final(self).wf(),
            token_type == TokenType::True ==> r is Ok && final(self).code() == emit(
                old(self).code(),
                OpCode::True,
            ),
            token_type == TokenType::False ==> r is Ok && final(self).code() == emit(
                old(self).code(),
                OpCode::False,
            ),
            token_type == TokenType::Nil ==> r is Ok && final(self).code() == emit(
                old(self).code(),
                OpCode::Nil,
            ),
            (token_type != TokenType::True && token_type != TokenType::False && token_type
                != TokenType::Nil) ==> r is Err,
    {
        let op = match token_type {
            TokenType::False => OpCode::False,
            TokenType::Nil => OpCode::Nil,
            TokenType::True => OpCode::True,
            _ => return Err("Token is not a literal.".to_owned()),
        };
        self.chunk.push(op, line);
        Ok(())
    }

    /// The number just consumed, as a constant.
    fn number(&mut self) -> (r: ParseResult<()>)
        requires
            old(self).wf(),
            old(self).current is Some,
        ensures
            final(self).source() == old(self).source(),
            final(self).state() == old(self).state(),
            final(self).wf(),
            match decimal_bits(old(self).current->0.text@) {
                None => r is Err,
                Some(b) => r is Ok && final(self).code() == emit_constant(
                    old(self).code(),
                    Value::Number(b),
                ),
            },
    {
        let text = match self.current {
            Some(t) => t.text,
            None => return Err("number: no current".to_owned()),
        };
        let value = match parse_decimal(text) {
            Some(b) => Value::Number(b),
            None => return Err("number: current can't be parsed to f64".to_owned()),
        };
        self.chunk.push_constant(value, 0);
        Ok(())
    }

    /// `-` or `!` and its operand.
    fn unary(&mut self, token_type: TokenType) -> (r: ParseResult<()>)
        requires
            old(self).wf(),
            token_type == TokenType::Minus || token_type == TokenType::Bang,
        ensures
            final(self).source() == old(self).source(),
            match parse_prefix(
                old(self).source(),
                old(self).state(),
                token_type,
                Seq::empty(),
                old(self).code(),
            ) {
                None => r is Err,
                Some((p, c)) => r is Ok && final(self).wf() && final(self).state() == p
                    && final(self).code() == c,
            },
            r is Ok ==> measure(final(self).source(), final(self).state()) <= measure(
                old(self).source(),
                old(self).state(),
            ),
        decreases measure(old(self).source(), old(self).state()) + 1, 0int,
    {
        match self.parse_higher_precedence(Precedence::Unary) {
            Ok(()) => {},
            Err(e) => return Err(e),
        }
        match token_type {
            TokenType::Bang => self.chunk.push(OpCode::Not, 0),
            _ => self.chunk.push(OpCode::Negate, 0),
        }
        Ok(())
    }

    /// The right operand of the binary operator `token_type`, then its
    /// instructions.
    fn binary(&mut self, token_type: TokenType, precedence: Precedence, line: u32) -> (r:
        ParseResult<()>)
        requires
            old(self).wf(),
            precedence == infix_prec(token_type),
            precedence != Precedence::Lowest,
        ensures
            final(self).source() == old(self).source(),
            match parse_binary(old(self).source(), old(self).state(), token_type, old(self).code()) {
                None => r is Err,
                Some((p, c)) => r is Ok && final(self).wf() && final(self).state() == p
                    && final(self).code() == c,
            },
            r is Ok ==> measure(final(self).source(), final(self).state()) <= measure(
                old(self).source(),
                old(self).state(),
            ),
        decreases measure(old(self).source(), old(self).state()) + 1, 0int,
    {
        match self.parse_higher_precedence(precedence.increment()) {
            Ok(()) => {},
            Err(e) => return Err(e),
        }
        match token_type {
            TokenType::Plus => self.chunk.push(OpCode::Add, line),
            TokenType::Minus => self.chunk.push(OpCode::Subtract, line),
            TokenType::Star => self.chunk.push(OpCode::Multiply, line),
            TokenType::Slash => self.chunk.push(OpCode::Divide, line),
            TokenType::BangEqual => {
                self.chunk.push(OpCode::Equal, line);
                self.chunk.push(OpCode::Not, line);
            },
            TokenType::EqualEqual => self.chunk.push(OpCode::Equal, line),
            TokenType::Greater => self.chunk.push(OpCode::Greater, line),
            TokenType::GreaterEqual => {
                self.chunk.push(OpCode::Less, line);
                self.chunk.push(OpCode::Not, line);
            },
            TokenType::Less => self.chunk.push(OpCode::Less, line),
            TokenType::LessEqual => {
                self.chunk.push(OpCode::Greater, line);
                self.chunk.push(OpCode::Not, line);
            },
            _ => return Err("Token is not a binary operation.".to_owned()),
        };
        Ok(())
    }

    /// Runs the prefix rule of the token just consumed.
    fn apply_prefix_fn(&mut self, token_type: TokenType) -> (r: ParseResult<()>)
        requires
            old(self).wf(),
            has_prefix(token_type),
            old(self).current matches Some(t) && t.token_type == token_type,
        ensures
            final(self).source() == old(self).source(),
            match parse_prefix(
                old(self).source(),
                old(self).state(),
                token_type,
                old(self).current->0.text@,
                old(self).code(),
            ) {
                None => r is Err,
                Some((p, c)) => r is Ok && final(self).wf() && final(self).state() == p
                    && final(self).code() == c,
            },
            r is Ok ==> measure(final(self).source(), final(self).state()) <= measure(
                old(self).source(),
                old(self).state(),
            ),
        decreases measure(old(self).source(), old(self).state()) + 1, 1int,
    {
        match token_type {
            TokenType::LeftParen => self.grouping(),
            TokenType::Minus | TokenType::Bang => self.unary(token_type),
            TokenType::Number => self.number(),
            _ => self.literal(token_type, 0),
        }
    }

    /// Runs the infix rule of the operator just consumed.
    fn apply_infix_fn(&mut self, token_type: TokenType) -> (r: ParseResult<()>)
        requires
            old(self).wf(),
            infix_prec(token_type) != Precedence::Lowest,
        ensures
            final(self).source() == old(self).source(),
            match parse_binary(old(self).source(), old(self).state(), token_type, old(self).code()) {
                None => r is Err,
                Some((p, c)) => r is Ok && final(self).wf() && final(self).state() == p
                    && final(self).code() == c,
            },
            r is Ok ==> measure(final(self).source(), final(self).state()) <= measure(
                old(self).source(),
                old(self).state(),
            ),
        decreases measure(old(self).source(), old(self).state()) + 1, 1int,
    {
        let precedence = token_type.infix_precedence();
        self.binary(token_type, precedence, 0)
    }

    /// Parses an expression whose operators bind more strongly than
    /// `precedence`.
    #[verifier::rlimit(40)]
    fn parse_higher_precedence(&mut self, precedence: Precedence) -> (r: ParseResult<()>)
        requires
            old(self).wf(),
        ensures
            final(self).source() == old(self).source(),
            match parse_expr(old(self).source(), old(self).state(), precedence, old(self).code()) {
                None => r is Err,
                Some((p, c)) => r is Ok && final(self).wf() && final(self).state() == p
                    && final(self).code() == c,
            },
            r is Ok ==> measure(final(self).source(), final(self).state()) <= measure(
                old(self).source(),
                old(self).state(),
            ),
        decreases measure(old(self).source(), old(self).state()), 3int,
    {
        let ghost src = self.source();
        let ghost p_start = self.at@;
        let ghost c0 = self.code();
        proof {
            lemma_advance_measure(src, p_start);
        }
        match self.advance() {
            Ok(()) => {},
            Err(e) => return Err(e),
        }
        let token_type = match self.current {
            Some(t) => t.token_type,
            None => return Err("parse_higher_precedence: no current".to_owned()),
        };
        if token_type == TokenType::LeftParen || token_type == TokenType::Minus || token_type
            == TokenType::Bang || token_type == TokenType::Number || token_type
            == TokenType::True || token_type == TokenType::False || token_type
            == TokenType::Nil {
            match self.apply_prefix_fn(token_type) {
                Ok(()) => {},
                Err(e) => return Err(e),
            }
        }
        let ghost goal = parse_expr(src, p_start, precedence, c0);
        assert(goal == parse_infix(src, self.at@, precedence, self.code()));
        loop
            invariant
                self.wf(),
                self.source() == src,
                src == old(self).source(),
                p_start == old(self).state(),
                c0 == old(self).code(),
                goal == parse_expr(src, p_start, precedence, c0),
                measure(src, self.at@) <= measure(src, p_start),
                parse_infix(src, self.at@, precedence, self.code()) == goal,
            decreases measure(src, self.at@),
        {
            let next_precedence = self.next.token_type.infix_precedence();
            if precedence.rank() >= next_precedence.rank() {
                return Ok(());
            }
            let ghost p = self.at@;
            proof {
                lemma_advance_measure(src, p);
            }
            match self.advance() {
                Ok(()) => {},
                Err(e) => return Err(e),
            }
            let token_type = match self.current {
                Some(t) => t.token_type,
                None => return Err("parse_higher_precedence: no current".to_owned()),
            };
            match self.apply_infix_fn(token_type) {
                Ok(()) => {},
                Err(e) => return Err(e),
            }
        }
    }

    /// A whole expression.
    fn expression(&mut self) -> (r: ParseResult<()>)
        requires
            old(self).wf(),
        ensures
            final(self).source() == old(self).source(),
            match parse_expr(
                old(self).source(),
                old(self).state(),
                Precedence::Assignment,
                old(self).code(),
            ) {
                None => r is Err,
                Some((p, c)) => r is Ok && final(self).wf() && final(self).state() == p
                    && final(self).code() == c,
            },
            r is Ok ==> measure(final(self).source(), final(self).state()) <= measure(
                old(self).source(),
                old(self).state(),
            ),
        decreases measure(old(self).source(), old(self).state()), 4int,
    {
        self.parse_higher_precedence(Precedence::Assignment)
    }
}

/// Compiles a whole source text to a chunk, or reports the first error.
pub fn compile(source: &str) -> (r: ParseResult<Chunk>)
    ensures
        match compiled(source@) {
            None => r is Err,
            Some(c) => r matches Ok(chunk) && chunk.wf() && chunk@ == c,
        },
        r matches Ok(chunk) ==> constants_in_range(chunk@),
{
    let scanner = Scanner::new(source);
    let parser = Parser::new(scanner);
    parser.compile()
}

} // verus!

verus! {

/// Compiling is deterministic: equal source texts compile to the same
/// instructions and the same constants, or both fail.
pub proof fn lemma_compile_deterministic(a: Seq<char>, b: Seq<char>)
    requires
        a == b,
    ensures
        compiled(a) == compiled(b),
{
}

} // verus!
