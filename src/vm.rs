//! The bytecode instruction set and the stack machine that runs it.
use crate::float::{
    add_bits, div_bits, float_lt, float_neg, ieee_difference, ieee_product, ieee_quotient,
    ieee_sum, lt_bits, mul_bits, negate_bits, sub_bits,
};
use crate::parser::{compile, compiled, Chunk, Code, ConstantIdx};
use crate::stack::Stack;
use crate::value::{falsey, values_eq, values_equal, Value};
use vstd::prelude::*;

verus! {

/// One bytecode instruction.
#[derive(Debug, Copy, Clone, PartialEq, Eq, Structural)]
pub enum OpCode {
    /// Does nothing.
    Nop,
    Return,
    Constant(ConstantIdx),
    Nil,
    True,
    False,
    Negate,
    Not,
    Add,
    Subtract,
    Multiply,
    Divide,
    Equal,
    Greater,
    Less,
}

} // verus!

verus! {

#[derive(Debug)]
pub enum InterpretError {
    RuntimeError(String),
}

pub type InterpretResult = Result<(), InterpretError>;

/// What one instruction does to the operand stack.
pub enum Transition {
    /// Execution goes on with this stack.
    Continue(Seq<Value>),
    /// Execution ends with this result.
    Finish(Value),
    /// Execution stops with a runtime error.
    Fault,
}

/// Pops the two operands of a binary instruction (the right one is on top)
/// and pushes what `f` makes of them, or faults on a short stack.
pub open spec fn binary_step(stack: Seq<Value>, f: spec_fn(Value, Value) -> Option<Value>) -> Transition {
    if stack.len() < 2 {
        Transition::Fault
    } else {
        let left = stack[stack.len() - 2];
        let right = stack[stack.len() - 1];
        match f(left, right) {
            Some(v) => Transition::Continue(stack.subrange(0, stack.len() - 2).push(v)),
            None => Transition::Fault,
        }
    }
}

/// Arithmetic on two numbers; anything else is a type error.
pub open spec fn arithmetic(op: OpCode, left: Value, right: Value) -> Option<Value> {
    match (left, right) {
        (Value::Number(a), Value::Number(b)) => Some(
            Value::Number(
                match op {
                    OpCode::Add => ieee_sum(a, b),
                    OpCode::Subtract => ieee_difference(a, b),
                    OpCode::Multiply => ieee_product(a, b),
                    _ => ieee_quotient(a, b),
                },
            ),
        ),
        _ => None,
    }
}

/// `left > right` (`greater`) or `left < right`; false unless both are numbers.
pub open spec fn ordered(greater: bool, left: Value, right: Value) -> bool {
    match (left, right) {
        (Value::Number(a), Value::Number(b)) => if greater {
            float_lt(b, a)
        } else {
            float_lt(a, b)
        },
        _ => false,
    }
}

/// The effect of instruction `op` on `stack`, with `constants` as the pool.
pub open spec fn step(constants: Seq<Value>, op: OpCode, stack: Seq<Value>) -> Transition {
    match op {
        OpCode::Nop => Transition::Continue(stack),
        OpCode::Return => if stack.len() > 0 {
            Transition::Finish(stack.last())
        } else {
            Transition::Fault
        },
        OpCode::Constant(idx) => if idx.0 < constants.len() {
            Transition::Continue(stack.push(constants[idx.0 as int]))
        } else {
            Transition::Fault
        },
        OpCode::Nil => Transition::Continue(stack.push(Value::Nil)),
        OpCode::True => Transition::Continue(stack.push(Value::Bool(true))),
        OpCode::False => Transition::Continue(stack.push(Value::Bool(false))),
        OpCode::Negate => if stack.len() > 0 {
            match stack.last() {
                Value::Number(n) => Transition::Continue(
                    stack.drop_last().push(Value::Number(float_neg(n))),
                ),
                _ => Transition::Fault,
            }
        } else {
            Transition::Fault
        },
        OpCode::Not => if stack.len() > 0 {
            Transition::Continue(stack.drop_last().push(Value::Bool(falsey(stack.last()))))
        } else {
            Transition::Fault
        },
        OpCode::Add | OpCode::Subtract | OpCode::Multiply | OpCode::Divide => binary_step(
            stack,
            |l: Value, r: Value| arithmetic(op, l, r),
        ),
        OpCode::Equal => binary_step(
            stack,
            |l: Value, r: Value| Some(Value::Bool(values_equal(l, r))),
        ),
        OpCode::Greater => binary_step(
            stack,
            |l: Value, r: Value| Some(Value::Bool(ordered(true, l, r))),
        ),
        OpCode::Less => binary_step(
            stack,
            |l: Value, r: Value| Some(Value::Bool(ordered(false, l, r))),
        ),
    }
}

/// The result of running `code` from instruction `ip` with `stack`: the value
/// that `Return` pops, or `None` on a runtime error, including running past
/// the last instruction.
pub open spec fn run(code: Code, ip: int, stack: Seq<Value>) -> Option<Value>
    decreases code.0.len() - ip,
{
    if ip < 0 || ip >= code.0.len() {
        None
    } else {
        match step(code.1, code.0[ip], stack) {
            Transition::Continue(next) => run(code, ip + 1, next),
            Transition::Finish(v) => Some(v),
            Transition::Fault => None,
        }
    }
}

/// The result of executing a whole chunk.
pub open spec fn executed(code: Code) -> Option<Value> {
    run(code, 0, Seq::empty())
}

/// A virtual machine that runs one chunk.
pub struct Vm {
    chunk: Chunk,
    ip: usize,
    stack: Stack,
}

impl Vm {
    pub closed spec fn code(&self) -> Code {
        self.chunk@
    }

    pub closed spec fn outcome(&self) -> Option<Value> {
        run(self.chunk@, self.ip as int, self.stack@)
    }

    pub fn new(chunk: Chunk) -> (r: Self)
        ensures
            r.code() == chunk@,
            r.outcome() == executed(chunk@),
    {
        Vm { chunk, ip: 0, stack: Stack::new() }
    }

    /// Runs the chunk to its `Return`, and yields the value returned.
    pub fn interpret(self) -> (r: Result<Value, InterpretError>)
        ensures
            match self.outcome() {
                Some(v) => r matches Ok(x) && x == v,
                None => r is Err,
            },
    {
        let mut vm = self;
        let ghost goal = vm.outcome();
        loop
            invariant
                vm.outcome() == goal,
                goal == self.outcome(),
                vm.code() == self.code(),
            decreases vm.chunk@.0.len() - vm.ip,
        {
            if vm.ip >= vm.chunk.len() {
                return Err(InterpretError::RuntimeError("Ran past the end of the chunk".to_owned()));
            }
            let ghost ip0 = vm.ip as int;
            let ghost st0 = vm.stack@;
            let op = vm.read_byte();
            assert(goal == match step(vm.chunk@.1, op, st0) {
                Transition::Continue(next) => run(vm.chunk@, ip0 + 1, next),
                Transition::Finish(v) => Some(v),
                Transition::Fault => None,
            });
            let done = match op {
                OpCode::Nop => Ok(()),
                OpCode::Return => return vm.ret(),
                OpCode::Constant(constant_idx) => {
                    if constant_idx.0 < vm.chunk.constant_count() {
                        let constant = vm.chunk.get_constant(constant_idx);
                        vm.stack.push(constant);
                        Ok(())
                    } else {
                        Self::runtime_error("Constant index out of range".to_owned())
                    }
                },
                OpCode::Nil => {
                    vm.stack.push(Value::Nil);
                    Ok(())
                },
                OpCode::True => {
                    vm.stack.push(Value::Bool(true));
                    Ok(())
                },
                OpCode::False => {
                    vm.stack.push(Value::Bool(false));
                    Ok(())
                },
                OpCode::Negate => vm.negate(),
                OpCode::Not => vm.not(),
                OpCode::Add | OpCode::Subtract | OpCode::Multiply | OpCode::Divide => vm.binary(op),
                OpCode::Equal => vm.equal(),
                OpCode::Greater => vm.greater(),
                OpCode::Less => vm.less(),
            };
            match done {
                Ok(()) => {},
                Err(e) => return Err(e),
            }
        }
    }

    fn runtime_error(msg: String) -> (r: InterpretResult)
        ensures
            r is Err,
    {
        Err(InterpretError::RuntimeError(msg))
    }

    /// Fetches the instruction at `ip` and moves past it.
    fn read_byte(&mut self) -> (r: OpCode)
        requires
            old(self).ip < old(self).chunk@.0.len(),
        ensures
            r == old(self).chunk@.0[old(self).ip as int],
            final(self).ip == old(self).ip + 1,
            final(self).chunk == old(self).chunk,
            final(self).stack@ == old(self).stack@,
    {
        let op = self.chunk.get_opcode(self.ip);
        let n = self.chunk.len();
        self.ip = self.ip + 1;
        op
    }

    fn negate(&mut self) -> (r: InterpretResult)
        ensures
            final(self).chunk == old(self).chunk,
            final(self).ip == old(self).ip,
            match step(old(self).chunk@.1, OpCode::Negate, old(self).stack@) {
                Transition::Continue(s) => r is Ok && final(self).stack@ == s,
                _ => r is Err,
            },
    {
        let operand = match self.stack.pop() {
            Some(v) => v,
            None => return Self::runtime_error("Negate called without value on stack".to_owned()),
        };
        match operand {
            Value::Number(n) => self.stack.push(Value::Number(negate_bits(n))),
            _ => {
                return Self::runtime_error("Value to be negated is not a number".to_owned());
            },
        }
        Ok(())
    }

    fn not(&mut self) -> (r: InterpretResult)
        ensures
            final(self).chunk == old(self).chunk,
            final(self).ip == old(self).ip,
            match step(old(self).chunk@.1, OpCode::Not, old(self).stack@) {
                Transition::Continue(s) => r is Ok && final(self).stack@ == s,
                _ => r is Err,
            },
    {
        let operand = match self.stack.pop() {
            Some(v) => v,
            None => return Self::runtime_error(
                "Boolean Not called without value on stack".to_owned(),
            ),
        };
        let result = Value::Bool(operand.is_falsey());
        self.stack.push(result);
        Ok(())
    }

    /// Pops the two operands of a binary instruction: left, then right.
    fn pop_operands(&mut self) -> (r: Option<(Value, Value)>)
        ensures
            final(self).chunk == old(self).chunk,
            final(self).ip == old(self).ip,
            ({
                let s = old(self).stack@;
                if s.len() >= 2 {
                    r == Some((s[s.len() - 2], s[s.len() - 1])) && final(self).stack@ == s.subrange(
                        0,
                        s.len() - 2,
                    )
                } else {
                    r is None
                }
            }),
    {
        let second = match self.stack.pop() {
            Some(v) => v,
            None => return None,
        };
        let first = match self.stack.pop() {
            Some(v) => v,
            None => return None,
        };
        proof {
            let s = old(self).stack@;
            assert(s.drop_last().drop_last() =~= s.subrange(0, s.len() - 2));
        }
        Some((first, second))
    }

    fn equal(&mut self) -> (r: InterpretResult)
        ensures
            final(self).chunk == old(self).chunk,
            final(self).ip == old(self).ip,
            match step(old(self).chunk@.1, OpCode::Equal, old(self).stack@) {
                Transition::Continue(s) => r is Ok && final(self).stack@ == s,
                _ => r is Err,
            },
    {
        let (first, second) = match self.pop_operands() {
            Some(p) => p,
            None => return Self::runtime_error(
                "Binary operation called without two operands".to_owned(),
            ),
        };
        let result = Value::Bool(values_eq(&first, &second));
        self.stack.push(result);
        Ok(())
    }

    fn greater(&mut self) -> (r: InterpretResult)
        ensures
            final(self).chunk == old(self).chunk,
            final(self).ip == old(self).ip,
            match step(old(self).chunk@.1, OpCode::Greater, old(self).stack@) {
                Transition::Continue(s) => r is Ok && final(self).stack@ == s,
                _ => r is Err,
            },
    {
        let (first, second) = match self.pop_operands() {
            Some(p) => p,
            None => return Self::runtime_error(
                "Binary operation called without two operands".to_owned(),
            ),
        };
        let result = match (first, second) {
            (Value::Number(first), Value::Number(second)) => lt_bits(second, first),
            _ => false,
        };
        self.stack.push(Value::Bool(result));
        Ok(())
    }

    fn less(&mut self) -> (r: InterpretResult)
        ensures
            final(self).chunk == old(self).chunk,
            final(self).ip == old(self).ip,
            match step(old(self).chunk@.1, OpCode::Less, old(self).stack@) {
                Transition::Continue(s) => r is Ok && final(self).stack@ == s,
                _ => r is Err,
            },
    {
        let (first, second) = match self.pop_operands() {
            Some(p) => p,
            None => return Self::runtime_error(
                "Binary operation called without two operands".to_owned(),
            ),
        };
        let result = match (first, second) {
            (Value::Number(first), Value::Number(second)) => lt_bits(first, second),
            _ => false,
        };
        self.stack.push(Value::Bool(result));
        Ok(())
    }

    /// One of the four arithmetic instructions.
    fn binary(&mut self, op: OpCode) -> (r: InterpretResult)
        requires
            op == OpCode::Add || op == OpCode::Subtract || op == OpCode::Multiply || op
                == OpCode::Divide,
        ensures
            final(self).chunk == old(self).chunk,
            final(self).ip == old(self).ip,
            match step(old(self).chunk@.1, op, old(self).stack@) {
                Transition::Continue(s) => r is Ok && final(self).stack@ == s,
                _ => r is Err,
            },
    {
        let (first, second) = match self.pop_operands() {
            Some(p) => p,
            None => return Self::runtime_error(
                "Binary operation called without two operands".to_owned(),
            ),
        };
        match (first, second) {
            (Value::Number(first), Value::Number(second)) => {
                let result = match op {
                    OpCode::Add => add_bits(first, second),
                    OpCode::Subtract => sub_bits(first, second),
                    OpCode::Multiply => mul_bits(first, second),
                    _ => div_bits(first, second),
                };
                self.stack.push(Value::Number(result));
            },
            _ => {
                return Self::runtime_error(
                    "Values to be binary operated are not both numbers".to_owned(),
                );
            },
        }
        Ok(())
    }

    /// Pops the result.
    fn ret(&mut self) -> (r: Result<Value, InterpretError>)
        ensures
            match step(old(self).chunk@.1, OpCode::Return, old(self).stack@) {
                Transition::Finish(v) => r matches Ok(x) && x == v,
                _ => r is Err,
            },
    {
        match self.stack.pop() {
            Some(v) => Ok(v),
            None => Err(InterpretError::RuntimeError("Returned with no value on the stack".to_owned())),
        }
    }
}

/// Compiles `source` and runs the result.
pub fn interpret_source(source: &str) -> (r: Result<Value, String>)
    ensures
        match compiled(source@) {
            None => r is Err,
            Some(c) => match executed(c) {
                Some(v) => r matches Ok(x) && x == v,
                None => r is Err,
            },
        },
{
    let chunk = match compile(source) {
        Ok(c) => c,
        Err(e) => return Err(e),
    };
    match Vm::new(chunk).interpret() {
        Ok(v) => Ok(v),
        Err(InterpretError::RuntimeError(msg)) => Err(msg),
    }
}

} // verus!

verus! {

/// Type errors are found only when an instruction runs: arithmetic on two
/// operands that are not both numbers stops execution with a runtime error,
/// as does negating anything but a number.
pub proof fn lemma_type_errors_are_dynamic(
    constants: Seq<Value>,
    stack: Seq<Value>,
    op: OpCode,
    left: Value,
    right: Value,
)
    requires
        op == OpCode::Add || op == OpCode::Subtract || op == OpCode::Multiply || op
            == OpCode::Divide,
        !(left is Number && right is Number),
    ensures
        step(constants, op, stack.push(left).push(right)) is Fault,
        !(right is Number) ==> step(constants, OpCode::Negate, stack.push(right)) is Fault,
{
    let s = stack.push(left).push(right);
    assert(s[s.len() - 2] == left);
    assert(s[s.len() - 1] == right);
}

} // verus!
