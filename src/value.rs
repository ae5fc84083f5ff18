//! Runtime values of the language.
use crate::float::{eq_bits, float_eq};
use vstd::prelude::*;

verus! {

/// A value: `nil`, a number held as its IEEE-754 bits, or a boolean.
#[derive(Debug, Copy, Clone)]
pub enum Value {
    Nil,
    Number(u64),
    Bool(bool),
}

/// Structural equality, numbers compared as IEEE-754 numbers; values of
/// different variants are never equal.
pub open spec fn values_equal(a: Value, b: Value) -> bool {
    match (a, b) {
        (Value::Nil, Value::Nil) => true,
        (Value::Number(x), Value::Number(y)) => float_eq(x, y),
        (Value::Bool(x), Value::Bool(y)) => x == y,
        _ => false,
    }
}

/// `nil` and `false` are falsey; everything else, `0` included, is truthy.
pub open spec fn falsey(v: Value) -> bool {
    v is Nil || v == Value::Bool(false)
}

impl Value {
    pub fn is_falsey(&self) -> (r: bool)
        ensures
            r == falsey(*self),
    {
        match self {
            Value::Nil => true,
            Value::Bool(b) => !*b,
            Value::Number(_) => false,
        }
    }
}

/// The language's `==` on two values.
pub fn values_eq(a: &Value, b: &Value) -> (r: bool)
    ensures
        r == values_equal(*a, *b),
{
    match (a, b) {
        (Value::Nil, Value::Nil) => true,
        (Value::Number(x), Value::Number(y)) => eq_bits(*x, *y),
        (Value::Bool(x), Value::Bool(y)) => *x == *y,
        _ => false,
    }
}

impl PartialEq for Value {
    fn eq(&self, other: &Value) -> (r: bool) {
        values_eq(self, other)
    }
}

impl vstd::std_specs::cmp::PartialEqSpecImpl for Value {
    open spec fn obeys_eq_spec() -> bool {
        false
    }

    open spec fn eq_spec(&self, other: &Value) -> bool {
        values_equal(*self, *other)
    }
}

} // verus!
