//! The operand stack of the virtual machine.
use crate::value::Value;
use std::slice::Iter;
use vstd::prelude::*;
use vstd::std_specs::iter::IteratorSpec;

verus! {

broadcast use vstd::std_specs::slice::axiom_spec_slice_iter;

pub struct Stack {
    vec: Vec<Value>,
}

impl View for Stack {
    type V = Seq<Value>;

    /// The values from the bottom of the stack to its top.
    closed spec fn view(&self) -> Seq<Value> {
        self.vec@
    }
}

impl Stack {
    pub fn new() -> (r: Self)
        ensures
            r@ == Seq::<Value>::empty(),
    {
        Stack { vec: Vec::new() }
    }

    /// The values from the bottom of the stack to its top.
    pub fn iter(&self) -> (r: Iter<'_, Value>)
        ensures
            r.remaining().len() == self@.len(),
            forall|i: int| 0 <= i < self@.len() ==> *r.remaining()[i] == self@[i],
    {
        self.vec.as_slice().iter()
    }

    pub fn len(&self) -> (r: usize)
        ensures
            r == self@.len(),
    {
        self.vec.len()
    }

    pub fn push(&mut self, value: Value)
        ensures
            final(self)@ == old(self)@.push(value),
    {
        self.vec.push(value);
    }

    /// Removes and returns the top value; `None` on an empty stack.
    pub fn pop(&mut self) -> (r: Option<Value>)
        ensures
            old(self)@.len() > 0 ==> r == Some(old(self)@.last()) && final(self)@ == old(
                self,
            )@.drop_last(),
            old(self)@.len() == 0 ==> r is None && final(self)@ == old(self)@,
    {
        self.vec.pop()
    }
}

} // verus!
