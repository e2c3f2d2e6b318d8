use vstd::prelude::*;

verus! {

/// The kind of a runtime value.
#[derive(Clone, Copy, Debug, PartialEq, Eq, Structural)]
pub enum ValueType {
    Int,
}

/// A runtime datum: the unit held in a block's constant pool and on the
/// machine's operand stack.
#[derive(Clone, Copy, Debug, PartialEq, Eq, Structural)]
pub enum Value {
    Int(i32),
}

impl Value {
    /// An integer value.
    pub fn from_int(n: i32) -> (r: Self)
        ensures
            r == Value::Int(n),
    {
        Value::Int(n)
    }

    /// The kind of this value.
    pub fn value_type(&self) -> (r: ValueType)
        ensures
            (self is Int) <==> (r == ValueType::Int),
    {
        match self {
            Value::Int(_) => ValueType::Int,
        }
    }

    /// The integer that this value holds.
    pub fn as_int(&self) -> (r: i32)
        requires
            self is Int,
        ensures
            *self == Value::Int(r),
    {
        match self {
            Value::Int(i) => *i,
        }
    }
}

} // verus!
