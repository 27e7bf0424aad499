use vstd::prelude::*;

use crate::error::Error;

verus! {

/// A runtime value: a signed 64-bit integer or a 64-bit float.
///
/// There is no implicit conversion between the two variants. The float
/// payload is carried as its IEEE 754 bit pattern: the library stores and
/// moves float values, but all float computation stays outside of it.
#[derive(Debug, Clone, Copy, PartialEq, Eq, Structural)]
pub enum Value {
    Int(i64),
    Float(u64),
}

impl Value {
    /// Checked conversion to an integer; a float payload is refused.
    pub fn try_int(self) -> (r: Result<i64, Error>)
        ensures
            self matches Value::Int(i) ==> r == Ok::<i64, Error>(i),
            self matches Value::Float(_) ==> r == Err::<i64, Error>(Error::InvalidType),
    {
        match self {
            Value::Int(i) => Ok(i),
            Value::Float(_) => Err(Error::InvalidType),
        }
    }

    /// Checked conversion to a float bit pattern; an integer payload is
    /// refused.
    pub fn try_float_bits(self) -> (r: Result<u64, Error>)
        ensures
            self matches Value::Float(b) ==> r == Ok::<u64, Error>(b),
            self matches Value::Int(_) ==> r == Err::<u64, Error>(Error::InvalidType),
    {
        match self {
            Value::Float(b) => Ok(b),
            Value::Int(_) => Err(Error::InvalidType),
        }
    }
}

} // verus!
