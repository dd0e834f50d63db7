//! Runtime values. A number is kept as the bit pattern of an IEEE 754
//! binary64 value: comparing, testing and negating it are exact rules on
//! those bits; the four arithmetic operators are computed by the caller of
//! the machine.
use vstd::prelude::*;

use std::rc::Rc;

use crate::opcode::Obj;

verus! {

pub const SIGN_BIT: u64 = 0x8000_0000_0000_0000;

pub const MAGNITUDE_BITS: u64 = 0x7fff_ffff_ffff_ffff;

pub const EXPONENT_BITS: u64 = 0x7ff0_0000_0000_0000;

pub const FRACTION_BITS: u64 = 0x000f_ffff_ffff_ffff;

/// A number of the language, as the bits of a binary64 value.
#[derive(Debug, PartialEq, Eq, Structural, Copy, Clone)]
pub struct Number {
    pub bits: u64,
}

pub open spec fn is_nan_bits(b: u64) -> bool {
    b & EXPONENT_BITS == EXPONENT_BITS && b & FRACTION_BITS != 0
}

/// The position of a non-NaN value on the number line, as an integer that
/// orders the values as they compare: both zeros map to 0.
pub open spec fn order_key(b: u64) -> int {
    if b & SIGN_BIT != 0 {
        -((b & MAGNITUDE_BITS) as int)
    } else {
        (b & MAGNITUDE_BITS) as int
    }
}

/// `a == b` on binary64 values: never for a NaN, and `-0 == +0`.
pub open spec fn num_equal(a: u64, b: u64) -> bool {
    !is_nan_bits(a) && !is_nan_bits(b) && order_key(a) == order_key(b)
}

/// `a < b` on binary64 values: never for a NaN.
pub open spec fn num_less(a: u64, b: u64) -> bool {
    !is_nan_bits(a) && !is_nan_bits(b) && order_key(a) < order_key(b)
}

/// A number is truthy when it is not a zero.
pub open spec fn num_truthy(b: u64) -> bool {
    b & MAGNITUDE_BITS != 0
}

impl Number {
    pub fn is_nan(self) -> (r: bool)
        ensures
            r == is_nan_bits(self.bits),
    {
        self.bits & EXPONENT_BITS == EXPONENT_BITS && self.bits & FRACTION_BITS != 0
    }

    pub fn equals(self, other: Number) -> (r: bool)
        ensures
            r == num_equal(self.bits, other.bits),
    {
        if self.is_nan() || other.is_nan() {
            return false;
        }
        let ma = self.bits & MAGNITUDE_BITS;
        let mb = other.bits & MAGNITUDE_BITS;
        let sa = self.bits & SIGN_BIT != 0;
        let sb = other.bits & SIGN_BIT != 0;
        if sa == sb {
            ma == mb
        } else {
            ma == 0 && mb == 0
        }
    }

    pub fn less_than(self, other: Number) -> (r: bool)
        ensures
            r == num_less(self.bits, other.bits),
    {
        if self.is_nan() || other.is_nan() {
            return false;
        }
        let ma = self.bits & MAGNITUDE_BITS;
        let mb = other.bits & MAGNITUDE_BITS;
        let sa = self.bits & SIGN_BIT != 0;
        let sb = other.bits & SIGN_BIT != 0;
        if sa && sb {
            mb < ma
        } else if sa {
            !(ma == 0 && mb == 0)
        } else if sb {
            false
        } else {
            ma < mb
        }
    }

    pub fn is_truthy(self) -> (r: bool)
        ensures
            r == num_truthy(self.bits),
    {
        self.bits & MAGNITUDE_BITS != 0
    }

    /// The number of opposite sign.
    pub fn negate(self) -> (r: Number)
        ensures
            r.bits == self.bits ^ SIGN_BIT,
    {
        Number { bits: self.bits ^ SIGN_BIT }
    }
}

/// A value on the machine's stack.
#[derive(Debug)]
pub enum Value {
    Number(Number),
    Bool(bool),
    Object(Rc<Obj>),
    Nil,
}

/// The text of a string value.
pub open spec fn text_of(v: Value) -> Option<Seq<char>> {
    match v {
        Value::Object(o) => match *o {
            Obj::String { str } => Some(str@),
        },
        _ => None,
    }
}

/// Nil is false, a bool is itself, a number is true unless zero, an object
/// is true.
pub open spec fn truthy(v: Value) -> bool {
    match v {
        Value::Nil => false,
        Value::Bool(b) => b,
        Value::Number(n) => num_truthy(n.bits),
        Value::Object(_) => true,
    }
}

/// Equality of the language: same variant and same contents.
pub open spec fn values_equal(a: Value, b: Value) -> bool {
    match (a, b) {
        (Value::Number(x), Value::Number(y)) => num_equal(x.bits, y.bits),
        (Value::Bool(x), Value::Bool(y)) => x == y,
        (Value::Nil, Value::Nil) => true,
        (Value::Object(_), Value::Object(_)) => text_of(a) == text_of(b),
        _ => false,
    }
}

impl Value {
    pub fn is_number(&self) -> (r: bool)
        ensures
            r == (*self is Number),
    {
        matches!(self, Value::Number(_))
    }

    pub fn is_string(&self) -> (r: bool)
        ensures
            r == text_of(*self).is_some(),
    {
        match self {
            Value::Object(o) => o.is_string(),
            _ => false,
        }
    }

    pub fn is_bool(&self) -> (r: bool)
        ensures
            r == (*self is Bool),
    {
        matches!(self, Value::Bool(_))
    }

    pub fn is_truthy(&self) -> (r: bool)
        ensures
            r == truthy(*self),
    {
        match self {
            Value::Nil => false,
            Value::Bool(b) => *b,
            Value::Number(n) => n.is_truthy(),
            Value::Object(_) => true,
        }
    }

    pub fn is_nil(&self) -> (r: bool)
        ensures
            r == (*self is Nil),
    {
        matches!(self, Value::Nil)
    }

    pub fn as_number(&self) -> (r: Number)
        requires
            *self is Number,
        ensures
            *self == Value::Number(r),
    {
        match self {
            Value::Number(n) => *n,
            _ => Number { bits: 0 },
        }
    }

    pub fn as_string(&self) -> (r: &str)
        requires
            text_of(*self).is_some(),
        ensures
            text_of(*self) == Some(r@),
    {
        match self {
            Value::Object(o) => o.as_string(),
            _ => "",
        }
    }

    pub fn as_bool(&self) -> (r: bool)
        requires
            *self is Bool,
        ensures
            *self == Value::Bool(r),
    {
        match self {
            Value::Bool(b) => *b,
            _ => false,
        }
    }

    pub fn as_nil(&self)
        requires
            *self is Nil,
    {
    }

    /// Equality of the language (see `values_equal`).
    pub fn equals(&self, other: &Value) -> (r: bool)
        ensures
            r == values_equal(*self, *other),
    {
        match (self, other) {
            (Value::Number(x), Value::Number(y)) => x.equals(*y),
            (Value::Bool(x), Value::Bool(y)) => *x == *y,
            (Value::Nil, Value::Nil) => true,
            (Value::Object(x), Value::Object(y)) => {
                let a = x.as_string();
                let b = y.as_string();
                crate::compiler::same_text(a, b)
            },
            _ => false,
        }
    }

    /// Another value of the same contents; an object is shared, not copied.
    pub fn duplicate(&self) -> (r: Value)
        ensures
            r == *self,
    {
        match self {
            Value::Number(n) => Value::Number(*n),
            Value::Bool(b) => Value::Bool(*b),
            Value::Object(o) => Value::Object(Rc::clone(o)),
            Value::Nil => Value::Nil,
        }
    }
}

/// Values of different variants are never equal, whatever they hold.
pub proof fn lemma_equality_across_variants(a: Value, b: Value)
    requires
        !(a is Number && b is Number),
        !(a is Bool && b is Bool),
        !(a is Nil && b is Nil),
        !(a is Object && b is Object),
    ensures
        !values_equal(a, b),
{
}

} // verus!
