//! The tagged runtime value model and its operator semantics.
//!
//! A [`Value`] is a float (held as its IEEE-754 binary64 encoding), a
//! 64-bit integer, a boolean, nil, or an owned string.  The meaning of every
//! operator is given by the `val_*` specification functions; the executable
//! methods are proved to compute exactly those.
//!
//! Semantics choices, following the language's design:
//! - integer arithmetic is checked: overflow is a reported runtime fault,
//!   never silent wraparound;
//! - mixed integer/float arithmetic promotes the integer to float;
//! - equality never faults: values of incomparable kinds are simply unequal
//!   (after numeric promotion between integers and floats);
//! - ordering (`<`, `>`) is defined for numeric pairs only; ordering any
//!   other kind is a reported runtime fault;
//! - `+` concatenates two strings; a string plus anything else is a fault;
//! - logical not negates booleans, maps nil to false, and (as the language
//!   has always done) negates integers arithmetically.
use crate::error::FaultKind;
use crate::float::{
    f64_add, f64_div, f64_eq, f64_lt, f64_mul, f64_neg, f64_of_int, f64_sub, f64_text, float_add,
    float_div, float_eq, float_lt, float_mul, float_neg, float_of_int, float_sub, float_text,
};
use crate::strings::{i64_text, int_text};
use vstd::prelude::*;

verus! {

/// Mathematical model of a runtime value.
pub enum ValueView {
    Float(u64),
    Int(i64),
    Bool(bool),
    Nil,
    Str(Seq<char>),
}

/// A runtime value.  `Float` carries the IEEE-754 binary64 encoding.
#[derive(Debug)]
pub enum Value {
    Float(u64),
    Int(i64),
    Bool(bool),
    Nil,
    String(String),
}

impl View for Value {
    type V = ValueView;

    open spec fn view(&self) -> ValueView {
        match self {
            Value::Float(b) => ValueView::Float(*b),
            Value::Int(i) => ValueView::Int(*i),
            Value::Bool(b) => ValueView::Bool(*b),
            Value::Nil => ValueView::Nil,
            Value::String(s) => ValueView::Str(s@),
        }
    }
}

impl DeepView for Value {
    type V = ValueView;

    open spec fn deep_view(&self) -> ValueView {
        self.view()
    }
}

impl Clone for Value {
    fn clone(&self) -> (r: Self)
        ensures
            r@ == self@,
    {
        match self {
            Value::Float(b) => Value::Float(*b),
            Value::Int(i) => Value::Int(*i),
            Value::Bool(b) => Value::Bool(*b),
            Value::Nil => Value::Nil,
            Value::String(s) => Value::String(s.clone()),
        }
    }
}

/// Maps an operator result to its model.
pub open spec fn vres(r: Result<Value, FaultKind>) -> Result<ValueView, FaultKind> {
    match r {
        Ok(v) => Ok(v@),
        Err(k) => Err(k),
    }
}

/// Addition: numeric sum with promotion, or string concatenation.
pub open spec fn val_add(a: ValueView, b: ValueView) -> Result<ValueView, FaultKind> {
    match (a, b) {
        (ValueView::Int(x), ValueView::Int(y)) => if i64::MIN <= x + y <= i64::MAX {
            Ok(ValueView::Int((x + y) as i64))
        } else {
            Err(FaultKind::IntOverflow)
        },
        (ValueView::Float(p), ValueView::Float(q)) => Ok(ValueView::Float(float_add(p, q))),
        (ValueView::Int(x), ValueView::Float(q)) => Ok(
            ValueView::Float(float_add(float_of_int(x), q)),
        ),
        (ValueView::Float(p), ValueView::Int(y)) => Ok(
            ValueView::Float(float_add(p, float_of_int(y))),
        ),
        (ValueView::Str(s), ValueView::Str(t)) => Ok(ValueView::Str(s + t)),
        _ => Err(FaultKind::AddType),
    }
}

/// Subtraction: numeric only, with promotion.
pub open spec fn val_sub(a: ValueView, b: ValueView) -> Result<ValueView, FaultKind> {
    match (a, b) {
        (ValueView::Int(x), ValueView::Int(y)) => if i64::MIN <= x - y <= i64::MAX {
            Ok(ValueView::Int((x - y) as i64))
        } else {
            Err(FaultKind::IntOverflow)
        },
        (ValueView::Float(p), ValueView::Float(q)) => Ok(ValueView::Float(float_sub(p, q))),
        (ValueView::Int(x), ValueView::Float(q)) => Ok(
            ValueView::Float(float_sub(float_of_int(x), q)),
        ),
        (ValueView::Float(p), ValueView::Int(y)) => Ok(
            ValueView::Float(float_sub(p, float_of_int(y))),
        ),
        _ => Err(FaultKind::SubType),
    }
}

/// Multiplication: numeric only, with promotion.
pub open spec fn val_mul(a: ValueView, b: ValueView) -> Result<ValueView, FaultKind> {
    match (a, b) {
        (ValueView::Int(x), ValueView::Int(y)) => if i64::MIN <= x * y <= i64::MAX {
            Ok(ValueView::Int((x * y) as i64))
        } else {
            Err(FaultKind::IntOverflow)
        },
        (ValueView::Float(p), ValueView::Float(q)) => Ok(ValueView::Float(float_mul(p, q))),
        (ValueView::Int(x), ValueView::Float(q)) => Ok(
            ValueView::Float(float_mul(float_of_int(x), q)),
        ),
        (ValueView::Float(p), ValueView::Int(y)) => Ok(
            ValueView::Float(float_mul(p, float_of_int(y))),
        ),
        _ => Err(FaultKind::MulType),
    }
}

/// Division: numeric only, with promotion.  Integer division truncates
/// toward zero; dividing by integer zero or overflowing (`i64::MIN / -1`)
/// is a fault.  Float division follows IEEE-754 (a zero divisor gives an
/// infinity or NaN, not a fault).
pub open spec fn val_div(a: ValueView, b: ValueView) -> Result<ValueView, FaultKind> {
    match (a, b) {
        (ValueView::Int(x), ValueView::Int(y)) => if y == 0 {
            Err(FaultKind::DivideByZero)
        } else if x == i64::MIN && y == -1 {
            Err(FaultKind::IntOverflow)
        } else {
            match x.checked_div(y) {
                Some(q) => Ok(ValueView::Int(q)),
                None => Err(FaultKind::IntOverflow),
            }
        },
        (ValueView::Float(p), ValueView::Float(q)) => Ok(ValueView::Float(float_div(p, q))),
        (ValueView::Int(x), ValueView::Float(q)) => Ok(
            ValueView::Float(float_div(float_of_int(x), q)),
        ),
        (ValueView::Float(p), ValueView::Int(y)) => Ok(
            ValueView::Float(float_div(p, float_of_int(y))),
        ),
        _ => Err(FaultKind::DivType),
    }
}

/// Equality: never faults.  Numeric kinds compare by value after promotion;
/// strings compare by contents; values of different non-numeric kinds are
/// unequal.
pub open spec fn val_eq(a: ValueView, b: ValueView) -> bool {
    match (a, b) {
        (ValueView::Float(p), ValueView::Float(q)) => float_eq(p, q),
        (ValueView::Int(x), ValueView::Int(y)) => x == y,
        (ValueView::Bool(x), ValueView::Bool(y)) => x == y,
        (ValueView::Nil, ValueView::Nil) => true,
        (ValueView::Int(x), ValueView::Float(q)) => float_eq(float_of_int(x), q),
        (ValueView::Float(p), ValueView::Int(y)) => float_eq(p, float_of_int(y)),
        (ValueView::Str(s), ValueView::Str(t)) => s == t,
        _ => false,
    }
}

/// Strict "less than": numeric pairs only (after promotion); anything else
/// is a fault.
pub open spec fn val_lt(a: ValueView, b: ValueView) -> Result<bool, FaultKind> {
    match (a, b) {
        (ValueView::Int(x), ValueView::Int(y)) => Ok(x < y),
        (ValueView::Float(p), ValueView::Float(q)) => Ok(float_lt(p, q)),
        (ValueView::Int(x), ValueView::Float(q)) => Ok(float_lt(float_of_int(x), q)),
        (ValueView::Float(p), ValueView::Int(y)) => Ok(float_lt(p, float_of_int(y))),
        _ => Err(FaultKind::CompareType),
    }
}

/// Strict "greater than": the mirror image of [`val_lt`].
pub open spec fn val_gt(a: ValueView, b: ValueView) -> Result<bool, FaultKind> {
    val_lt(b, a)
}

/// Unary minus: numeric only; negating `i64::MIN` is a fault.
pub open spec fn val_neg(a: ValueView) -> Result<ValueView, FaultKind> {
    match a {
        ValueView::Int(x) => if x == i64::MIN {
            Err(FaultKind::IntOverflow)
        } else {
            Ok(ValueView::Int((-x) as i64))
        },
        ValueView::Float(p) => Ok(ValueView::Float(float_neg(p))),
        _ => Err(FaultKind::NegateType),
    }
}

/// Logical not: negates booleans, maps nil to false, and negates integers
/// arithmetically (the language's historical behaviour); floats and strings
/// are a fault.
pub open spec fn val_not(a: ValueView) -> Result<ValueView, FaultKind> {
    match a {
        ValueView::Bool(b) => Ok(ValueView::Bool(!b)),
        ValueView::Nil => Ok(ValueView::Bool(false)),
        ValueView::Int(x) => if x == i64::MIN {
            Err(FaultKind::IntOverflow)
        } else {
            Ok(ValueView::Int((-x) as i64))
        },
        _ => Err(FaultKind::NotType),
    }
}

impl Value {
    /// The name of a value's runtime type.
    pub fn get_ty(&self) -> (r: &'static str)
        ensures
            r@ == type_text(self@),
    {
        match self {
            Value::Float(_) => "float64",
            Value::Int(_) => "int64",
            Value::Bool(_) => "bool",
            Value::Nil => "nil",
            Value::String(_) => "string",
        }
    }

    /// Renders the value as display text, per [`value_text`].
    pub fn display_string(&self) -> (r: String)
        ensures
            r@ == value_text(self@),
    {
        match self {
            Value::Float(b) => f64_text(*b),
            Value::Int(i) => i64_text(*i),
            Value::Bool(b) => if *b {
                "true".to_owned()
            } else {
                "false".to_owned()
            },
            Value::Nil => "nil".to_owned(),
            Value::String(s) => s.clone(),
        }
    }

    /// Addition, per [`val_add`].
    pub fn add(self, rhs: Value) -> (r: Result<Value, FaultKind>)
        ensures
            vres(r) == val_add(self@, rhs@),
    {
        match (self, rhs) {
            (Value::Int(x), Value::Int(y)) => match x.checked_add(y) {
                Some(z) => Ok(Value::Int(z)),
                None => Err(FaultKind::IntOverflow),
            },
            (Value::Float(p), Value::Float(q)) => Ok(Value::Float(f64_add(p, q))),
            (Value::Int(x), Value::Float(q)) => Ok(Value::Float(f64_add(f64_of_int(x), q))),
            (Value::Float(p), Value::Int(y)) => Ok(Value::Float(f64_add(p, f64_of_int(y)))),
            (Value::String(s), Value::String(t)) => Ok(Value::String(s.concat(t.as_str()))),
            _ => Err(FaultKind::AddType),
        }
    }

    /// Subtraction, per [`val_sub`].
    pub fn sub(self, rhs: Value) -> (r: Result<Value, FaultKind>)
        ensures
            vres(r) == val_sub(self@, rhs@),
    {
        match (self, rhs) {
            (Value::Int(x), Value::Int(y)) => match x.checked_sub(y) {
                Some(z) => Ok(Value::Int(z)),
                None => Err(FaultKind::IntOverflow),
            },
            (Value::Float(p), Value::Float(q)) => Ok(Value::Float(f64_sub(p, q))),
            (Value::Int(x), Value::Float(q)) => Ok(Value::Float(f64_sub(f64_of_int(x), q))),
            (Value::Float(p), Value::Int(y)) => Ok(Value::Float(f64_sub(p, f64_of_int(y)))),
            _ => Err(FaultKind::SubType),
        }
    }

    /// Multiplication, per [`val_mul`].
    pub fn mul(self, rhs: Value) -> (r: Result<Value, FaultKind>)
        ensures
            vres(r) == val_mul(self@, rhs@),
    {
        match (self, rhs) {
            (Value::Int(x), Value::Int(y)) => match x.checked_mul(y) {
                Some(z) => Ok(Value::Int(z)),
                None => Err(FaultKind::IntOverflow),
            },
            (Value::Float(p), Value::Float(q)) => Ok(Value::Float(f64_mul(p, q))),
            (Value::Int(x), Value::Float(q)) => Ok(Value::Float(f64_mul(f64_of_int(x), q))),
            (Value::Float(p), Value::Int(y)) => Ok(Value::Float(f64_mul(p, f64_of_int(y)))),
            _ => Err(FaultKind::MulType),
        }
    }

    /// Division, per [`val_div`].
    pub fn div(self, rhs: Value) -> (r: Result<Value, FaultKind>)
        ensures
            vres(r) == val_div(self@, rhs@),
    {
        match (self, rhs) {
            (Value::Int(x), Value::Int(y)) => if y == 0 {
                Err(FaultKind::DivideByZero)
            } else if x == i64::MIN && y == -1 {
                Err(FaultKind::IntOverflow)
            } else {
                match x.checked_div(y) {
                    Some(z) => Ok(Value::Int(z)),
                    None => Err(FaultKind::IntOverflow),
                }
            },
            (Value::Float(p), Value::Float(q)) => Ok(Value::Float(f64_div(p, q))),
            (Value::Int(x), Value::Float(q)) => Ok(Value::Float(f64_div(f64_of_int(x), q))),
            (Value::Float(p), Value::Int(y)) => Ok(Value::Float(f64_div(p, f64_of_int(y)))),
            _ => Err(FaultKind::DivType),
        }
    }

    /// Equality, per [`val_eq`].
    pub fn equals(&self, rhs: &Value) -> (r: bool)
        ensures
            r == val_eq(self@, rhs@),
    {
        match (self, rhs) {
            (Value::Float(p), Value::Float(q)) => f64_eq(*p, *q),
            (Value::Int(x), Value::Int(y)) => x == y,
            (Value::Bool(x), Value::Bool(y)) => x == y,
            (Value::Nil, Value::Nil) => true,
            (Value::Int(x), Value::Float(q)) => f64_eq(f64_of_int(*x), *q),
            (Value::Float(p), Value::Int(y)) => f64_eq(*p, f64_of_int(*y)),
            (Value::String(s), Value::String(t)) => crate::strings::str_eq(s.as_str(), t.as_str()),
            _ => false,
        }
    }

    /// Strict "less than", per [`val_lt`].
    pub fn lt(&self, rhs: &Value) -> (r: Result<bool, FaultKind>)
        ensures
            r == val_lt(self@, rhs@),
    {
        match (self, rhs) {
            (Value::Int(x), Value::Int(y)) => Ok(x < y),
            (Value::Float(p), Value::Float(q)) => Ok(f64_lt(*p, *q)),
            (Value::Int(x), Value::Float(q)) => Ok(f64_lt(f64_of_int(*x), *q)),
            (Value::Float(p), Value::Int(y)) => Ok(f64_lt(*p, f64_of_int(*y))),
            _ => Err(FaultKind::CompareType),
        }
    }

    /// Unary minus, per [`val_neg`].
    pub fn neg(self) -> (r: Result<Value, FaultKind>)
        ensures
            vres(r) == val_neg(self@),
    {
        match self {
            Value::Int(x) => if x == i64::MIN {
                Err(FaultKind::IntOverflow)
            } else {
                Ok(Value::Int(-x))
            },
            Value::Float(p) => Ok(Value::Float(f64_neg(p))),
            _ => Err(FaultKind::NegateType),
        }
    }

    /// Logical not, per [`val_not`].
    pub fn not(self) -> (r: Result<Value, FaultKind>)
        ensures
            vres(r) == val_not(self@),
    {
        match self {
            Value::Bool(b) => Ok(Value::Bool(!b)),
            Value::Nil => Ok(Value::Bool(false)),
            Value::Int(x) => if x == i64::MIN {
                Err(FaultKind::IntOverflow)
            } else {
                Ok(Value::Int(-x))
            },
            _ => Err(FaultKind::NotType),
        }
    }
}

/// The name of a value's runtime type, as specification text.
pub open spec fn type_text(v: ValueView) -> Seq<char> {
    match v {
        ValueView::Float(_) => "float64"@,
        ValueView::Int(_) => "int64"@,
        ValueView::Bool(_) => "bool"@,
        ValueView::Nil => "nil"@,
        ValueView::Str(_) => "string"@,
    }
}


/// The display text of a value, as the host prints it.
pub open spec fn value_text(v: ValueView) -> Seq<char> {
    match v {
        ValueView::Float(b) => float_text(b),
        ValueView::Int(i) => int_text(i as int),
        ValueView::Bool(b) => if b {
            "true"@
        } else {
            "false"@
        },
        ValueView::Nil => "nil"@,
        ValueView::Str(s) => s,
    }
}

} // verus!
