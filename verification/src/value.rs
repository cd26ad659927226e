//! Runtime values of the language.
use vstd::prelude::*;
use crate::text::{i32_decimal, u32_binary, parse_i32_spec, parse_i32, i32_to_string, u32_to_binary_string, owned};

verus! {

/// A runtime value.
#[derive(Debug, PartialOrd, Ord)]
pub enum Value {
    Int(i32),
    Str(String),
    Bool(bool),
    Bin(u32),
    Null,
}

/// The mathematical model of a [`Value`]: strings become character sequences.
pub enum SValue {
    Int(i32),
    Str(Seq<char>),
    Bool(bool),
    Bin(u32),
    Null,
}

impl View for Value {
    type V = SValue;

    open spec fn view(&self) -> SValue {
        match self {
            Value::Int(i) => SValue::Int(*i),
            Value::Str(s) => SValue::Str(s@),
            Value::Bool(b) => SValue::Bool(*b),
            Value::Bin(b) => SValue::Bin(*b),
            Value::Null => SValue::Null,
        }
    }
}

impl Clone for Value {
    fn clone(&self) -> (res: Self)
        ensures
            res == *self,
    {
        match self {
            Value::Int(i) => Value::Int(*i),
            Value::Str(s) => Value::Str(s.clone()),
            Value::Bool(b) => Value::Bool(*b),
            Value::Bin(b) => Value::Bin(*b),
            Value::Null => Value::Null,
        }
    }
}

impl PartialEq for Value {
    fn eq(&self, other: &Self) -> (res: bool) {
        match (self, other) {
            (Value::Int(a), Value::Int(b)) => *a == *b,
            (Value::Str(a), Value::Str(b)) => *a == *b,
            (Value::Bool(a), Value::Bool(b)) => *a == *b,
            (Value::Bin(a), Value::Bin(b)) => *a == *b,
            (Value::Null, Value::Null) => true,
            _ => false,
        }
    }
}

impl vstd::std_specs::cmp::PartialEqSpecImpl for Value {
    open spec fn obeys_eq_spec() -> bool {
        true
    }

    open spec fn eq_spec(&self, other: &Self) -> bool {
        self@ == other@
    }
}

impl Eq for Value {
}

/// What [`Value::from_string`] makes of a text: an integer when the whole text
/// is a decimal `i32`, the text itself otherwise.
pub open spec fn value_from_text(s: Seq<char>) -> SValue {
    match parse_i32_spec(s) {
        Some(i) => SValue::Int(i),
        None => SValue::Str(s),
    }
}

/// How a value is displayed.
pub open spec fn display_value(v: SValue) -> Seq<char> {
    match v {
        SValue::Int(i) => i32_decimal(i),
        SValue::Str(s) => s,
        SValue::Bool(b) => if b {
            "true"@
        } else {
            "false"@
        },
        SValue::Bin(b) => u32_binary(b),
        SValue::Null => "null"@,
    }
}

/// The loose comparison of the language: integers, strings and booleans compare
/// by content; anything else, mixed kinds included, is unequal.
pub open spec fn values_match(a: SValue, b: SValue) -> bool {
    match (a, b) {
        (SValue::Int(i), SValue::Int(j)) => i == j,
        (SValue::Str(s), SValue::Str(t)) => s == t,
        (SValue::Bool(x), SValue::Bool(y)) => x == y,
        _ => false,
    }
}

impl Value {
    /// An integer when the text is a decimal `i32`, the text as a string otherwise.
    pub fn from_string(s: String) -> (res: Self)
        ensures
            res@ == value_from_text(s@),
    {
        if let Some(i) = parse_i32(s.as_str()) {
            return Value::Int(i);
        }
        Value::Str(s)
    }

    /// The display text of the value (integers in decimal, binaries in base 2,
    /// `null` for the null value).
    pub fn to_string(&self) -> (res: String)
        ensures
            res@ == display_value(self@),
    {
        match self {
            Value::Int(i) => i32_to_string(*i),
            Value::Str(s) => s.clone(),
            Value::Bool(b) => if *b {
                owned("true")
            } else {
                owned("false")
            },
            Value::Bin(b) => u32_to_binary_string(*b),
            Value::Null => owned("null"),
        }
    }
}

/// Compares two values the way conditions of the language do.
pub fn compare_value(first: &Value, second: &Value) -> (res: bool)
    ensures
        res == values_match(first@, second@),
{
    match (first, second) {
        (Value::Int(i), Value::Int(j)) => *i == *j,
        (Value::Str(s), Value::Str(t)) => *s == *t,
        (Value::Bool(b), Value::Bool(c)) => *b == *c,
        _ => false,
    }
}

} // verus!
