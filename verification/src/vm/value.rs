use std::cmp::Ordering;
use vstd::prelude::*;
use vstd::std_specs::cmp::PartialOrdSpecImpl;
use vstd::std_specs::convert::FromSpecImpl;

verus! {

/// A value held on the VM's operand stack.
#[derive(Debug, Clone, Copy, PartialEq, Eq, Structural)]
pub enum Value {
    Int(i32),
    Bool(bool),
}

impl PartialOrd for Value {
    /// Compares two values, only if both are integers
    fn partial_cmp(&self, other: &Self) -> (r: Option<Ordering>) {
        match (self, other) {
            (Value::Int(a), Value::Int(b)) => {
                if *a < *b {
                    Some(Ordering::Less)
                } else if *a > *b {
                    Some(Ordering::Greater)
                } else {
                    Some(Ordering::Equal)
                }
            },
            _ => None,
        }
    }
}

impl PartialOrdSpecImpl for Value {
    open spec fn obeys_partial_cmp_spec() -> bool {
        true
    }

    open spec fn partial_cmp_spec(&self, other: &Self) -> Option<Ordering> {
        match (*self, *other) {
            (Value::Int(a), Value::Int(b)) => {
                if a < b {
                    Some(Ordering::Less)
                } else if a > b {
                    Some(Ordering::Greater)
                } else {
                    Some(Ordering::Equal)
                }
            },
            _ => None,
        }
    }
}

impl From<i32> for Value {
    fn from(value: i32) -> (r: Self) {
        Value::Int(value)
    }
}

impl FromSpecImpl<i32> for Value {
    open spec fn obeys_from_spec() -> bool {
        true
    }

    open spec fn from_spec(v: i32) -> Self {
        Value::Int(v)
    }
}

impl From<bool> for Value {
    fn from(value: bool) -> (r: Self) {
        Value::Bool(value)
    }
}

impl FromSpecImpl<bool> for Value {
    open spec fn obeys_from_spec() -> bool {
        true
    }

    open spec fn from_spec(v: bool) -> Self {
        Value::Bool(v)
    }
}

/// Law: the order of values. Two integers are ordered as integers; an integer and a boolean, or
/// two booleans, are not ordered.
pub proof fn lemma_value_order(a: i32, b: i32, x: bool, y: bool)
    ensures
        (vstd::std_specs::cmp::PartialOrdSpec::partial_cmp_spec(&Value::Int(a), &Value::Int(b)) == Some(Ordering::Less)) == (a < b),
        (vstd::std_specs::cmp::PartialOrdSpec::partial_cmp_spec(&Value::Int(a), &Value::Int(b)) == Some(Ordering::Equal)) == (a == b),
        (vstd::std_specs::cmp::PartialOrdSpec::partial_cmp_spec(&Value::Int(a), &Value::Int(b)) == Some(Ordering::Greater)) == (a > b),
        vstd::std_specs::cmp::PartialOrdSpec::partial_cmp_spec(&Value::Int(a), &Value::Bool(x)) is None,
        vstd::std_specs::cmp::PartialOrdSpec::partial_cmp_spec(&Value::Bool(x), &Value::Int(a)) is None,
        vstd::std_specs::cmp::PartialOrdSpec::partial_cmp_spec(&Value::Bool(x), &Value::Bool(y)) is None,
{
}

} // verus!
