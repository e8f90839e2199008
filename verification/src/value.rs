//! Scalar values carried by the message model: call identifiers, method
//! parameters and handler results.

use vstd::prelude::*;

verus! {

/// A JSON scalar: null, boolean, unsigned or negative integer, or string.
///
/// Nested structures are not part of the message model; parameters and
/// results are scalars.
#[derive(Debug)]
pub enum Value {
    /// The JSON `null` value.
    Null,
    /// A boolean.
    Bool(bool),
    /// A non-negative integer.
    UInt(u64),
    /// An integer; canonical form holds only negative values here.
    Int(i64),
    /// A string.
    Str(String),
}

/// RPC call identifier: an opaque scalar echoed unchanged by the callee.
pub type Id = Value;

/// Mathematical model of a [`Value`].
pub enum ValueV {
    /// The JSON `null` value.
    Null,
    /// A boolean.
    Bool(bool),
    /// A non-negative integer.
    UInt(u64),
    /// An integer; canonical form holds only negative values here.
    Int(i64),
    /// A string, as its character sequence.
    Str(Seq<char>),
}

impl View for Value {
    type V = ValueV;

    open spec fn view(&self) -> ValueV {
        match self {
            Value::Null => ValueV::Null,
            Value::Bool(b) => ValueV::Bool(*b),
            Value::UInt(n) => ValueV::UInt(*n),
            Value::Int(n) => ValueV::Int(*n),
            Value::Str(s) => ValueV::Str(s@),
        }
    }
}

impl ValueV {
    /// Canonical form: non-negative integers are always carried as `UInt`.
    pub open spec fn wf(self) -> bool {
        match self {
            ValueV::Int(n) => n < 0,
            _ => true,
        }
    }

    /// Normalization into canonical form.
    pub open spec fn norm(self) -> ValueV {
        match self {
            ValueV::Int(n) => if n >= 0 {
                ValueV::UInt(n as u64)
            } else {
                self
            },
            _ => self,
        }
    }
}

/// Law: normalization is the identity on canonical values, and always
/// yields a canonical value.
pub proof fn lemma_value_norm(v: ValueV)
    ensures
        v.wf() ==> v.norm() == v,
        v.norm().wf(),
{
}

impl Clone for Value {
    /// Cloning preserves the modeled value.
    fn clone(&self) -> (r: Value)
        ensures
            r@ == self@,
    {
        match self {
            Value::Null => Value::Null,
            Value::Bool(b) => Value::Bool(*b),
            Value::UInt(n) => Value::UInt(*n),
            Value::Int(n) => Value::Int(*n),
            Value::Str(s) => Value::Str(s.clone()),
        }
    }
}

impl PartialEq for Value {
    /// Equality of the modeled values.
    fn eq(&self, other: &Value) -> (r: bool) {
        match (self, other) {
            (Value::Null, Value::Null) => true,
            (Value::Bool(a), Value::Bool(b)) => a == b,
            (Value::UInt(a), Value::UInt(b)) => a == b,
            (Value::Int(a), Value::Int(b)) => a == b,
            (Value::Str(a), Value::Str(b)) => *a == *b,
            _ => false,
        }
    }
}

impl vstd::std_specs::cmp::PartialEqSpecImpl for Value {
    open spec fn obeys_eq_spec() -> bool {
        true
    }

    open spec fn eq_spec(&self, other: &Value) -> bool {
        self@ == other@
    }
}

} // verus!
