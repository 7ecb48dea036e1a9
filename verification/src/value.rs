//! Scalar configuration values and their kinds.

use vstd::prelude::*;

verus! {

/// The kind of an atomic (scalar) configuration field. Integer fields are
/// modeled as signed or unsigned 64-bit values; text fields hold a string.
#[derive(Debug, Clone, Copy, PartialEq, Eq, Structural)]
pub enum ScalarKind {
    Int,
    Uint,
    Bool,
    Str,
}

/// An atomic configuration value.
#[derive(Debug, Clone, PartialEq)]
pub enum Value {
    Int(i64),
    Uint(u64),
    Bool(bool),
    Str(String),
}

/// Mathematical model of a [`Value`].
#[verifier::ext_equal]
pub enum ValueV {
    Int(i64),
    Uint(u64),
    Bool(bool),
    Str(Seq<char>),
}

impl View for Value {
    type V = ValueV;

    open spec fn view(&self) -> ValueV {
        match self {
            Value::Int(i) => ValueV::Int(*i),
            Value::Uint(u) => ValueV::Uint(*u),
            Value::Bool(b) => ValueV::Bool(*b),
            Value::Str(s) => ValueV::Str(s@),
        }
    }
}

/// Whether a value belongs to a kind.
pub open spec fn kind_matches(v: ValueV, k: ScalarKind) -> bool {
    match v {
        ValueV::Int(_) => k == ScalarKind::Int,
        ValueV::Uint(_) => k == ScalarKind::Uint,
        ValueV::Bool(_) => k == ScalarKind::Bool,
        ValueV::Str(_) => k == ScalarKind::Str,
    }
}

/// The zero (native default) value of a kind: `0`, `false` or the empty
/// string. It is the last-resort fallback of the conversion to the domain
/// value.
pub open spec fn zero_value(k: ScalarKind) -> ValueV {
    match k {
        ScalarKind::Int => ValueV::Int(0),
        ScalarKind::Uint => ValueV::Uint(0),
        ScalarKind::Bool => ValueV::Bool(false),
        ScalarKind::Str => ValueV::Str(Seq::empty()),
    }
}

impl Value {
    /// The zero value of a kind.
    pub fn zero_of(k: ScalarKind) -> (r: Value)
        ensures
            r@ == zero_value(k),
    {
        match k {
            ScalarKind::Int => Value::Int(0),
            ScalarKind::Uint => Value::Uint(0),
            ScalarKind::Bool => Value::Bool(false),
            ScalarKind::Str => {
                let r = Value::Str(String::new());
                proof {
                    assert(r@ =~= zero_value(ScalarKind::Str));
                }
                r
            },
        }
    }

    /// A structural copy of the value.
    pub fn dup(&self) -> (r: Value)
        ensures
            r@ == self@,
    {
        match self {
            Value::Int(i) => Value::Int(*i),
            Value::Uint(u) => Value::Uint(*u),
            Value::Bool(b) => Value::Bool(*b),
            Value::Str(s) => Value::Str(s.clone()),
        }
    }

    /// The kind the value belongs to.
    pub fn kind_of(&self) -> (r: ScalarKind)
        ensures
            kind_matches(self@, r),
    {
        match self {
            Value::Int(_) => ScalarKind::Int,
            Value::Uint(_) => ScalarKind::Uint,
            Value::Bool(_) => ScalarKind::Bool,
            Value::Str(_) => ScalarKind::Str,
        }
    }
}

} // verus!
