//! The dynamically typed scalar values held by a store node's slots.

use vstd::prelude::*;

verus! {

/// A scalar value as the backing store hands it out: the store is
/// schema-less, so a slot may hold a string, some other scalar, or nothing
/// (`Null`, the store's absent sentinel).
#[derive(Clone, Debug, PartialEq, Eq)]
pub enum Value {
    Null,
    Bool(bool),
    Int(i64),
    Str(String),
}

/// The mathematical model of a [`Value`]: strings are sequences of
/// characters, everything else carries plain values.
pub enum ValueModel {
    Null,
    Bool(bool),
    Int(i64),
    Str(Seq<char>),
}

impl View for Value {
    type V = ValueModel;

    open spec fn view(&self) -> ValueModel {
        match self {
            Value::Null => ValueModel::Null,
            Value::Bool(b) => ValueModel::Bool(*b),
            Value::Int(i) => ValueModel::Int(*i),
            Value::Str(s) => ValueModel::Str(s@),
        }
    }
}

impl DeepView for Value {
    type V = ValueModel;

    open spec fn deep_view(&self) -> ValueModel {
        self.view()
    }
}

/// The string a slot decodes to under tolerant decoding: a stored string
/// decodes to itself; an absent slot and a wrong-typed slot both decode to
/// no value at all.
pub open spec fn slot_str(v: ValueModel) -> Option<Seq<char>> {
    match v {
        ValueModel::Str(s) => Some(s),
        _ => None,
    }
}

impl Value {
    /// Reads the slot as a string, collapsing "absent" and "present but not
    /// a string" to `None`, as tolerant decoding of scalar fields does.
    pub fn as_str_opt(&self) -> (r: Option<String>)
        ensures
            r.deep_view() == slot_str(self@),
    {
        match self {
            Value::Str(s) => Some(s.clone()),
            _ => None,
        }
    }
}

} // verus!
