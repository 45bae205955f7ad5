//! Tagged scalar values used in request contexts and condition literals.
//!
//! Equality between values is type-strict: values of different variants are
//! never equal, even if one of them is `Null`. `Null` equals only `Null`.

use vstd::prelude::*;

verus! {

/// A tagged scalar: boolean, signed 64-bit integer, string, or null.
#[derive(Debug, Clone, PartialEq, Eq)]
pub enum Value {
    Bool(bool),
    Integer(i64),
    String(String),
    Null,
}

/// The mathematical model of a [`Value`]: strings become character sequences.
pub enum ValueModel {
    Bool(bool),
    Integer(i64),
    String(Seq<char>),
    Null,
}

impl View for Value {
    type V = ValueModel;

    open spec fn view(&self) -> ValueModel {
        match self {
            Value::Bool(b) => ValueModel::Bool(*b),
            Value::Integer(i) => ValueModel::Integer(*i),
            Value::String(s) => ValueModel::String(s@),
            Value::Null => ValueModel::Null,
        }
    }
}

impl DeepView for Value {
    type V = ValueModel;

    open spec fn deep_view(&self) -> ValueModel {
        self.view()
    }
}

impl ValueModel {
    /// Type-strict equality: different variants never compare equal.
    pub open spec fn strict_eq(self, other: ValueModel) -> bool {
        match (self, other) {
            (ValueModel::Bool(a), ValueModel::Bool(b)) => a == b,
            (ValueModel::Integer(a), ValueModel::Integer(b)) => a == b,
            (ValueModel::String(a), ValueModel::String(b)) => a == b,
            (ValueModel::Null, ValueModel::Null) => true,
            _ => false,
        }
    }

    /// True when the two models carry the same variant tag.
    pub open spec fn same_variant(self, other: ValueModel) -> bool {
        match (self, other) {
            (ValueModel::Bool(_), ValueModel::Bool(_)) => true,
            (ValueModel::Integer(_), ValueModel::Integer(_)) => true,
            (ValueModel::String(_), ValueModel::String(_)) => true,
            (ValueModel::Null, ValueModel::Null) => true,
            _ => false,
        }
    }
}

impl Value {
    /// Type-strict equality test, the sole notion of equality the condition
    /// interpreter uses.
    pub fn strict_eq(&self, other: &Value) -> (r: bool)
        ensures
            r == self@.strict_eq(other@),
    {
        match (self, other) {
            (Value::Bool(a), Value::Bool(b)) => *a == *b,
            (Value::Integer(a), Value::Integer(b)) => *a == *b,
            (Value::String(a), Value::String(b)) => *a == *b,
            (Value::Null, Value::Null) => true,
            _ => false,
        }
    }
}

/// Value equality is reflexive.
pub proof fn lemma_strict_eq_reflexive(v: ValueModel)
    ensures
        v.strict_eq(v),
{
}

/// Value equality is symmetric.
pub proof fn lemma_strict_eq_symmetric(a: ValueModel, b: ValueModel)
    ensures
        a.strict_eq(b) == b.strict_eq(a),
{
}

/// Value equality is type-strict: equal values carry the same variant tag.
pub proof fn lemma_strict_eq_type_strict(a: ValueModel, b: ValueModel)
    ensures
        a.strict_eq(b) ==> a.same_variant(b),
        !a.same_variant(b) ==> !a.strict_eq(b),
{
}

} // verus!
