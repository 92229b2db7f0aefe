//! A value that may be absent, null or present.

use vstd::prelude::*;
use crate::deser::Wire;

verus! {

/// The reader of a doubly optional value.
pub struct Visitor;

impl Visitor {
    /// What the reader says it expects.
    pub fn expecting(&self) -> (r: &'static str)
        ensures
            r@ == "a double option value"@,
    {
        "a double option value"
    }

    /// A null stands for a value that is set to none.
    pub fn visit_none<T>(&self) -> (r: Option<Option<T>>)
        ensures
            r == Some(None::<T>),
    {
        Some(None)
    }

    /// A value stands for itself.
    pub fn visit_some<T>(&self, value: T) -> (r: Option<Option<T>>)
        ensures
            r == Some(Some(value)),
    {
        Some(Some(value))
    }

    /// A unit stands for a value that is set to none.
    pub fn visit_unit<T>(&self) -> (r: Option<Option<T>>)
        ensures
            r == Some(None::<T>),
    {
        Some(None)
    }
}

/// The value that a field stands for: some none where it holds null, and
/// none where a struct that gives the field a default finds it absent.
pub open spec fn read<T>(field: Wire<T>) -> Option<Option<T>> {
    match field {
        Wire::Absent => None,
        Wire::Null => Some(None),
        Wire::Value(v) => Some(Some(v)),
    }
}

/// The field that a value is written as: the value where there is one, and
/// null otherwise. A value that is none and one that is set to none are
/// written alike; they are told apart by the struct that holds the field,
/// which leaves the field out for the first.
pub open spec fn written<T>(value: Option<Option<T>>) -> Wire<T> {
    match value {
        Some(Some(v)) => Wire::Value(v),
        _ => Wire::Null,
    }
}

/// Reads a doubly optional value.
pub fn deserialize<T>(field: Wire<T>) -> (r: Option<Option<T>>)
    ensures
        r == read(field),
{
    let visitor = Visitor;
    match field {
        Wire::Absent => None,
        Wire::Null => visitor.visit_none(),
        Wire::Value(v) => visitor.visit_some(v),
    }
}

/// Writes a doubly optional value.
pub fn serialize<T>(value: Option<Option<T>>) -> (r: Wire<T>)
    ensures
        r == written(value),
{
    match value {
        Some(Some(v)) => Wire::Value(v),
        _ => Wire::Null,
    }
}

/// A doubly optional value that is written, by a struct that leaves the
/// field out when the value is none, and read back is the value that it was:
/// absent, null and present are told apart.
pub proof fn lemma_round_trip<T>(value: Option<Option<T>>)
    ensures
        read(crate::deser::unless_none(value is None, written(value))) == value,
        value is Some ==> read(written(value)) == value,
{
}

} // verus!
