//! A doubly optional duration as an unsigned number of milliseconds.

use vstd::prelude::*;
use crate::deser::double_opt::{read, written};
use crate::deser::Wire;

verus! {

/// The reader of a doubly optional duration.
pub struct Visitor;

impl Visitor {
    /// What the reader says it expects.
    pub fn expecting(&self) -> (r: &'static str)
        ensures
            r@ == "double-optional unsigned number of milliseconds"@,
    {
        "double-optional unsigned number of milliseconds"
    }

    /// A null stands for a duration that is set to none.
    pub fn visit_none(&self) -> (r: Option<Option<u64>>)
        ensures
            r == Some(None::<u64>),
    {
        Some(None)
    }

    /// A number stands for the duration of that many milliseconds.
    pub fn visit_some(&self, ms: u64) -> (r: Option<Option<u64>>)
        ensures
            r == Some(Some(ms)),
    {
        Some(Some(ms))
    }

    /// A unit stands for a duration that is set to none.
    pub fn visit_unit(&self) -> (r: Option<Option<u64>>)
        ensures
            r == Some(None::<u64>),
    {
        Some(None)
    }
}

/// Reads a doubly optional duration.
pub fn deserialize(field: Wire<u64>) -> (r: Option<Option<u64>>)
    ensures
        r == read(field),
{
    let visitor = Visitor;
    match field {
        Wire::Absent => None,
        Wire::Null => visitor.visit_none(),
        Wire::Value(ms) => visitor.visit_some(ms),
    }
}

/// Writes a doubly optional duration.
pub fn serialize(value: &Option<Option<u64>>) -> (r: Wire<u64>)
    ensures
        r == written(*value),
{
    match *value {
        Some(Some(ms)) => Wire::Value(ms),
        _ => Wire::Null,
    }
}

} // verus!
