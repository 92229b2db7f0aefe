//! An optional duration as an unsigned number of milliseconds.

use vstd::prelude::*;
use crate::deser::Wire;

verus! {

/// The reader of an optional duration.
pub struct Visitor;

impl Visitor {
    /// What the reader says it expects.
    pub fn expecting(&self) -> (r: &'static str)
        ensures
            r@ == "optional unsigned number of milliseconds"@,
    {
        "optional unsigned number of milliseconds"
    }

    /// A null stands for no duration.
    pub fn visit_none(&self) -> (r: Option<u64>)
        ensures
            r is None,
    {
        None
    }

    /// A number stands for the duration of that many milliseconds.
    pub fn visit_some(&self, ms: u64) -> (r: Option<u64>)
        ensures
            r == Some(ms),
    {
        Some(ms)
    }

    /// A unit stands for no duration.
    pub fn visit_unit(&self) -> (r: Option<u64>)
        ensures
            r is None,
    {
        None
    }
}

/// The optional duration that a field stands for: none where the field
/// holds null, and where a struct that gives the field a default finds it
/// absent.
pub open spec fn read(field: Wire<u64>) -> Option<u64> {
    match field {
        Wire::Value(ms) => Some(ms),
        _ => None,
    }
}

/// The field that an optional duration is written as: the number of
/// milliseconds, or null for none.
pub open spec fn written(value: Option<u64>) -> Wire<u64> {
    match value {
        Some(ms) => Wire::Value(ms),
        None => Wire::Null,
    }
}

/// Reads an optional duration.
pub fn deserialize(field: Wire<u64>) -> (r: Option<u64>)
    ensures
        r == read(field),
{
    let visitor = Visitor;
    match field {
        Wire::Value(ms) => visitor.visit_some(ms),
        Wire::Null => visitor.visit_none(),
        Wire::Absent => None,
    }
}

/// Writes an optional duration.
pub fn serialize(value: &Option<u64>) -> (r: Wire<u64>)
    ensures
        r == written(*value),
{
    match *value {
        Some(ms) => Wire::Value(ms),
        None => Wire::Null,
    }
}

/// An optional duration that is written and read back is the duration that
/// it was, whether or not its struct leaves the field out when it is none.
pub proof fn lemma_round_trip(value: Option<u64>)
    ensures
        read(written(value)) == value,
        read(crate::deser::unless_none(value is None, written(value))) == value,
{
}

} // verus!
