//! A duration as an unsigned number of milliseconds.

use vstd::prelude::*;
use crate::deser::Wire;

verus! {

/// The reader of a duration.
pub struct Visitor;

impl Visitor {
    /// What the reader says it expects.
    pub fn expecting(&self) -> (r: &'static str)
        ensures
            r@ == "unsigned number of milliseconds"@,
    {
        "unsigned number of milliseconds"
    }

    /// The duration of `v` milliseconds.
    pub fn visit_u64(&self, v: u64) -> (r: u64)
        ensures
            r == v,
    {
        v
    }
}

/// Reads a duration: the field must hold a number.
pub fn deserialize(field: Wire<u64>) -> (r: Result<u64, String>)
    ensures
        match field {
            Wire::Value(ms) => r == Ok::<u64, String>(ms),
            _ => r matches Err(e) && e@ == "unsigned number of milliseconds"@,
        },
{
    let visitor = Visitor;
    match field {
        Wire::Value(ms) => Ok(visitor.visit_u64(ms)),
        _ => Err(visitor.expecting().to_owned()),
    }
}

/// Writes a duration.
pub fn serialize(ms: u64) -> (r: Wire<u64>)
    ensures
        r == Wire::Value(ms),
{
    Wire::Value(ms)
}

} // verus!
