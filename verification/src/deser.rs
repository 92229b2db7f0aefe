//! How optional values travel on the wire: a field may be absent, present
//! and null, or present with a value; durations are numbers of
//! milliseconds; and a binding may be given as one address or as a sequence
//! of them.

use vstd::prelude::*;

pub mod double_opt;
pub mod duration;
pub mod one_or_many;
pub mod uri;

verus! {

/// A field of type `T` as it stands on the wire.
#[derive(Clone, Copy, Debug, PartialEq, Eq, Structural)]
pub enum Wire<T> {
    /// The field is not there.
    Absent,
    /// The field is there and holds null.
    Null,
    /// The field is there and holds a value.
    Value(T),
}

/// What goes on the wire for a field that its struct leaves out when the
/// value is none: nothing then, and what the writer of the field gives
/// otherwise.
pub open spec fn unless_none<T>(is_none: bool, written: Wire<T>) -> Wire<T> {
    if is_none {
        Wire::Absent
    } else {
        written
    }
}

/// Leaves a field out when its value is none.
pub fn skip_if_none<T>(is_none: bool, written: Wire<T>) -> (r: Wire<T>)
    ensures
        r == unless_none(is_none, written),
{
    if is_none {
        Wire::Absent
    } else {
        written
    }
}

} // verus!
