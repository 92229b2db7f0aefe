//! A URI as a string.

use vstd::prelude::*;
use crate::uri::{result_view, text_of, uri_parsed, Uri};

verus! {

/// The reader of a URI.
pub struct Visitor;

impl Visitor {
    /// What the reader says it expects.
    pub fn expecting(&self) -> (r: &'static str)
        ensures
            r@ == "expected an URL string"@,
    {
        "expected an URL string"
    }

    /// Reads a URI from its text.
    pub fn visit_str(&self, v: &str) -> (r: Result<Uri, String>)
        ensures
            result_view(r) == uri_parsed(v@),
    {
        Uri::parse(v)
    }
}

/// Reads a URI from its text.
pub fn deserialize(text: &str) -> (r: Result<Uri, String>)
    ensures
        result_view(r) == uri_parsed(text@),
{
    Visitor.visit_str(text)
}

/// Writes a URI as text.
pub fn serialize(v: &Uri) -> (r: String)
    ensures
        r@ == text_of(v@),
{
    v.to_text()
}

} // verus!
