//! A binding given as one address or as a sequence of addresses.

use vstd::prelude::*;
use crate::addr::SocketAddress;

verus! {

/// The reader of one address or of a sequence of addresses.
pub struct OneOrManyVisitor;

impl OneOrManyVisitor {
    /// What the reader says it expects.
    pub fn expecting(&self) -> (r: &'static str)
        ensures
            r@ == "a single `SocketAddr`s or a sequence thereof"@,
    {
        "a single `SocketAddr`s or a sequence thereof"
    }

    /// One address stands for the sequence of that address alone.
    pub fn visit_str(&self, addr: SocketAddress) -> (r: Vec<SocketAddress>)
        ensures
            r@ == seq![addr],
    {
        let mut v = Vec::new();
        v.push(addr);
        v
    }

    /// A sequence stands for itself.
    pub fn visit_seq(&self, seq: Vec<SocketAddress>) -> (r: Vec<SocketAddress>)
        ensures
            r == seq,
    {
        seq
    }
}

} // verus!
