//! Durations on the wire, as unsigned numbers of milliseconds.

pub mod double_opt_ms;
pub mod ms;
pub mod opt_ms;
