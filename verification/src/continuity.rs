//! Bounds on the continuity content carried from one Run to the next.

use vstd::prelude::*;

use crate::text::{bounded, take_chars};

verus! {

/// Most characters of an accepted plan that are carried over.
pub const MAX_PLAN_CHARS: usize = 8192;

/// Most characters of a label that are carried over.
pub const MAX_LABEL_CHARS: usize = 512;

/// Most characters of a reference that are carried over.
pub const MAX_REFERENCE_CHARS: usize = 1024;

/// The plan cut to its first `MAX_PLAN_CHARS` characters.
pub fn bounded_plan(value: &str) -> (out: String)
    ensures
        out@ == take_chars(value@, MAX_PLAN_CHARS as nat),
{
    bounded(value, MAX_PLAN_CHARS)
}

/// The label cut to its first `MAX_LABEL_CHARS` characters.
pub fn bounded_label(value: &str) -> (out: String)
    ensures
        out@ == take_chars(value@, MAX_LABEL_CHARS as nat),
{
    bounded(value, MAX_LABEL_CHARS)
}

/// The reference cut to its first `MAX_REFERENCE_CHARS` characters.
pub fn bounded_reference(value: &str) -> (out: String)
    ensures
        out@ == take_chars(value@, MAX_REFERENCE_CHARS as nat),
{
    bounded(value, MAX_REFERENCE_CHARS)
}

} // verus!
