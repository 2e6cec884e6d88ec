//! Domains: opaque tags that partition events into independent streams.

use vstd::prelude::*;

verus! {

/// An opaque tag partitioning events into independent streams.
///
/// Input devices stamp every event they emit with their domain; output
/// devices receive every event whose domain matches theirs. This core only
/// stores and compares domains, it never interprets them.
#[derive(Clone, Copy, PartialEq, Eq, Structural, Hash, Debug)]
pub struct Domain {
    pub value: u64,
}

} // verus!
