//! Keys: opaque identifiers for physical or virtual keys.

use vstd::prelude::*;

verus! {

/// The namespace tag of a key, partitioning key references by origin.
///
/// Keys held by a hook are written by the user on the command line, so this
/// core only ever deals with the user namespace.
#[derive(Clone, Copy, PartialEq, Eq, Structural, Hash, Debug)]
pub enum Namespace {
    /// A key reference written by the user.
    User,
}

/// An opaque identifier for a physical or virtual key plus a namespace tag.
///
/// This core never interprets the name of a key; key-name grammar (ranges,
/// transitions, event codes) is the concern of a separate key parser. Here a
/// key is kept as the token that named it, and is only stored and compared.
#[derive(Clone, PartialEq, Eq, Hash, Debug)]
pub struct Key {
    /// The token that named this key.
    pub name: String,
    /// The namespace this key reference lives in.
    pub namespace: Namespace,
}

} // verus!
