//! What a caller can get wrong when it declares or changes the tree.

use vstd::prelude::*;

verus! {

/// A value that an attribute cannot take.
#[derive(Debug, Clone, Copy, PartialEq, Eq, Structural)]
pub enum ConfigurationError {
    /// The value is empty, and the attribute is still to be registered.
    /// The host stack cannot create an attribute that it answers for by
    /// itself without a value to answer with.
    MissingValue,
    /// The value is longer than the attribute can hold: longer than any
    /// attribute, or longer than the length that the attribute was
    /// registered with.
    ValueTooLong,
    /// The tree holds no attribute at the place that was named.
    UnknownAttribute,
}

} // verus!
