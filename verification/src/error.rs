//! The failures an encode or a decode can end in.

use vstd::prelude::*;

verus! {

/// A terminal conversion failure. All three kinds describe the data or the
/// request, never a transient condition, so none is worth retrying.
#[derive(Debug, Clone, PartialEq, Eq)]
pub enum Error {
    /// The dynamic value's runtime tag does not match what the requested
    /// shape requires; carries a description of the expected shape.
    TypeError(String),
    /// A structurally invalid request or output, notably a malformed
    /// extension wrapper.
    Format(String),
    /// A protocol primitive this library does not map at all.
    UnsupportedType,
}

impl Error {
    /// The description carried by the error; empty for `UnsupportedType`.
    pub fn message(&self) -> (r: &str)
        ensures
            match self {
                Error::TypeError(m) => r@ == m@,
                Error::Format(m) => r@ == m@,
                Error::UnsupportedType => r@ == Seq::<char>::empty(),
            },
    {
        match self {
            Error::TypeError(m) => m.as_str(),
            Error::Format(m) => m.as_str(),
            Error::UnsupportedType => {
                proof {
                    reveal_strlit("");
                }
                ""
            },
        }
    }
}

} // verus!
