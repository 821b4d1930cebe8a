use vstd::prelude::*;

verus! {

/// What a parse call found in the buffer, when it found no grammar violation.
#[derive(Clone, Copy, Debug, PartialEq, Eq, Structural)]
pub enum Status {
    /// A whole unit is present; the payload is the number of bytes it took.
    Complete(usize),
    /// The buffer ends before the unit could be confirmed: call again with more bytes.
    Partial,
}

/// A grammar violation: the message is rejected for good.
#[derive(Clone, Copy, Debug, PartialEq, Eq, Structural)]
pub enum Error {
    Parse,
}

} // verus!
