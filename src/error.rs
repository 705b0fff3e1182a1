use vstd::prelude::*;

verus! {

/// What can go wrong in the protocol core.
#[derive(Clone, Copy, PartialEq, Eq, Structural, Debug)]
pub enum ProtocolError {
    /// The kind was registered before in the same instance.
    DuplicateRegistration,
    /// The kind has no discriminant (it was never registered).
    Unregistered,
    /// The frame is shorter than a discriminant.
    Truncated,
    /// The discriminant is not one that was handed out.
    UnknownDiscriminant,
    /// The payload is not a valid message of the discriminant's kind.
    DecodeFailure,
    /// The transport refused an outbound frame.
    SendFailure,
}

} // verus!
