use vstd::prelude::*;

verus! {

/// The four domain errors a registry operation can report.
#[derive(Clone, Copy, Debug, PartialEq, Eq, Structural)]
pub enum Error {
    /// A create was attempted on a digest that is already claimed.
    ProofAlreadyClaimed,
    /// A revoke or transfer was attempted on a digest that is not claimed.
    NoSuchProof,
    /// A revoke or transfer was attempted by an actor other than the owner.
    NotProofOwner,
    /// A transfer's target actor equals the calling actor.
    TransferToSelf,
}

/// What a registry call can fail with: either the digest exceeds the
/// configured length bound — an input-validation failure, rejected before
/// any storage access — or one of the four domain errors.
#[derive(Clone, Copy, Debug, PartialEq, Eq, Structural)]
pub enum DispatchError {
    /// The digest is longer than the configured `max_bytes_in_hash`.
    ProofTooLong,
    /// A domain error from the registry's own validation.
    Module(Error),
}

/// A notification describing a successful state change. The registry hands
/// the event back to the caller, and the host delivers it to its
/// notification sink — exactly once per successful operation.
#[derive(Debug, PartialEq, Eq)]
pub enum Event {
    /// `ClaimCreated(actor, digest)`: the digest was claimed by the actor.
    ClaimCreated(u64, Vec<u8>),
    /// `ClaimRevoked(actor, digest)`: the actor released its claim.
    ClaimRevoked(u64, Vec<u8>),
    /// `ClaimTransferred(from, to, digest)`: ownership moved between actors.
    ClaimTransferred(u64, u64, Vec<u8>),
}

/// The mathematical value of an [`Event`]: the same three variants with the
/// digest abstracted to a byte sequence.
pub enum EventView {
    Created { who: u64, digest: Seq<u8> },
    Revoked { who: u64, digest: Seq<u8> },
    Transferred { from: u64, to: u64, digest: Seq<u8> },
}

impl View for Event {
    type V = EventView;

    open spec fn view(&self) -> EventView {
        match self {
            Event::ClaimCreated(who, d) => EventView::Created { who: *who, digest: d@ },
            Event::ClaimRevoked(who, d) => EventView::Revoked { who: *who, digest: d@ },
            Event::ClaimTransferred(from, to, d) => EventView::Transferred {
                from: *from,
                to: *to,
                digest: d@,
            },
        }
    }
}

} // verus!
