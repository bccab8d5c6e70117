//! The ways in which the ledger refuses an input.

use vstd::prelude::*;

verus! {

/// Why an operation of the ledger did not go through.
#[derive(Clone, Copy, Debug, PartialEq, Eq, Structural)]
pub enum EloError {
    /// The score does not lie between 0 and 1.
    InvalidScore,
    /// Both sides of the game are the same participant.
    SelfPlay,
    /// The participant is not one of the two players of the record.
    NotAParticipant,
    /// The counterparty holds a later record than the proposal assumes.
    StaleReference,
    /// A record that the decision depends on cannot be read yet.
    UnresolvedDependency,
    /// The rules of the game refuse the result.
    DomainRejected,
    /// The counterparty could not be reached, or did not answer in time.
    TransportFailure,
    /// The bytes do not decode to a record.
    MalformedRecord,
}

impl EloError {
    /// Whether a later attempt can succeed where this one failed.
    pub open spec fn is_soft(self) -> bool {
        self == EloError::StaleReference || self == EloError::UnresolvedDependency || self
            == EloError::TransportFailure
    }

    /// Whether a later attempt can succeed where this one failed.
    pub fn retryable(&self) -> (soft: bool)
        ensures
            soft == self.is_soft(),
    {
        match self {
            EloError::StaleReference => true,
            EloError::UnresolvedDependency => true,
            EloError::TransportFailure => true,
            _ => false,
        }
    }
}

} // verus!
