//! The errors of group operations.

use vstd::prelude::*;

use crate::codec;
use crate::proposal::ProposalType;

verus! {

/// Errors of group operations.
#[derive(Debug, Clone, Copy, PartialEq, Eq, Structural)]
pub enum MlsError {
    /// A commit holds an update proposal from its own sender.
    InvalidCommitSelfUpdate,
    /// A commit holds a proposal that removes its own sender.
    CommitterSelfRemoval,
    /// A commit holds more than one group context extensions proposal.
    MoreThanOneGroupContextExtensionsProposal,
    /// A reinit proposal asks for an older protocol version.
    InvalidProtocolVersionInReInit,
    /// A commit holds a reinit proposal next to proposals of other types.
    OtherProposalWithReInit,
    /// The sender of a proposal may not send proposals of its type, or not in
    /// this form.
    InvalidProposalTypeForSender,
    /// A custom proposal whose type some member does not support.
    UnsupportedCustomProposal(ProposalType),
    /// The new identity of an updated leaf is not a valid successor of the old.
    InvalidSuccessor,
    /// The identity provider failed.
    IdentityProviderError,
    /// The cipher suite provider failed.
    CryptoProviderError,
    /// The parts of a proposal bundle do not match up.
    InternalProposalFilterError,
    /// A value could not be encoded or decoded.
    SerializationError(codec::Error),
}

} // verus!
