//! Proposals and the bundle of proposals that a commit carries.

use vstd::prelude::*;

use crate::framing::{CipherSuite, Extension, ProtocolVersion, Sender};

verus! {

/// The type of a proposal, by its code point.
#[derive(Debug, Clone, Copy, PartialEq, Eq, Structural)]
pub struct ProposalType(pub u16);

impl ProposalType {
    pub const ADD: u16 = 1;
    pub const UPDATE: u16 = 2;
    pub const REMOVE: u16 = 3;
    pub const PSK: u16 = 4;
    pub const RE_INIT: u16 = 5;
    pub const EXTERNAL_INIT: u16 = 6;
    pub const GROUP_CONTEXT_EXTENSIONS: u16 = 7;
}

/// The index of a leaf in the ratchet tree.
#[derive(Debug, Clone, Copy, PartialEq, Eq, Structural)]
pub struct LeafIndex(pub u32);

/// The reference to a proposal that was sent before the commit: the hash of
/// the proposal message.
#[derive(Debug, Clone)]
pub struct ProposalRef(pub Vec<u8>);

/// How a proposal reached the commit.
#[derive(Debug, Clone)]
pub enum ProposalSource {
    /// Inside the commit itself.
    ByValue,
    /// By reference to a proposal message sent earlier.
    ByReference(ProposalRef),
}

/// A proposal in a bundle, with its sender and its source.
#[derive(Debug, Clone)]
pub struct ProposalInfo<T> {
    pub proposal: T,
    pub sender: Sender,
    pub source: ProposalSource,
}

impl<T> ProposalInfo<T> {
    pub open spec fn spec_is_by_reference(self) -> bool {
        self.source is ByReference
    }

    /// Whether the proposal was sent by reference.
    pub fn is_by_reference(&self) -> (b: bool)
        ensures
            b == self.spec_is_by_reference(),
    {
        match &self.source {
            ProposalSource::ByReference(_) => true,
            ProposalSource::ByValue => false,
        }
    }

    /// Whether the proposal is inside the commit.
    pub fn is_by_value(&self) -> (b: bool)
        ensures
            b == !self.spec_is_by_reference(),
    {
        match &self.source {
            ProposalSource::ByReference(_) => false,
            ProposalSource::ByValue => true,
        }
    }
}

/// A proposal to add a member: its key package, as the bytes of its encoding.
#[derive(Debug, Clone)]
pub struct AddProposal {
    pub key_package: Vec<u8>,
}

/// A proposal of a member to replace its own leaf: the new leaf node, as the
/// bytes of its encoding.
#[derive(Debug, Clone)]
pub struct UpdateProposal {
    pub leaf_node: Vec<u8>,
}

/// A proposal to remove the member at a leaf.
#[derive(Debug, Clone)]
pub struct RemoveProposal {
    pub to_remove: LeafIndex,
}

/// A proposal to inject a pre-shared key: its id, as the bytes of its encoding.
#[derive(Debug, Clone)]
pub struct PreSharedKeyProposal {
    pub psk: Vec<u8>,
}

/// A proposal to restart the group with new parameters.
#[derive(Debug, Clone)]
pub struct ReInitProposal {
    pub group_id: Vec<u8>,
    pub version: ProtocolVersion,
    pub cipher_suite: CipherSuite,
    pub extensions: Vec<Extension>,
}

/// The proposal that an external commit carries: the KEM output.
#[derive(Debug, Clone)]
pub struct ExternalInit {
    pub kem_output: Vec<u8>,
}

/// A list of extensions; as a proposal, it replaces the group context
/// extensions.
#[derive(Debug, Clone)]
pub struct ExtensionList(pub Vec<Extension>);

/// A proposal of a type that the protocol does not define.
#[derive(Debug, Clone)]
pub struct CustomProposal {
    pub proposal_type: ProposalType,
    pub data: Vec<u8>,
}

/// The proposals that a commit carries, by type, each with its sender and
/// source; `update_senders[i]` is the leaf of the sender of `updates[i]` once
/// the senders are known.
#[derive(Debug, Clone)]
pub struct ProposalBundle {
    pub additions: Vec<ProposalInfo<AddProposal>>,
    pub updates: Vec<ProposalInfo<UpdateProposal>>,
    pub update_senders: Vec<LeafIndex>,
    pub removals: Vec<ProposalInfo<RemoveProposal>>,
    pub psks: Vec<ProposalInfo<PreSharedKeyProposal>>,
    pub reinitializations: Vec<ProposalInfo<ReInitProposal>>,
    pub external_initializations: Vec<ProposalInfo<ExternalInit>>,
    pub group_context_extensions: Vec<ProposalInfo<ExtensionList>>,
    pub custom_proposals: Vec<ProposalInfo<CustomProposal>>,
}

impl ProposalBundle {
    /// The number of proposals in the bundle.
    pub open spec fn spec_length(self) -> nat {
        self.additions@.len() + self.updates@.len() + self.removals@.len() + self.psks@.len()
            + self.reinitializations@.len() + self.external_initializations@.len()
            + self.group_context_extensions@.len() + self.custom_proposals@.len()
    }
}

/// What a leaf says it can do, as far as proposals go: the proposal types that
/// it supports beyond the defined ones.
#[derive(Debug, Clone)]
pub struct Capabilities {
    pub proposals: Vec<ProposalType>,
}

/// A leaf of the ratchet tree.
#[derive(Debug, Clone)]
pub struct LeafNode {
    pub capabilities: Capabilities,
}

/// The public ratchet tree, as far as its leaves go; a blank leaf is `None`.
#[derive(Debug, Clone)]
pub struct TreeKemPublic {
    pub leaves: Vec<Option<LeafNode>>,
}

impl TreeKemPublic {
    /// Every member supports proposals of type `t`.
    pub open spec fn spec_can_support_proposal(self, t: ProposalType) -> bool {
        forall|i: int|
            0 <= i < self.leaves@.len() && #[trigger] self.leaves@[i] is Some
                ==> self.leaves@[i]->0.capabilities.proposals@.contains(t)
    }

    /// Whether every member supports proposals of type `t`.
    pub fn can_support_proposal(&self, t: ProposalType) -> (b: bool)
        ensures
            b == self.spec_can_support_proposal(t),
    {
        let mut i: usize = 0;
        while i < self.leaves.len()
            invariant
                i <= self.leaves@.len(),
                forall|j: int|
                    0 <= j < i && #[trigger] self.leaves@[j] is Some
                        ==> self.leaves@[j]->0.capabilities.proposals@.contains(t),
            decreases self.leaves@.len() - i,
        {
            match &self.leaves[i] {
                Some(leaf) => {
                    if !contains_type(&leaf.capabilities.proposals, t) {
                        return false;
                    }
                },
                None => {},
            }
            i = i + 1;
        }
        true
    }
}

/// Whether `types` holds `t`.
pub fn contains_type(types: &Vec<ProposalType>, t: ProposalType) -> (b: bool)
    ensures
        b == types@.contains(t),
{
    let mut i: usize = 0;
    while i < types.len()
        invariant
            i <= types@.len(),
            forall|j: int| 0 <= j < i ==> types@[j] != t,
        decreases types@.len() - i,
    {
        if types[i] == t {
            assert(types@[i as int] == t);
            return true;
        }
        i = i + 1;
    }
    false
}

} // verus!
