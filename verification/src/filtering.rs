//! The rules that filter the proposals of a commit sent by a member: which
//! proposals are invalid, and whether an invalid proposal makes the commit fail
//! or is dropped from it.

use vstd::prelude::*;

use crate::error::MlsError;
use crate::framing::{ProtocolVersion, Sender};
use crate::proposal::{
    contains_type, AddProposal, CustomProposal, ExtensionList, ExternalInit, LeafIndex,
    PreSharedKeyProposal, ProposalBundle, ProposalInfo, ProposalType, ReInitProposal,
    RemoveProposal, TreeKemPublic, UpdateProposal,
};

verus! {

/// What to do with an invalid proposal.
#[derive(Debug, Clone, Copy, PartialEq, Eq, Structural)]
pub enum FilterStrategy {
    /// Drop invalid proposals that came by reference; fail on the others.
    IgnoreByRef,
    /// Fail on every invalid proposal.
    IgnoreNone,
}

impl FilterStrategy {
    pub open spec fn spec_ignore(self, by_ref: bool) -> bool {
        match self {
            FilterStrategy::IgnoreByRef => by_ref,
            FilterStrategy::IgnoreNone => false,
        }
    }

    pub open spec fn spec_is_ignore(self) -> bool {
        self is IgnoreByRef
    }

    /// Whether an invalid proposal that came by reference (`by_ref`) or by value
    /// is dropped rather than making the commit fail.
    pub fn ignore(self, by_ref: bool) -> (b: bool)
        ensures
            b == self.spec_ignore(by_ref),
    {
        match self {
            FilterStrategy::IgnoreByRef => by_ref,
            FilterStrategy::IgnoreNone => false,
        }
    }

    /// Whether some invalid proposals are dropped.
    pub fn is_ignore(self) -> (b: bool)
        ensures
            b == self.spec_is_ignore(),
    {
        match self {
            FilterStrategy::IgnoreByRef => true,
            FilterStrategy::IgnoreNone => false,
        }
    }
}

/// A strategy drops exactly the invalid proposals that came by reference, and
/// only where it drops any.
pub proof fn lemma_ignore_is_ignore_by_ref(strategy: FilterStrategy, by_ref: bool)
    ensures
        strategy.spec_ignore(by_ref) == (strategy.spec_is_ignore() && by_ref),
{
}

/// What checking a proposal gives under a strategy: `Ok(true)` to keep a valid
/// proposal, `Ok(false)` to drop an invalid one, the error to fail.
pub open spec fn spec_apply_strategy(
    strategy: FilterStrategy,
    by_ref: bool,
    r: Result<(), MlsError>,
) -> Result<bool, MlsError> {
    match r {
        Ok(()) => Ok(true),
        Err(e) => if strategy.spec_ignore(by_ref) {
            Ok(false)
        } else {
            Err(e)
        },
    }
}

/// Applies the strategy to the outcome `r` of checking a proposal that came by
/// reference (`by_ref`) or by value.
pub fn apply_strategy(strategy: FilterStrategy, by_ref: bool, r: Result<(), MlsError>) -> (res:
    Result<bool, MlsError>)
    ensures
        res == spec_apply_strategy(strategy, by_ref, r),
{
    match r {
        Ok(()) => Ok(true),
        Err(error) => if strategy.ignore(by_ref) {
            Ok(false)
        } else {
            Err(error)
        },
    }
}

/// A check of the proposals of one type; `index` is the position of the
/// proposal among those of its type.
pub trait ProposalCheck<T> {
    spec fn spec_check(&self, index: int, p: ProposalInfo<T>) -> Result<(), MlsError>;

    fn check(&self, index: usize, p: &ProposalInfo<T>) -> (r: Result<(), MlsError>)
        ensures
            r == self.spec_check(index as int, *p),
    ;
}

/// Checks `items` in order: keeps the valid ones, drops the invalid ones that
/// the strategy ignores, and records the error of the first invalid one that it
/// does not ignore.
pub open spec fn spec_retain<T, C: ProposalCheck<T>>(
    strategy: FilterStrategy,
    check: C,
    items: Seq<ProposalInfo<T>>,
) -> (Seq<ProposalInfo<T>>, Option<MlsError>)
    decreases items.len(),
{
    if items.len() == 0 {
        (Seq::empty(), None)
    } else {
        let (kept, err) = spec_retain(strategy, check, items.drop_last());
        let p = items.last();
        match spec_apply_strategy(
            strategy,
            p.spec_is_by_reference(),
            check.spec_check(items.len() - 1, p),
        ) {
            Ok(true) => (kept.push(p), err),
            Ok(false) => (kept, err),
            Err(e) => (
                kept,
                if err is None {
                    Some(e)
                } else {
                    err
                },
            ),
        }
    }
}

/// Filters `items` as `spec_retain` says.
pub fn retain_proposals<T, C: ProposalCheck<T>>(
    strategy: FilterStrategy,
    items: Vec<ProposalInfo<T>>,
    check: &C,
) -> (r: (Vec<ProposalInfo<T>>, Option<MlsError>))
    ensures
        r.0@ == spec_retain(strategy, *check, items@).0,
        r.1 == spec_retain(strategy, *check, items@).1,
{
    let ghost all = items@;
    let total: usize = items.len();
    let mut rest = items;
    let mut reversed: Vec<ProposalInfo<T>> = Vec::new();
    while rest.len() > 0
        invariant
            all == rest@ + reversed@.reverse(),
        decreases rest@.len(),
    {
        let ghost r0 = rest@;
        let ghost v0 = reversed@;
        let p = rest.pop().unwrap();
        reversed.push(p);
        proof {
            assert(reversed@.reverse() =~= seq![p] + v0.reverse());
            assert(r0 =~= rest@.push(p));
            assert(all =~= rest@ + reversed@.reverse());
        }
    }
    let mut kept: Vec<ProposalInfo<T>> = Vec::new();
    let mut err: Option<MlsError> = None;
    let mut i: usize = 0;
    let ghost n = all.len();
    assert(all =~= reversed@.reverse());
    while reversed.len() > 0
        invariant
            i + reversed@.len() == n,
            n == all.len(),
            n == total,
            all.skip(i as int) =~= reversed@.reverse(),
            (kept@, err) == spec_retain(strategy, *check, all.take(i as int)),
        decreases reversed@.len(),
    {
        let ghost v0 = reversed@;
        let p = reversed.pop().unwrap();
        proof {
            assert(v0.reverse()[0] == p);
            assert(all.skip(i as int)[0] == p);
            assert(all[i as int] == p);
            assert(all.take(i + 1).drop_last() =~= all.take(i as int));
            assert(all.take(i + 1).last() == p);
            assert(v0.reverse().skip(1) =~= reversed@.reverse());
            assert(all.skip(i + 1) =~= all.skip(i as int).skip(1));
        }
        let by_ref = p.is_by_reference();
        let res = check.check(i, &p);
        match apply_strategy(strategy, by_ref, res) {
            Ok(true) => {
                kept.push(p);
            },
            Ok(false) => {},
            Err(e) => {
                if err.is_none() {
                    err = Some(e);
                }
            },
        }
        i = i + 1;
    }
    assert(all.take(i as int) =~= all);
    (kept, err)
}

/// Whether `sender` may send a proposal of type `t` by reference (`by_ref`) or
/// inside a commit.
pub open spec fn spec_sender_may_propose(sender: Sender, t: u16, by_ref: bool) -> bool {
    match sender {
        Sender::Member(_) => if by_ref {
            t == ProposalType::ADD || t == ProposalType::UPDATE || t == ProposalType::REMOVE || t
                == ProposalType::PSK || t == ProposalType::RE_INIT || t
                == ProposalType::GROUP_CONTEXT_EXTENSIONS
        } else {
            t == ProposalType::ADD || t == ProposalType::REMOVE || t == ProposalType::PSK || t
                == ProposalType::RE_INIT || t == ProposalType::GROUP_CONTEXT_EXTENSIONS
        },
        Sender::External(_) => by_ref && (t == ProposalType::ADD || t == ProposalType::REMOVE || t
            == ProposalType::RE_INIT || t == ProposalType::PSK || t
            == ProposalType::GROUP_CONTEXT_EXTENSIONS),
        Sender::NewMemberCommit => !by_ref && (t == ProposalType::REMOVE || t == ProposalType::PSK
            || t == ProposalType::EXTERNAL_INIT),
        Sender::NewMemberProposal => by_ref && t == ProposalType::ADD,
    }
}

pub open spec fn spec_proposer_can_propose(proposer: Sender, proposal_type: ProposalType, by_ref: bool) -> Result<
    (),
    MlsError,
> {
    if spec_sender_may_propose(proposer, proposal_type.0, by_ref) {
        Ok(())
    } else {
        Err(MlsError::InvalidProposalTypeForSender)
    }
}

/// Checks that `proposer` may send a proposal of type `proposal_type` by
/// reference (`by_ref`) or inside a commit.
pub fn proposer_can_propose(proposer: Sender, proposal_type: ProposalType, by_ref: bool) -> (r:
    Result<(), MlsError>)
    ensures
        r == spec_proposer_can_propose(proposer, proposal_type, by_ref),
{
    let t = proposal_type.0;
    let can_propose = match proposer {
        Sender::Member(_) => if !by_ref {
            t == ProposalType::ADD || t == ProposalType::REMOVE || t == ProposalType::PSK || t
                == ProposalType::RE_INIT || t == ProposalType::GROUP_CONTEXT_EXTENSIONS
        } else {
            t == ProposalType::ADD || t == ProposalType::UPDATE || t == ProposalType::REMOVE || t
                == ProposalType::PSK || t == ProposalType::RE_INIT || t
                == ProposalType::GROUP_CONTEXT_EXTENSIONS
        },
        Sender::External(_) => if !by_ref {
            false
        } else {
            t == ProposalType::ADD || t == ProposalType::REMOVE || t == ProposalType::RE_INIT || t
                == ProposalType::PSK || t == ProposalType::GROUP_CONTEXT_EXTENSIONS
        },
        Sender::NewMemberCommit => if !by_ref {
            t == ProposalType::REMOVE || t == ProposalType::PSK || t == ProposalType::EXTERNAL_INIT
        } else {
            false
        },
        Sender::NewMemberProposal => if !by_ref {
            false
        } else {
            t == ProposalType::ADD
        },
    };
    if can_propose {
        Ok(())
    } else {
        Err(MlsError::InvalidProposalTypeForSender)
    }
}

/// The check that the sender of a proposal may send it, for proposals of one type.
pub struct SenderMayPropose {
    pub proposal_type: ProposalType,
}

impl<T> ProposalCheck<T> for SenderMayPropose {
    open spec fn spec_check(&self, index: int, p: ProposalInfo<T>) -> Result<(), MlsError> {
        spec_proposer_can_propose(p.sender, self.proposal_type, p.spec_is_by_reference())
    }

    fn check(&self, index: usize, p: &ProposalInfo<T>) -> (r: Result<(), MlsError>) {
        proposer_can_propose(p.sender, self.proposal_type, p.is_by_reference())
    }
}

/// The check that an update proposal does not come from the committer.
pub struct NotUpdateOfCommitter {
    pub commit_sender: LeafIndex,
}

impl ProposalCheck<UpdateProposal> for NotUpdateOfCommitter {
    open spec fn spec_check(&self, index: int, p: ProposalInfo<UpdateProposal>) -> Result<(), MlsError> {
        if p.sender != Sender::Member(self.commit_sender.0) {
            Ok(())
        } else {
            Err(MlsError::InvalidCommitSelfUpdate)
        }
    }

    fn check(&self, index: usize, p: &ProposalInfo<UpdateProposal>) -> (r: Result<(), MlsError>) {
        if p.sender != Sender::Member(self.commit_sender.0) {
            Ok(())
        } else {
            Err(MlsError::InvalidCommitSelfUpdate)
        }
    }
}

/// The check that a remove proposal does not remove the committer.
pub struct NotRemovalOfCommitter {
    pub commit_sender: LeafIndex,
}

impl ProposalCheck<RemoveProposal> for NotRemovalOfCommitter {
    open spec fn spec_check(&self, index: int, p: ProposalInfo<RemoveProposal>) -> Result<(), MlsError> {
        if p.proposal.to_remove != self.commit_sender {
            Ok(())
        } else {
            Err(MlsError::CommitterSelfRemoval)
        }
    }

    fn check(&self, index: usize, p: &ProposalInfo<RemoveProposal>) -> (r: Result<(), MlsError>) {
        if p.proposal.to_remove != self.commit_sender {
            Ok(())
        } else {
            Err(MlsError::CommitterSelfRemoval)
        }
    }
}

/// The check that a group context extensions proposal is the first one.
pub struct FirstGroupContextExtensions;

impl ProposalCheck<ExtensionList> for FirstGroupContextExtensions {
    open spec fn spec_check(&self, index: int, p: ProposalInfo<ExtensionList>) -> Result<(), MlsError> {
        if index == 0 {
            Ok(())
        } else {
            Err(MlsError::MoreThanOneGroupContextExtensionsProposal)
        }
    }

    fn check(&self, index: usize, p: &ProposalInfo<ExtensionList>) -> (r: Result<(), MlsError>) {
        if index == 0 {
            Ok(())
        } else {
            Err(MlsError::MoreThanOneGroupContextExtensionsProposal)
        }
    }
}

/// The check that a reinit proposal does not ask for an older protocol version.
pub struct ReInitVersionNotOlder {
    pub protocol_version: ProtocolVersion,
}

impl ProposalCheck<ReInitProposal> for ReInitVersionNotOlder {
    open spec fn spec_check(&self, index: int, p: ProposalInfo<ReInitProposal>) -> Result<(), MlsError> {
        if p.proposal.version.0 >= self.protocol_version.0 {
            Ok(())
        } else {
            Err(MlsError::InvalidProtocolVersionInReInit)
        }
    }

    fn check(&self, index: usize, p: &ProposalInfo<ReInitProposal>) -> (r: Result<(), MlsError>) {
        if p.proposal.version.0 >= self.protocol_version.0 {
            Ok(())
        } else {
            Err(MlsError::InvalidProtocolVersionInReInit)
        }
    }
}

/// The check that fails every external init proposal: a member's commit may not
/// hold one.
pub struct NoExternalInit;

impl ProposalCheck<ExternalInit> for NoExternalInit {
    open spec fn spec_check(&self, index: int, p: ProposalInfo<ExternalInit>) -> Result<(), MlsError> {
        Err(MlsError::InvalidProposalTypeForSender)
    }

    fn check(&self, index: usize, p: &ProposalInfo<ExternalInit>) -> (r: Result<(), MlsError>) {
        Err(MlsError::InvalidProposalTypeForSender)
    }
}

/// The check that every member supports the type of a custom proposal.
pub struct SupportedByTree<'a> {
    pub tree: &'a TreeKemPublic,
}

impl<'a> ProposalCheck<CustomProposal> for SupportedByTree<'a> {
    open spec fn spec_check(&self, index: int, p: ProposalInfo<CustomProposal>) -> Result<(), MlsError> {
        if self.tree.spec_can_support_proposal(p.proposal.proposal_type) {
            Ok(())
        } else {
            Err(MlsError::UnsupportedCustomProposal(p.proposal.proposal_type))
        }
    }

    fn check(&self, index: usize, p: &ProposalInfo<CustomProposal>) -> (r: Result<(), MlsError>) {
        if self.tree.can_support_proposal(p.proposal.proposal_type) {
            Ok(())
        } else {
            Err(MlsError::UnsupportedCustomProposal(p.proposal.proposal_type))
        }
    }
}

/// Drops, or fails on, the update proposals that the committer sent.
pub fn filter_out_update_for_committer(
    strategy: FilterStrategy,
    commit_sender: LeafIndex,
    proposals: ProposalBundle,
) -> (r: Result<ProposalBundle, MlsError>)
    ensures
        ({
            let (kept, err) = spec_retain(
                strategy,
                NotUpdateOfCommitter { commit_sender },
                proposals.updates@,
            );
            match err {
                Some(e) => r == Err::<ProposalBundle, MlsError>(e),
                None => r matches Ok(b) && b.updates@ == kept && b == (ProposalBundle {
                    updates: b.updates,
                    ..proposals
                }),
            }
        }),
{
    let mut proposals = proposals;
    let mut updates: Vec<ProposalInfo<UpdateProposal>> = Vec::new();
    core::mem::swap(&mut updates, &mut proposals.updates);
    let (kept, err) = retain_proposals(strategy, updates, &NotUpdateOfCommitter { commit_sender });
    match err {
        Some(e) => Err(e),
        None => {
            proposals.updates = kept;
            Ok(proposals)
        },
    }
}

/// Drops, or fails on, the remove proposals that remove the committer.
pub fn filter_out_removal_of_committer(
    strategy: FilterStrategy,
    commit_sender: LeafIndex,
    proposals: ProposalBundle,
) -> (r: Result<ProposalBundle, MlsError>)
    ensures
        ({
            let (kept, err) = spec_retain(
                strategy,
                NotRemovalOfCommitter { commit_sender },
                proposals.removals@,
            );
            match err {
                Some(e) => r == Err::<ProposalBundle, MlsError>(e),
                None => r matches Ok(b) && b.removals@ == kept && b == (ProposalBundle {
                    removals: b.removals,
                    ..proposals
                }),
            }
        }),
{
    let mut proposals = proposals;
    let mut removals: Vec<ProposalInfo<RemoveProposal>> = Vec::new();
    core::mem::swap(&mut removals, &mut proposals.removals);
    let (kept, err) = retain_proposals(
        strategy,
        removals,
        &NotRemovalOfCommitter { commit_sender },
    );
    match err {
        Some(e) => Err(e),
        None => {
            proposals.removals = kept;
            Ok(proposals)
        },
    }
}

/// Keeps the first group context extensions proposal; drops, or fails on, the
/// others.
pub fn filter_out_extra_group_context_extensions(
    strategy: FilterStrategy,
    proposals: ProposalBundle,
) -> (r: Result<ProposalBundle, MlsError>)
    ensures
        ({
            let (kept, err) = spec_retain(
                strategy,
                FirstGroupContextExtensions,
                proposals.group_context_extensions@,
            );
            match err {
                Some(e) => r == Err::<ProposalBundle, MlsError>(e),
                None => r matches Ok(b) && b.group_context_extensions@ == kept && b == (
                ProposalBundle { group_context_extensions: b.group_context_extensions, ..proposals }),
            }
        }),
{
    let mut proposals = proposals;
    let mut gce: Vec<ProposalInfo<ExtensionList>> = Vec::new();
    core::mem::swap(&mut gce, &mut proposals.group_context_extensions);
    let (kept, err) = retain_proposals(strategy, gce, &FirstGroupContextExtensions);
    match err {
        Some(e) => Err(e),
        None => {
            proposals.group_context_extensions = kept;
            Ok(proposals)
        },
    }
}

/// Drops, or fails on, the reinit proposals that ask for a protocol version
/// older than `protocol_version`.
pub fn filter_out_invalid_reinit(
    strategy: FilterStrategy,
    proposals: ProposalBundle,
    protocol_version: ProtocolVersion,
) -> (r: Result<ProposalBundle, MlsError>)
    ensures
        ({
            let (kept, err) = spec_retain(
                strategy,
                ReInitVersionNotOlder { protocol_version },
                proposals.reinitializations@,
            );
            match err {
                Some(e) => r == Err::<ProposalBundle, MlsError>(e),
                None => r matches Ok(b) && b.reinitializations@ == kept && b == (ProposalBundle {
                    reinitializations: b.reinitializations,
                    ..proposals
                }),
            }
        }),
{
    let mut proposals = proposals;
    let mut reinits: Vec<ProposalInfo<ReInitProposal>> = Vec::new();
    core::mem::swap(&mut reinits, &mut proposals.reinitializations);
    let (kept, err) = retain_proposals(
        strategy,
        reinits,
        &ReInitVersionNotOlder { protocol_version },
    );
    match err {
        Some(e) => Err(e),
        None => {
            proposals.reinitializations = kept;
            Ok(proposals)
        },
    }
}

/// Drops, or fails on, every external init proposal.
pub fn filter_out_external_init(strategy: FilterStrategy, proposals: ProposalBundle) -> (r: Result<
    ProposalBundle,
    MlsError,
>)
    ensures
        ({
            let (kept, err) = spec_retain(
                strategy,
                NoExternalInit,
                proposals.external_initializations@,
            );
            match err {
                Some(e) => r == Err::<ProposalBundle, MlsError>(e),
                None => r matches Ok(b) && b.external_initializations@ == kept && b == (
                ProposalBundle { external_initializations: b.external_initializations, ..proposals }),
            }
        }),
{
    let mut proposals = proposals;
    let mut inits: Vec<ProposalInfo<ExternalInit>> = Vec::new();
    core::mem::swap(&mut inits, &mut proposals.external_initializations);
    let (kept, err) = retain_proposals(strategy, inits, &NoExternalInit);
    match err {
        Some(e) => Err(e),
        None => {
            proposals.external_initializations = kept;
            Ok(proposals)
        },
    }
}

/// Some proposal of `items` came inside the commit.
pub open spec fn spec_any_by_value<T>(items: Seq<ProposalInfo<T>>) -> bool {
    exists|i: int| 0 <= i < items.len() && !(#[trigger] items[i]).spec_is_by_reference()
}

/// Reinit proposals `reinits` next to `others` proposals of other types are in
/// conflict: where there are other proposals, if a reinit proposal came inside
/// the commit or, unless `filter`, if there is any.
pub open spec fn spec_reinit_conflict(
    filter: bool,
    others: nat,
    reinits: Seq<ProposalInfo<ReInitProposal>>,
) -> bool {
    others > 0 && (spec_any_by_value(reinits) || (reinits.len() > 0 && !filter))
}

/// The number of proposals in the bundle that are not reinit proposals.
pub open spec fn spec_other_than_reinit(proposals: ProposalBundle) -> nat {
    (proposals.spec_length() - proposals.reinitializations@.len()) as nat
}

/// A commit may hold reinit proposals only where it holds nothing else: where
/// there are other proposals, fails if a reinit proposal came by value or,
/// unless `filter`, if there is any; otherwise drops the reinit proposals.
pub fn filter_out_reinit_if_other_proposals(filter: bool, proposals: ProposalBundle) -> (r: Result<
    ProposalBundle,
    MlsError,
>)
    ensures
        if spec_reinit_conflict(
            filter,
            spec_other_than_reinit(proposals),
            proposals.reinitializations@,
        ) {
            r == Err::<ProposalBundle, MlsError>(MlsError::OtherProposalWithReInit)
        } else {
            r matches Ok(b) && if spec_other_than_reinit(proposals) > 0 {
                b.reinitializations@.len() == 0 && b == (ProposalBundle {
                    reinitializations: b.reinitializations,
                    ..proposals
                })
            } else {
                b == proposals
            }
        },
        r matches Ok(b) ==> b.reinitializations@.len() == 0 || spec_other_than_reinit(b) == 0,
{
    let mut proposals = proposals;
    let has_other_types = proposals.additions.len() > 0 || proposals.updates.len() > 0
        || proposals.removals.len() > 0 || proposals.psks.len() > 0
        || proposals.external_initializations.len() > 0
        || proposals.group_context_extensions.len() > 0 || proposals.custom_proposals.len() > 0;
    if has_other_types {
        let mut any_by_val = false;
        let mut i: usize = 0;
        while i < proposals.reinitializations.len()
            invariant
                i <= proposals.reinitializations@.len(),
                any_by_val == exists|j: int|
                    0 <= j < i && !(#[trigger] proposals.reinitializations@[j]).spec_is_by_reference(),
            decreases proposals.reinitializations@.len() - i,
        {
            if proposals.reinitializations[i].is_by_value() {
                any_by_val = true;
            }
            i = i + 1;
        }
        if any_by_val || (proposals.reinitializations.len() > 0 && !filter) {
            return Err(MlsError::OtherProposalWithReInit);
        }
        proposals.reinitializations = Vec::new();
    }
    Ok(proposals)
}

/// Some proposal of a standard type fails the sender check of its type and is
/// not ignored by the strategy.
pub open spec fn spec_invalid_proposers_error(strategy: FilterStrategy, proposals: ProposalBundle) -> bool {
    ||| spec_retain(strategy, SenderMayPropose { proposal_type: ProposalType(ProposalType::ADD) }, proposals.additions@).1 is Some
    ||| spec_retain(strategy, SenderMayPropose { proposal_type: ProposalType(ProposalType::UPDATE) }, proposals.updates@).1 is Some
    ||| spec_retain(strategy, SenderMayPropose { proposal_type: ProposalType(ProposalType::REMOVE) }, proposals.removals@).1 is Some
    ||| spec_retain(strategy, SenderMayPropose { proposal_type: ProposalType(ProposalType::PSK) }, proposals.psks@).1 is Some
    ||| spec_retain(strategy, SenderMayPropose { proposal_type: ProposalType(ProposalType::RE_INIT) }, proposals.reinitializations@).1 is Some
    ||| spec_retain(strategy, SenderMayPropose { proposal_type: ProposalType(ProposalType::EXTERNAL_INIT) }, proposals.external_initializations@).1 is Some
    ||| spec_retain(strategy, SenderMayPropose { proposal_type: ProposalType(ProposalType::GROUP_CONTEXT_EXTENSIONS) }, proposals.group_context_extensions@).1 is Some
}

/// The bundle `b` holds, of each standard type, the proposals of `proposals`
/// whose senders may send them, and the rest unchanged.
pub open spec fn spec_invalid_proposers_filtered(
    strategy: FilterStrategy,
    proposals: ProposalBundle,
    b: ProposalBundle,
) -> bool {
    &&& b.additions@ == spec_retain(strategy, SenderMayPropose { proposal_type: ProposalType(ProposalType::ADD) }, proposals.additions@).0
    &&& b.updates@ == spec_retain(strategy, SenderMayPropose { proposal_type: ProposalType(ProposalType::UPDATE) }, proposals.updates@).0
    &&& b.removals@ == spec_retain(strategy, SenderMayPropose { proposal_type: ProposalType(ProposalType::REMOVE) }, proposals.removals@).0
    &&& b.psks@ == spec_retain(strategy, SenderMayPropose { proposal_type: ProposalType(ProposalType::PSK) }, proposals.psks@).0
    &&& b.reinitializations@ == spec_retain(strategy, SenderMayPropose { proposal_type: ProposalType(ProposalType::RE_INIT) }, proposals.reinitializations@).0
    &&& b.external_initializations@ == spec_retain(strategy, SenderMayPropose { proposal_type: ProposalType(ProposalType::EXTERNAL_INIT) }, proposals.external_initializations@).0
    &&& b.group_context_extensions@ == spec_retain(strategy, SenderMayPropose { proposal_type: ProposalType(ProposalType::GROUP_CONTEXT_EXTENSIONS) }, proposals.group_context_extensions@).0
    &&& b.update_senders == proposals.update_senders
    &&& b.custom_proposals == proposals.custom_proposals
}

/// Drops, or fails on, the proposals whose senders may not send them, or not in
/// the form in which they came.
#[verifier::spinoff_prover]
pub fn filter_out_invalid_proposers(strategy: FilterStrategy, proposals: ProposalBundle) -> (r:
    Result<ProposalBundle, MlsError>)
    ensures
        if spec_invalid_proposers_error(strategy, proposals) {
            r == Err::<ProposalBundle, MlsError>(MlsError::InvalidProposalTypeForSender)
        } else {
            r matches Ok(b) && spec_invalid_proposers_filtered(strategy, proposals, b)
        },
{
    let ghost old_proposals = proposals;
    let mut proposals = proposals;

    let mut additions: Vec<ProposalInfo<AddProposal>> = Vec::new();
    core::mem::swap(&mut additions, &mut proposals.additions);
    let (kept, err) = retain_proposals(strategy, additions, &SenderMayPropose { proposal_type: ProposalType(ProposalType::ADD) });
    if let Some(e) = err {
        proof { lemma_sender_errors_are_invalid_type(strategy, ProposalType(ProposalType::ADD), old_proposals.additions@); }
        return Err(e);
    }
    proposals.additions = kept;

    let mut updates: Vec<ProposalInfo<UpdateProposal>> = Vec::new();
    core::mem::swap(&mut updates, &mut proposals.updates);
    let (kept, err) = retain_proposals(strategy, updates, &SenderMayPropose { proposal_type: ProposalType(ProposalType::UPDATE) });
    if let Some(e) = err {
        proof { lemma_sender_errors_are_invalid_type(strategy, ProposalType(ProposalType::UPDATE), old_proposals.updates@); }
        return Err(e);
    }
    proposals.updates = kept;

    let mut removals: Vec<ProposalInfo<RemoveProposal>> = Vec::new();
    core::mem::swap(&mut removals, &mut proposals.removals);
    let (kept, err) = retain_proposals(strategy, removals, &SenderMayPropose { proposal_type: ProposalType(ProposalType::REMOVE) });
    if let Some(e) = err {
        proof { lemma_sender_errors_are_invalid_type(strategy, ProposalType(ProposalType::REMOVE), old_proposals.removals@); }
        return Err(e);
    }
    proposals.removals = kept;

    let mut psks: Vec<ProposalInfo<PreSharedKeyProposal>> = Vec::new();
    core::mem::swap(&mut psks, &mut proposals.psks);
    let (kept, err) = retain_proposals(strategy, psks, &SenderMayPropose { proposal_type: ProposalType(ProposalType::PSK) });
    if let Some(e) = err {
        proof { lemma_sender_errors_are_invalid_type(strategy, ProposalType(ProposalType::PSK), old_proposals.psks@); }
        return Err(e);
    }
    proposals.psks = kept;

    let mut reinits: Vec<ProposalInfo<ReInitProposal>> = Vec::new();
    core::mem::swap(&mut reinits, &mut proposals.reinitializations);
    let (kept, err) = retain_proposals(strategy, reinits, &SenderMayPropose { proposal_type: ProposalType(ProposalType::RE_INIT) });
    if let Some(e) = err {
        proof { lemma_sender_errors_are_invalid_type(strategy, ProposalType(ProposalType::RE_INIT), old_proposals.reinitializations@); }
        return Err(e);
    }
    proposals.reinitializations = kept;

    let mut inits: Vec<ProposalInfo<ExternalInit>> = Vec::new();
    core::mem::swap(&mut inits, &mut proposals.external_initializations);
    let (kept, err) = retain_proposals(strategy, inits, &SenderMayPropose { proposal_type: ProposalType(ProposalType::EXTERNAL_INIT) });
    if let Some(e) = err {
        proof { lemma_sender_errors_are_invalid_type(strategy, ProposalType(ProposalType::EXTERNAL_INIT), old_proposals.external_initializations@); }
        return Err(e);
    }
    proposals.external_initializations = kept;

    let mut gce: Vec<ProposalInfo<ExtensionList>> = Vec::new();
    core::mem::swap(&mut gce, &mut proposals.group_context_extensions);
    let (kept, err) = retain_proposals(strategy, gce, &SenderMayPropose { proposal_type: ProposalType(ProposalType::GROUP_CONTEXT_EXTENSIONS) });
    if let Some(e) = err {
        proof { lemma_sender_errors_are_invalid_type(strategy, ProposalType(ProposalType::GROUP_CONTEXT_EXTENSIONS), old_proposals.group_context_extensions@); }
        return Err(e);
    }
    proposals.group_context_extensions = kept;

    Ok(proposals)
}

/// The only error of the sender check is `InvalidProposalTypeForSender`.
pub proof fn lemma_sender_errors_are_invalid_type<T>(
    strategy: FilterStrategy,
    proposal_type: ProposalType,
    items: Seq<ProposalInfo<T>>,
)
    ensures
        spec_retain(strategy, SenderMayPropose { proposal_type }, items).1 matches Some(e) ==> e
            == MlsError::InvalidProposalTypeForSender,
    decreases items.len(),
{
    if items.len() > 0 {
        lemma_sender_errors_are_invalid_type(strategy, proposal_type, items.drop_last());
    }
}

pub open spec fn spec_leaf_index_of_update_sender(p: ProposalInfo<UpdateProposal>) -> Result<
    LeafIndex,
    MlsError,
> {
    match p.sender {
        Sender::Member(i) => Ok(LeafIndex(i)),
        _ => Err(MlsError::InvalidProposalTypeForSender),
    }
}

/// The leaf of the member that sent an update proposal; fails where a
/// non-member sent it.
pub fn leaf_index_of_update_sender(p: &ProposalInfo<UpdateProposal>) -> (r: Result<
    LeafIndex,
    MlsError,
>)
    ensures
        r == spec_leaf_index_of_update_sender(*p),
{
    match p.sender {
        Sender::Member(i) => Ok(LeafIndex(i)),
        _ => Err(MlsError::InvalidProposalTypeForSender),
    }
}

/// Drops, or fails on, the custom proposals whose type some member of `tree`
/// does not support; the bundle keeps the custom proposals that pass whether or
/// not the call fails.
pub fn filter_out_unsupported_custom_proposals(
    proposals: &mut ProposalBundle,
    tree: &TreeKemPublic,
    strategy: FilterStrategy,
) -> (r: Result<(), MlsError>)
    ensures
        ({
            let (kept, err) = spec_retain(
                strategy,
                SupportedByTree { tree },
                old(proposals).custom_proposals@,
            );
            &&& final(proposals).custom_proposals@ == kept
            &&& *final(proposals) == (ProposalBundle {
                custom_proposals: final(proposals).custom_proposals,
                ..*old(proposals)
            })
            &&& r == match err {
                Some(e) => Err::<(), MlsError>(e),
                None => Ok(()),
            }
        }),
{
    let mut custom: Vec<ProposalInfo<CustomProposal>> = Vec::new();
    core::mem::swap(&mut custom, &mut proposals.custom_proposals);
    let (kept, err) = retain_proposals(strategy, custom, &SupportedByTree { tree });
    proposals.custom_proposals = kept;
    match err {
        Some(e) => Err(e),
        None => Ok(()),
    }
}

/// Every kept proposal is a proposal of `items` that passed the check.
pub proof fn lemma_retain_keeps_only_valid<T, C: ProposalCheck<T>>(
    strategy: FilterStrategy,
    check: C,
    items: Seq<ProposalInfo<T>>,
)
    ensures
        forall|k: int|
            0 <= k < spec_retain(strategy, check, items).0.len() ==> exists|i: int|
                0 <= i < items.len() && #[trigger] spec_retain(strategy, check, items).0[k]
                    == items[i] && check.spec_check(i, items[i]) is Ok,
    decreases items.len(),
{
    if items.len() > 0 {
        let d = items.drop_last();
        lemma_retain_keeps_only_valid(strategy, check, d);
        let kept = spec_retain(strategy, check, items).0;
        let kept0 = spec_retain(strategy, check, d).0;
        assert forall|k: int| 0 <= k < kept.len() implies exists|i: int|
            0 <= i < items.len() && #[trigger] kept[k] == items[i] && check.spec_check(
                i,
                items[i],
            ) is Ok by {
            if k < kept0.len() {
                assert(kept[k] == kept0[k]);
                let i = choose|i: int|
                    0 <= i < d.len() && #[trigger] kept0[k] == d[i] && check.spec_check(i, d[i]) is Ok;
                assert(d[i] == items[i]);
            } else {
                assert(kept[k] == items[items.len() - 1]);
            }
        }
    }
}

/// The filter fails exactly where some proposal fails the check and the
/// strategy does not ignore it.
pub proof fn lemma_retain_error_iff<T, C: ProposalCheck<T>>(
    strategy: FilterStrategy,
    check: C,
    items: Seq<ProposalInfo<T>>,
)
    ensures
        spec_retain(strategy, check, items).1 is Some <==> exists|i: int|
            0 <= i < items.len() && check.spec_check(i, items[i]) is Err && !strategy.spec_ignore(
                (#[trigger] items[i]).spec_is_by_reference(),
            ),
    decreases items.len(),
{
    if items.len() > 0 {
        let d = items.drop_last();
        lemma_retain_error_iff(strategy, check, d);
        if spec_retain(strategy, check, d).1 is Some {
            let i = choose|i: int|
                0 <= i < d.len() && check.spec_check(i, d[i]) is Err && !strategy.spec_ignore(
                    (#[trigger] d[i]).spec_is_by_reference(),
                );
            assert(d[i] == items[i]);
        }
        if exists|i: int|
            0 <= i < items.len() && check.spec_check(i, items[i]) is Err && !strategy.spec_ignore(
                (#[trigger] items[i]).spec_is_by_reference(),
            ) {
            let i = choose|i: int|
                0 <= i < items.len() && check.spec_check(i, items[i]) is Err
                    && !strategy.spec_ignore((#[trigger] items[i]).spec_is_by_reference());
            if i < d.len() {
                assert(d[i] == items[i]);
            }
        }
    }
}

/// A proposal that came inside the commit and fails the check always makes the
/// filter fail, whatever the strategy.
pub proof fn lemma_retain_invalid_by_value_fails<T, C: ProposalCheck<T>>(
    strategy: FilterStrategy,
    check: C,
    items: Seq<ProposalInfo<T>>,
    i: int,
)
    requires
        0 <= i < items.len(),
        check.spec_check(i, items[i]) is Err,
        !items[i].spec_is_by_reference(),
    ensures
        spec_retain(strategy, check, items).1 is Some,
{
    lemma_retain_error_iff(strategy, check, items);
}

/// Under `IgnoreNone` nothing is dropped: where the filter does not fail, it
/// keeps every proposal.
pub proof fn lemma_retain_ignore_none_keeps_all<T, C: ProposalCheck<T>>(
    check: C,
    items: Seq<ProposalInfo<T>>,
)
    ensures
        spec_retain(FilterStrategy::IgnoreNone, check, items).1 is None ==> spec_retain(
            FilterStrategy::IgnoreNone,
            check,
            items,
        ).0 == items,
    decreases items.len(),
{
    if items.len() > 0 {
        let d = items.drop_last();
        lemma_retain_ignore_none_keeps_all(check, d);
        assert(d.push(items.last()) =~= items);
    }
}

/// The group context extensions filter keeps at most one proposal.
pub proof fn lemma_at_most_one_group_context_extensions(
    strategy: FilterStrategy,
    items: Seq<ProposalInfo<ExtensionList>>,
)
    ensures
        spec_retain(strategy, FirstGroupContextExtensions, items).0.len() <= 1,
        items.len() > 0 ==> spec_retain(strategy, FirstGroupContextExtensions, items).0.len() == 1,
    decreases items.len(),
{
    if items.len() > 0 {
        lemma_at_most_one_group_context_extensions(strategy, items.drop_last());
    }
}

/// After the sender filter, every update proposal comes from a member, so the
/// leaf of its sender is known.
pub proof fn lemma_updates_come_from_members(strategy: FilterStrategy, proposals: ProposalBundle, b: ProposalBundle)
    requires
        spec_invalid_proposers_filtered(strategy, proposals, b),
    ensures
        forall|i: int|
            0 <= i < b.updates@.len() ==> spec_leaf_index_of_update_sender(
                #[trigger] b.updates@[i],
            ) is Ok,
{
    let c = SenderMayPropose { proposal_type: ProposalType(ProposalType::UPDATE) };
    lemma_retain_keeps_only_valid(strategy, c, proposals.updates@);
    assert forall|k: int| 0 <= k < b.updates@.len() implies spec_leaf_index_of_update_sender(
        #[trigger] b.updates@[k],
    ) is Ok by {
        let i = choose|i: int|
            0 <= i < proposals.updates@.len() && #[trigger] spec_retain(
                strategy,
                c,
                proposals.updates@,
            ).0[k] == proposals.updates@[i] && c.spec_check(i, proposals.updates@[i]) is Ok;
    }
}

/// The leaves of the senders of the update proposals, in order; fails where a
/// non-member sent one.
pub fn update_senders_of(updates: &Vec<ProposalInfo<UpdateProposal>>) -> (r: Result<
    Vec<LeafIndex>,
    MlsError,
>)
    ensures
        match r {
            Ok(v) => {
                &&& v@.len() == updates@.len()
                &&& forall|i: int|
                    0 <= i < updates@.len() ==> spec_leaf_index_of_update_sender(
                        #[trigger] updates@[i],
                    ) == Ok::<LeafIndex, MlsError>(v@[i])
            },
            Err(e) => {
                &&& e == MlsError::InvalidProposalTypeForSender
                &&& exists|i: int|
                    0 <= i < updates@.len() && spec_leaf_index_of_update_sender(
                        #[trigger] updates@[i],
                    ) is Err
            },
        },
{
    let mut senders: Vec<LeafIndex> = Vec::new();
    let mut i: usize = 0;
    while i < updates.len()
        invariant
            i <= updates@.len(),
            senders@.len() == i,
            forall|j: int|
                0 <= j < i ==> spec_leaf_index_of_update_sender(#[trigger] updates@[j]) == Ok::<
                    LeafIndex,
                    MlsError,
                >(senders@[j]),
        decreases updates@.len() - i,
    {
        match leaf_index_of_update_sender(&updates[i]) {
            Ok(l) => {
                senders.push(l);
            },
            Err(e) => {
                assert(spec_leaf_index_of_update_sender(updates@[i as int]) is Err);
                return Err(e);
            },
        }
        i = i + 1;
    }
    Ok(senders)
}

/// What the sender checks of a member's commit give, before its pre-shared keys
/// are checked: proposals whose senders may not send them, updates from the
/// committer and removals of the committer are dropped or make the commit fail,
/// and the leaves of the update senders are recorded.
pub open spec fn spec_prepared_from_member(
    strategy: FilterStrategy,
    commit_sender: LeafIndex,
    proposals: ProposalBundle,
    r: Result<ProposalBundle, MlsError>,
) -> bool {
    let u1 = spec_retain(strategy, SenderMayPropose { proposal_type: ProposalType(ProposalType::UPDATE) }, proposals.updates@).0;
    let r1 = spec_retain(strategy, SenderMayPropose { proposal_type: ProposalType(ProposalType::REMOVE) }, proposals.removals@).0;
    let (u2, eu) = spec_retain(strategy, NotUpdateOfCommitter { commit_sender }, u1);
    let (r2, er) = spec_retain(strategy, NotRemovalOfCommitter { commit_sender }, r1);
    if spec_invalid_proposers_error(strategy, proposals) {
        r == Err::<ProposalBundle, MlsError>(MlsError::InvalidProposalTypeForSender)
    } else if eu is Some {
        r == Err::<ProposalBundle, MlsError>(eu->0)
    } else if er is Some {
        r == Err::<ProposalBundle, MlsError>(er->0)
    } else {
        &&& r is Ok
        &&& r->Ok_0.updates@ == u2
        &&& r->Ok_0.removals@ == r2
        &&& r->Ok_0.update_senders@.len() == u2.len()
        &&& forall|i: int| 0 <= i < u2.len() ==> spec_leaf_index_of_update_sender(#[trigger] u2[i]) == Ok::<LeafIndex, MlsError>(r->Ok_0.update_senders@[i])
        &&& r->Ok_0.additions@ == spec_retain(strategy, SenderMayPropose { proposal_type: ProposalType(ProposalType::ADD) }, proposals.additions@).0
        &&& r->Ok_0.psks@ == spec_retain(strategy, SenderMayPropose { proposal_type: ProposalType(ProposalType::PSK) }, proposals.psks@).0
        &&& r->Ok_0.reinitializations@ == spec_retain(strategy, SenderMayPropose { proposal_type: ProposalType(ProposalType::RE_INIT) }, proposals.reinitializations@).0
        &&& r->Ok_0.external_initializations@ == spec_retain(strategy, SenderMayPropose { proposal_type: ProposalType(ProposalType::EXTERNAL_INIT) }, proposals.external_initializations@).0
        &&& r->Ok_0.group_context_extensions@ == spec_retain(strategy, SenderMayPropose { proposal_type: ProposalType(ProposalType::GROUP_CONTEXT_EXTENSIONS) }, proposals.group_context_extensions@).0
        &&& r->Ok_0.custom_proposals == proposals.custom_proposals
    }
}

/// The sender checks that a member's commit goes through before its pre-shared
/// keys are checked: the sender filter, then the committer's own updates, then
/// the leaves of the update senders, then removals of the committer.
#[verifier::spinoff_prover]
pub fn prepare_proposals_from_member(
    strategy: FilterStrategy,
    commit_sender: LeafIndex,
    proposals: ProposalBundle,
) -> (r: Result<ProposalBundle, MlsError>)
    ensures
        spec_prepared_from_member(strategy, commit_sender, proposals, r),
{
    let ghost p0 = proposals;
    let proposals = match filter_out_invalid_proposers(strategy, proposals) {
        Ok(b) => b,
        Err(e) => {
            return Err(e);
        },
    };
    let ghost p1 = proposals;
    let mut proposals = match filter_out_update_for_committer(strategy, commit_sender, proposals) {
        Ok(b) => b,
        Err(e) => {
            return Err(e);
        },
    };
    let ghost p2 = proposals;
    match update_senders_of(&proposals.updates) {
        Ok(senders) => {
            proposals.update_senders = senders;
        },
        Err(e) => {
            proof {
                lemma_updates_come_from_members(strategy, p0, p1);
                let c = NotUpdateOfCommitter { commit_sender };
                lemma_retain_keeps_only_valid(strategy, c, p1.updates@);
                let k = choose|k: int|
                    0 <= k < p2.updates@.len() && spec_leaf_index_of_update_sender(
                        #[trigger] p2.updates@[k],
                    ) is Err;
                let i = choose|i: int|
                    0 <= i < p1.updates@.len() && #[trigger] spec_retain(
                        strategy,
                        c,
                        p1.updates@,
                    ).0[k] == p1.updates@[i] && c.spec_check(i, p1.updates@[i]) is Ok;
                assert(spec_leaf_index_of_update_sender(p1.updates@[i]) is Ok);
            }
            return Err(e);
        },
    }
    let proposals = match filter_out_removal_of_committer(strategy, commit_sender, proposals) {
        Ok(b) => b,
        Err(e) => {
            return Err(e);
        },
    };
    Ok(proposals)
}

/// What the content checks of a member's commit give, once its pre-shared keys
/// are checked: at most one group context extensions proposal, no reinit to an
/// older version, no reinit next to other proposals, no external init.
pub open spec fn spec_finished_from_member(
    strategy: FilterStrategy,
    protocol_version: ProtocolVersion,
    proposals: ProposalBundle,
    r: Result<ProposalBundle, MlsError>,
) -> bool {
    let (g1, eg) = spec_retain(strategy, FirstGroupContextExtensions, proposals.group_context_extensions@);
    let (ri1, eri) = spec_retain(strategy, ReInitVersionNotOlder { protocol_version }, proposals.reinitializations@);
    let (x1, ex) = spec_retain(strategy, NoExternalInit, proposals.external_initializations@);
    let others: nat = proposals.additions@.len() + proposals.updates@.len() + proposals.removals@.len()
        + proposals.psks@.len() + proposals.external_initializations@.len() + g1.len()
        + proposals.custom_proposals@.len();
    if eg is Some {
        r == Err::<ProposalBundle, MlsError>(eg->0)
    } else if eri is Some {
        r == Err::<ProposalBundle, MlsError>(eri->0)
    } else if spec_reinit_conflict(strategy.spec_is_ignore(), others, ri1) {
        r == Err::<ProposalBundle, MlsError>(MlsError::OtherProposalWithReInit)
    } else if ex is Some {
        r == Err::<ProposalBundle, MlsError>(ex->0)
    } else {
        &&& r is Ok
        &&& r->Ok_0.group_context_extensions@ == g1
        &&& r->Ok_0.reinitializations@ == (if others > 0 { Seq::empty() } else { ri1 })
        &&& r->Ok_0.external_initializations@ == x1
        &&& r->Ok_0 == (ProposalBundle {
            group_context_extensions: r->Ok_0.group_context_extensions,
            reinitializations: r->Ok_0.reinitializations,
            external_initializations: r->Ok_0.external_initializations,
            ..proposals
        })
    }
}

/// The content checks that a member's commit goes through once its pre-shared
/// keys are checked: extra group context extensions, reinits to older versions,
/// reinits next to other proposals, then external inits.
#[verifier::spinoff_prover]
pub fn finish_proposals_from_member(
    strategy: FilterStrategy,
    protocol_version: ProtocolVersion,
    proposals: ProposalBundle,
) -> (r: Result<ProposalBundle, MlsError>)
    ensures
        spec_finished_from_member(strategy, protocol_version, proposals, r),
{
    let proposals = match filter_out_extra_group_context_extensions(strategy, proposals) {
        Ok(b) => b,
        Err(e) => {
            return Err(e);
        },
    };
    let proposals = match filter_out_invalid_reinit(strategy, proposals, protocol_version) {
        Ok(b) => b,
        Err(e) => {
            return Err(e);
        },
    };
    let ghost p2 = proposals;
    let proposals = match filter_out_reinit_if_other_proposals(strategy.is_ignore(), proposals) {
        Ok(b) => b,
        Err(e) => {
            return Err(e);
        },
    };
    let proposals = match filter_out_external_init(strategy, proposals) {
        Ok(b) => b,
        Err(e) => {
            return Err(e);
        },
    };
    proof {
        if spec_other_than_reinit(p2) > 0 {
            assert(proposals.reinitializations@ =~= Seq::<ProposalInfo<ReInitProposal>>::empty());
        }
    }
    Ok(proposals)
}

/// The outcomes of checks made elsewhere, one per proposal, in order.
pub struct GivenOutcomes<'a> {
    pub outcomes: &'a Vec<Result<(), MlsError>>,
}

impl<'a, T> ProposalCheck<T> for GivenOutcomes<'a> {
    open spec fn spec_check(&self, index: int, p: ProposalInfo<T>) -> Result<(), MlsError> {
        if 0 <= index < self.outcomes@.len() {
            self.outcomes@[index]
        } else {
            Ok(())
        }
    }

    fn check(&self, index: usize, p: &ProposalInfo<T>) -> (r: Result<(), MlsError>) {
        if index < self.outcomes.len() {
            self.outcomes[index]
        } else {
            Ok(())
        }
    }
}

/// Drops, or fails on, the group context extensions proposals whose external
/// senders extension did not check out; `outcomes[i]` is the outcome of checking
/// the `i`-th proposal.
pub fn filter_out_invalid_group_extensions(
    strategy: FilterStrategy,
    proposals: ProposalBundle,
    outcomes: &Vec<Result<(), MlsError>>,
) -> (r: Result<ProposalBundle, MlsError>)
    ensures
        ({
            let (kept, err) = spec_retain(
                strategy,
                GivenOutcomes { outcomes },
                proposals.group_context_extensions@,
            );
            if outcomes@.len() != proposals.group_context_extensions@.len() {
                r == Err::<ProposalBundle, MlsError>(MlsError::InternalProposalFilterError)
            } else {
                match err {
                    Some(e) => r == Err::<ProposalBundle, MlsError>(e),
                    None => r matches Ok(b) && b.group_context_extensions@ == kept && b == (
                    ProposalBundle { group_context_extensions: b.group_context_extensions, ..proposals }),
                }
            }
        }),
{
    if outcomes.len() != proposals.group_context_extensions.len() {
        return Err(MlsError::InternalProposalFilterError);
    }
    let mut proposals = proposals;
    let mut gce: Vec<ProposalInfo<ExtensionList>> = Vec::new();
    core::mem::swap(&mut gce, &mut proposals.group_context_extensions);
    let (kept, err) = retain_proposals(strategy, gce, &GivenOutcomes { outcomes });
    match err {
        Some(e) => Err(e),
        None => {
            proposals.group_context_extensions = kept;
            Ok(proposals)
        },
    }
}

/// The elements of `s` that the mask does not strike out: the `i`-th element
/// goes where `i` is beyond the mask or `mask[i]` holds.
pub open spec fn spec_mask_filter<X>(s: Seq<X>, mask: Seq<bool>) -> Seq<X>
    decreases s.len(),
{
    if s.len() == 0 {
        Seq::empty()
    } else {
        let rest = spec_mask_filter(s.drop_last(), mask);
        if s.len() - 1 < mask.len() && !mask[s.len() - 1] {
            rest
        } else {
            rest.push(s.last())
        }
    }
}

/// Keeps the elements of `v` that the mask does not strike out.
pub fn filter_by_mask<X>(v: Vec<X>, mask: &Vec<bool>) -> (r: Vec<X>)
    ensures
        r@ == spec_mask_filter(v@, mask@),
{
    let ghost all = v@;
    let total: usize = v.len();
    let mut rest = v;
    let mut reversed: Vec<X> = Vec::new();
    while rest.len() > 0
        invariant
            all == rest@ + reversed@.reverse(),
        decreases rest@.len(),
    {
        let ghost r0 = rest@;
        let ghost v0 = reversed@;
        let x = rest.pop().unwrap();
        reversed.push(x);
        proof {
            assert(reversed@.reverse() =~= seq![x] + v0.reverse());
            assert(r0 =~= rest@.push(x));
            assert(all =~= rest@ + reversed@.reverse());
        }
    }
    let mut kept: Vec<X> = Vec::new();
    let mut i: usize = 0;
    assert(all =~= reversed@.reverse());
    while reversed.len() > 0
        invariant
            i + reversed@.len() == total,
            total == all.len(),
            all.skip(i as int) =~= reversed@.reverse(),
            kept@ == spec_mask_filter(all.take(i as int), mask@),
        decreases reversed@.len(),
    {
        let ghost v0 = reversed@;
        let x = reversed.pop().unwrap();
        proof {
            assert(v0.reverse()[0] == x);
            assert(all.skip(i as int)[0] == x);
            assert(all.take(i + 1).drop_last() =~= all.take(i as int));
            assert(all.take(i + 1).last() == x);
            assert(v0.reverse().skip(1) =~= reversed@.reverse());
            assert(all.skip(i + 1) =~= all.skip(i as int).skip(1));
        }
        if i < mask.len() && !mask[i] {
        } else {
            kept.push(x);
        }
        i = i + 1;
    }
    assert(all.take(i as int) =~= all);
    kept
}

/// What validating one update proposal gives under a strategy: `Err(e)` where
/// its sender's current leaf could not be read, whatever the strategy;
/// otherwise the strategy applied to the outcome of the checks.
pub open spec fn spec_update_step(
    strategy: FilterStrategy,
    by_ref: bool,
    v: Result<Result<(), MlsError>, MlsError>,
) -> Result<bool, MlsError> {
    match v {
        Err(e) => Err(e),
        Ok(outcome) => spec_apply_strategy(strategy, by_ref, outcome),
    }
}

/// The outcome of the checks of an update proposal: whether the new leaf is
/// valid, whether it supports the group's extensions, and whether its identity
/// is a valid successor of the old one (`Ok(false)` where it is not); the first
/// failure counts.
pub open spec fn spec_update_outcome(
    valid: Result<(), MlsError>,
    extensions_supported: Result<(), MlsError>,
    successor: Result<bool, MlsError>,
) -> Result<(), MlsError> {
    match valid {
        Err(e) => Err(e),
        Ok(()) => match extensions_supported {
            Err(e) => Err(e),
            Ok(()) => match successor {
                Ok(true) => Ok(()),
                Ok(false) => Err(MlsError::InvalidSuccessor),
                Err(e) => Err(e),
            },
        },
    }
}

/// Combines the checks of an update proposal into its outcome: the first of
/// the leaf check, the extension support and the successor check that fails,
/// where a new identity that is not a valid successor gives `InvalidSuccessor`.
pub fn update_outcome(
    valid: Result<(), MlsError>,
    extensions_supported: Result<(), MlsError>,
    successor: Result<bool, MlsError>,
) -> (r: Result<(), MlsError>)
    ensures
        r == spec_update_outcome(valid, extensions_supported, successor),
{
    match valid {
        Err(e) => Err(e),
        Ok(()) => match extensions_supported {
            Err(e) => Err(e),
            Ok(()) => match successor {
                Ok(true) => Ok(()),
                Ok(false) => Err(MlsError::InvalidSuccessor),
                Err(e) => Err(e),
            },
        },
    }
}

/// The error of the last update proposal of `items` that is rejected and that
/// the strategy does not drop.
pub open spec fn spec_last_rejection<T>(
    strategy: FilterStrategy,
    outcomes: Seq<Result<Result<(), MlsError>, MlsError>>,
    items: Seq<ProposalInfo<T>>,
) -> Option<MlsError>
    decreases items.len(),
{
    if items.len() == 0 {
        None
    } else {
        let i = items.len() - 1;
        match spec_update_step(strategy, items[i].spec_is_by_reference(), outcomes[i]) {
            Err(e) => Some(e),
            _ => spec_last_rejection(strategy, outcomes, items.drop_last()),
        }
    }
}

/// Which update proposals of `items` to keep: those whose checks passed.
pub open spec fn spec_keep_mask<T>(
    strategy: FilterStrategy,
    outcomes: Seq<Result<Result<(), MlsError>, MlsError>>,
    items: Seq<ProposalInfo<T>>,
) -> Seq<bool> {
    Seq::new(
        items.len(),
        |i: int|
            spec_update_step(strategy, items[i].spec_is_by_reference(), outcomes[i]) == Ok::<
                bool,
                MlsError,
            >(true),
    )
}

/// What applying the outcomes of validating the new leaves of a commit gives:
/// the updates are taken from the last, the additions from the first; a
/// rejected proposal makes the commit fail unless the strategy ignores it, and
/// an update leaves together with its sender.
pub open spec fn spec_new_nodes_validated(
    strategy: FilterStrategy,
    proposals: ProposalBundle,
    update_outcomes: &Vec<Result<Result<(), MlsError>, MlsError>>,
    add_outcomes: &Vec<Result<(), MlsError>>,
    r: Result<ProposalBundle, MlsError>,
) -> bool {
    let n = proposals.updates@.len();
    let mask = spec_keep_mask(strategy, update_outcomes@, proposals.updates@);
    let (ka, ea) = spec_retain(strategy, GivenOutcomes { outcomes: add_outcomes }, proposals.additions@);
    if update_outcomes@.len() != n || add_outcomes@.len() != proposals.additions@.len() || (n > 0
        && proposals.update_senders@.len() < n) {
        r == Err::<ProposalBundle, MlsError>(MlsError::InternalProposalFilterError)
    } else if spec_last_rejection(strategy, update_outcomes@, proposals.updates@) is Some {
        r == Err::<ProposalBundle, MlsError>(
            spec_last_rejection(strategy, update_outcomes@, proposals.updates@)->0,
        )
    } else if ea is Some {
        r == Err::<ProposalBundle, MlsError>(ea->0)
    } else {
        &&& r is Ok
        &&& r->Ok_0.updates@ == spec_mask_filter(proposals.updates@, mask)
        &&& r->Ok_0.update_senders@ == spec_mask_filter(proposals.update_senders@, mask)
        &&& r->Ok_0.additions@ == ka
        &&& r->Ok_0 == (ProposalBundle {
            updates: r->Ok_0.updates,
            update_senders: r->Ok_0.update_senders,
            additions: r->Ok_0.additions,
            ..proposals
        })
    }
}

/// Applies the outcomes of validating the new leaves of a commit:
/// `update_outcomes[i]` for the `i`-th update proposal, checked from the last,
/// and `add_outcomes[i]` for the `i`-th add proposal, checked from the first.
/// An update's entry is `Err(e)` where its sender's current leaf could not be
/// read, which fails the commit whatever the strategy, and otherwise the
/// outcome of its checks (see `update_outcome`).
#[verifier::spinoff_prover]
pub fn apply_new_node_validation(
    strategy: FilterStrategy,
    proposals: ProposalBundle,
    update_outcomes: &Vec<Result<Result<(), MlsError>, MlsError>>,
    add_outcomes: &Vec<Result<(), MlsError>>,
) -> (r: Result<ProposalBundle, MlsError>)
    ensures
        spec_new_nodes_validated(strategy, proposals, update_outcomes, add_outcomes, r),
{
    let n = proposals.updates.len();
    if update_outcomes.len() != n || add_outcomes.len() != proposals.additions.len() || (n > 0
        && proposals.update_senders.len() < n) {
        return Err(MlsError::InternalProposalFilterError);
    }
    let ghost updates = proposals.updates@;
    let ghost outs = update_outcomes@;
    let mut mask: Vec<bool> = Vec::new();
    let mut k: usize = 0;
    while k < n
        invariant
            k <= n,
            mask@.len() == k,
        decreases n - k,
    {
        mask.push(false);
        k = k + 1;
    }
    let mut i: usize = n;
    assert(updates.take(n as int) =~= updates);
    while i > 0
        invariant
            i <= n,
            n == updates.len(),
            n == outs.len(),
            updates == proposals.updates@,
            outs == update_outcomes@,
            add_outcomes@.len() == proposals.additions@.len(),
            n > 0 ==> proposals.update_senders@.len() >= n,
            mask@.len() == n,
            spec_last_rejection(strategy, outs, updates) == spec_last_rejection(
                strategy,
                outs,
                updates.take(i as int),
            ),
            forall|j: int|
                i <= j < n ==> mask@[j] == spec_keep_mask(strategy, outs, updates)[j],
        decreases i,
    {
        i = i - 1;
        let by_ref = proposals.updates[i].is_by_reference();
        proof {
            assert(updates.take(i + 1).drop_last() =~= updates.take(i as int));
            assert(updates.take(i + 1)[i as int] == updates[i as int]);
        }
        let step = match update_outcomes[i] {
            Err(e) => Err(e),
            Ok(outcome) => apply_strategy(strategy, by_ref, outcome),
        };
        match step {
            Ok(keep) => {
                mask.set(i, keep);
            },
            Err(e) => {
                assert(spec_last_rejection(strategy, outs, updates.take(i + 1)) == Some(e));
                return Err(e);
            },
        }
    }
    assert(updates.take(0) =~= Seq::<ProposalInfo<UpdateProposal>>::empty());
    assert(mask@ =~= spec_keep_mask(strategy, outs, updates));
    let mut proposals = proposals;
    let mut additions: Vec<ProposalInfo<AddProposal>> = Vec::new();
    core::mem::swap(&mut additions, &mut proposals.additions);
    let (kept, err) = retain_proposals(strategy, additions, &GivenOutcomes { outcomes: add_outcomes });
    if let Some(e) = err {
        return Err(e);
    }
    let mut updates_vec: Vec<ProposalInfo<UpdateProposal>> = Vec::new();
    core::mem::swap(&mut updates_vec, &mut proposals.updates);
    let mut senders: Vec<LeafIndex> = Vec::new();
    core::mem::swap(&mut senders, &mut proposals.update_senders);
    proposals.updates = filter_by_mask(updates_vec, &mask);
    proposals.update_senders = filter_by_mask(senders, &mask);
    proposals.additions = kept;
    Ok(proposals)
}

/// Striking out the same positions of two sequences of equal length keeps them
/// paired: the `k`-th survivors of both come from the same position.
#[verifier::spinoff_prover]
pub proof fn lemma_mask_filter_keeps_pairs<X, Y>(s1: Seq<X>, s2: Seq<Y>, mask: Seq<bool>)
    requires
        s1.len() == s2.len(),
    ensures
        spec_mask_filter(s1, mask).len() == spec_mask_filter(s2, mask).len(),
        forall|k: int|
            0 <= k < spec_mask_filter(s1, mask).len() ==> exists|i: int|
                0 <= i < s1.len() && #[trigger] spec_mask_filter(s1, mask)[k] == s1[i]
                    && spec_mask_filter(s2, mask)[k] == s2[i],
    decreases s1.len(),
{
    if s1.len() > 0 {
        let d1 = s1.drop_last();
        let d2 = s2.drop_last();
        lemma_mask_filter_keeps_pairs(d1, d2, mask);
        assert forall|k: int| 0 <= k < spec_mask_filter(s1, mask).len() implies exists|i: int|
            0 <= i < s1.len() && #[trigger] spec_mask_filter(s1, mask)[k] == s1[i]
                && spec_mask_filter(s2, mask)[k] == s2[i] by {
            if k < spec_mask_filter(d1, mask).len() {
                let i = choose|i: int|
                    0 <= i < d1.len() && #[trigger] spec_mask_filter(d1, mask)[k] == d1[i]
                        && spec_mask_filter(d2, mask)[k] == d2[i];
                assert(spec_mask_filter(s1, mask)[k] == spec_mask_filter(d1, mask)[k]);
                assert(spec_mask_filter(s2, mask)[k] == spec_mask_filter(d2, mask)[k]);
                assert(d1[i] == s1[i]);
                assert(d2[i] == s2[i]);
            } else {
                let i = s1.len() - 1;
                assert(spec_mask_filter(s1, mask)[k] == s1[i]);
                assert(spec_mask_filter(s2, mask)[k] == s2[i]);
            }
        }
    }
}

/// Applying the validation outcomes keeps every remaining update paired with
/// its sender: where the senders matched the updates one for one before, they
/// still do, and each remaining pair was a pair before.
pub proof fn lemma_new_node_validation_keeps_update_senders(
    strategy: FilterStrategy,
    proposals: ProposalBundle,
    update_outcomes: &Vec<Result<Result<(), MlsError>, MlsError>>,
    add_outcomes: &Vec<Result<(), MlsError>>,
    r: Result<ProposalBundle, MlsError>,
)
    requires
        spec_new_nodes_validated(strategy, proposals, update_outcomes, add_outcomes, r),
        proposals.update_senders@.len() == proposals.updates@.len(),
        r is Ok,
    ensures
        r->Ok_0.update_senders@.len() == r->Ok_0.updates@.len(),
        forall|k: int|
            0 <= k < r->Ok_0.updates@.len() ==> exists|i: int|
                0 <= i < proposals.updates@.len() && #[trigger] r->Ok_0.updates@[k]
                    == proposals.updates@[i] && r->Ok_0.update_senders@[k]
                    == proposals.update_senders@[i],
{
    let mask = spec_keep_mask(strategy, update_outcomes@, proposals.updates@);
    lemma_mask_filter_keeps_pairs(proposals.updates@, proposals.update_senders@, mask);
}

/// Settles the group context extensions proposal of a commit before its
/// changes are applied: `capabilities` is the outcome of reading the required
/// capabilities from the first such proposal. Gives the bundle and whether the
/// new extensions take effect; where the reading failed and the strategy
/// ignores the proposal, the group context extensions proposals are dropped.
pub fn resolve_group_context_extensions(
    strategy: FilterStrategy,
    proposals: ProposalBundle,
    capabilities: Result<(), MlsError>,
) -> (r: Result<(ProposalBundle, bool), MlsError>)
    ensures
        if proposals.group_context_extensions@.len() == 0 {
            r matches Ok((b, used)) && !used && b == proposals
        } else {
            match spec_apply_strategy(
                strategy,
                proposals.group_context_extensions@[0].spec_is_by_reference(),
                capabilities,
            ) {
                Ok(true) => r matches Ok((b, used)) && used && b == proposals,
                Ok(false) => r matches Ok((b, used)) && !used && b.group_context_extensions@.len()
                    == 0 && b == (ProposalBundle {
                    group_context_extensions: b.group_context_extensions,
                    ..proposals
                }),
                Err(e) => r == Err::<(ProposalBundle, bool), MlsError>(e),
            }
        },
{
    if proposals.group_context_extensions.len() == 0 {
        return Ok((proposals, false));
    }
    let by_ref = proposals.group_context_extensions[0].is_by_reference();
    match apply_strategy(strategy, by_ref, capabilities) {
        Ok(true) => Ok((proposals, true)),
        Ok(false) => {
            let mut proposals = proposals;
            proposals.group_context_extensions = Vec::new();
            Ok((proposals, false))
        },
        Err(e) => Err(e),
    }
}

/// Drops, or fails on, the pre-shared key proposals whose checks failed;
/// `outcomes[i]` is the outcome of checking the `i`-th one.
pub fn apply_psk_outcomes(
    strategy: FilterStrategy,
    proposals: ProposalBundle,
    outcomes: &Vec<Result<(), MlsError>>,
) -> (r: Result<ProposalBundle, MlsError>)
    ensures
        ({
            let (kept, err) = spec_retain(strategy, GivenOutcomes { outcomes }, proposals.psks@);
            if outcomes@.len() != proposals.psks@.len() {
                r == Err::<ProposalBundle, MlsError>(MlsError::InternalProposalFilterError)
            } else {
                match err {
                    Some(e) => r == Err::<ProposalBundle, MlsError>(e),
                    None => r matches Ok(b) && b.psks@ == kept && b == (ProposalBundle {
                        psks: b.psks,
                        ..proposals
                    }),
                }
            }
        }),
{
    if outcomes.len() != proposals.psks.len() {
        return Err(MlsError::InternalProposalFilterError);
    }
    let mut proposals = proposals;
    let mut psks: Vec<ProposalInfo<PreSharedKeyProposal>> = Vec::new();
    core::mem::swap(&mut psks, &mut proposals.psks);
    let (kept, err) = retain_proposals(strategy, psks, &GivenOutcomes { outcomes });
    match err {
        Some(e) => Err(e),
        None => {
            proposals.psks = kept;
            Ok(proposals)
        },
    }
}

/// The external init filter keeps nothing.
pub proof fn lemma_no_external_init_kept(
    strategy: FilterStrategy,
    items: Seq<ProposalInfo<ExternalInit>>,
)
    ensures
        spec_retain(strategy, NoExternalInit, items).0.len() == 0,
    decreases items.len(),
{
    if items.len() > 0 {
        lemma_no_external_init_kept(strategy, items.drop_last());
    }
}

/// What a member's commit may hold once all its proposals are filtered: no
/// update from the committer and no removal of it, the leaf of each update's
/// sender next to the update, at most one group context extensions proposal,
/// no external init, and reinit proposals only where nothing else is left.
pub open spec fn spec_member_commit_proposals(commit_sender: LeafIndex, b: ProposalBundle) -> bool {
    &&& forall|i: int|
        0 <= i < b.updates@.len() ==> (#[trigger] b.updates@[i]).sender != Sender::Member(
            commit_sender.0,
        )
    &&& forall|i: int|
        0 <= i < b.removals@.len() ==> (#[trigger] b.removals@[i]).proposal.to_remove
            != commit_sender
    &&& b.update_senders@.len() == b.updates@.len()
    &&& forall|i: int|
        0 <= i < b.updates@.len() ==> spec_leaf_index_of_update_sender(#[trigger] b.updates@[i])
            == Ok::<LeafIndex, MlsError>(b.update_senders@[i])
    &&& b.group_context_extensions@.len() <= 1
    &&& b.external_initializations@.len() == 0
    &&& (b.reinitializations@.len() == 0 || spec_other_than_reinit(b) == 0)
}

/// Filters the proposals of a commit sent by the member at `commit_sender`:
/// the sender checks, then the outcomes of the pre-shared key checks, then the
/// outcomes of the external senders checks of the group context extensions
/// proposals, then the content checks. Each outcome vector holds one outcome
/// per proposal of its type as the bundle stands when that step runs.
#[verifier::spinoff_prover]
pub fn filter_proposals_from_member(
    strategy: FilterStrategy,
    commit_sender: LeafIndex,
    proposals: ProposalBundle,
    psk_outcomes: &Vec<Result<(), MlsError>>,
    external_senders_outcomes: &Vec<Result<(), MlsError>>,
    protocol_version: ProtocolVersion,
) -> (r: Result<ProposalBundle, MlsError>)
    ensures
        r matches Ok(b) ==> spec_member_commit_proposals(commit_sender, b),
        r matches Ok(b) ==> {
            let psks = spec_retain(
                strategy,
                SenderMayPropose { proposal_type: ProposalType(ProposalType::PSK) },
                proposals.psks@,
            ).0;
            &&& psk_outcomes@.len() == psks.len()
            &&& forall|i: int|
                0 <= i < psks.len() && (#[trigger] psk_outcomes@[i]) is Err ==> strategy.spec_ignore(
                    psks[i].spec_is_by_reference(),
                )
            &&& forall|k: int|
                0 <= k < b.psks@.len() ==> exists|i: int|
                    0 <= i < psks.len() && #[trigger] b.psks@[k] == psks[i] && psk_outcomes@[i] is Ok
        },
        r matches Ok(b) ==> {
            let gces = spec_retain(
                strategy,
                SenderMayPropose { proposal_type: ProposalType(ProposalType::GROUP_CONTEXT_EXTENSIONS) },
                proposals.group_context_extensions@,
            ).0;
            &&& external_senders_outcomes@.len() == gces.len()
            &&& forall|i: int|
                0 <= i < gces.len() && (#[trigger] external_senders_outcomes@[i]) is Err
                    ==> strategy.spec_ignore(gces[i].spec_is_by_reference())
            &&& forall|k: int|
                0 <= k < b.group_context_extensions@.len() ==> exists|i: int|
                    0 <= i < gces.len() && #[trigger] b.group_context_extensions@[k] == gces[i]
                        && external_senders_outcomes@[i] is Ok
        },
{
    let ghost p0 = proposals;
    let b1 = match prepare_proposals_from_member(strategy, commit_sender, proposals) {
        Ok(b) => b,
        Err(e) => {
            return Err(e);
        },
    };
    proof {
        let u1 = spec_retain(strategy, SenderMayPropose { proposal_type: ProposalType(ProposalType::UPDATE) }, p0.updates@).0;
        let r1 = spec_retain(strategy, SenderMayPropose { proposal_type: ProposalType(ProposalType::REMOVE) }, p0.removals@).0;
        let cu = NotUpdateOfCommitter { commit_sender };
        let cr = NotRemovalOfCommitter { commit_sender };
        lemma_retain_keeps_only_valid(strategy, cu, u1);
        lemma_retain_keeps_only_valid(strategy, cr, r1);
        assert forall|k: int| 0 <= k < b1.updates@.len() implies (#[trigger] b1.updates@[k]).sender
            != Sender::Member(commit_sender.0) by {
            let i = choose|i: int|
                0 <= i < u1.len() && #[trigger] spec_retain(strategy, cu, u1).0[k] == u1[i]
                    && cu.spec_check(i, u1[i]) is Ok;
        }
        assert forall|k: int| 0 <= k < b1.removals@.len() implies (
        #[trigger] b1.removals@[k]).proposal.to_remove != commit_sender by {
            let i = choose|i: int|
                0 <= i < r1.len() && #[trigger] spec_retain(strategy, cr, r1).0[k] == r1[i]
                    && cr.spec_check(i, r1[i]) is Ok;
        }
    }
    let b2 = match apply_psk_outcomes(strategy, b1, psk_outcomes) {
        Ok(b) => b,
        Err(e) => {
            return Err(e);
        },
    };
    let b3 = match filter_out_invalid_group_extensions(strategy, b2, external_senders_outcomes) {
        Ok(b) => b,
        Err(e) => {
            return Err(e);
        },
    };
    let b4 = match finish_proposals_from_member(strategy, protocol_version, b3) {
        Ok(b) => b,
        Err(e) => {
            return Err(e);
        },
    };
    proof {
        let psks = b1.psks@;
        let cp = GivenOutcomes { outcomes: psk_outcomes };
        lemma_retain_error_iff(strategy, cp, psks);
        lemma_retain_keeps_only_valid(strategy, cp, psks);
        assert forall|i: int|
            0 <= i < psks.len() && (#[trigger] psk_outcomes@[i]) is Err implies strategy.spec_ignore(
                psks[i].spec_is_by_reference(),
            ) by {
            assert(cp.spec_check(i, psks[i]) is Err);
        }
        assert forall|k: int| 0 <= k < b4.psks@.len() implies exists|i: int|
            0 <= i < psks.len() && #[trigger] b4.psks@[k] == psks[i] && psk_outcomes@[i] is Ok by {
            let i = choose|i: int|
                0 <= i < psks.len() && #[trigger] spec_retain(strategy, cp, psks).0[k] == psks[i]
                    && cp.spec_check(i, psks[i]) is Ok;
        }
        let gces = b2.group_context_extensions@;
        let cg = GivenOutcomes { outcomes: external_senders_outcomes };
        lemma_retain_error_iff(strategy, cg, gces);
        lemma_retain_keeps_only_valid(strategy, cg, gces);
        lemma_retain_keeps_only_valid(strategy, FirstGroupContextExtensions, b3.group_context_extensions@);
        assert forall|i: int|
            0 <= i < gces.len() && (#[trigger] external_senders_outcomes@[i]) is Err
                implies strategy.spec_ignore(gces[i].spec_is_by_reference()) by {
            assert(cg.spec_check(i, gces[i]) is Err);
        }
        assert forall|k: int| 0 <= k < b4.group_context_extensions@.len() implies exists|i: int|
            0 <= i < gces.len() && #[trigger] b4.group_context_extensions@[k] == gces[i]
                && external_senders_outcomes@[i] is Ok by {
            let j = choose|j: int|
                0 <= j < b3.group_context_extensions@.len() && #[trigger] spec_retain(
                    strategy,
                    FirstGroupContextExtensions,
                    b3.group_context_extensions@,
                ).0[k] == b3.group_context_extensions@[j] && FirstGroupContextExtensions.spec_check(
                    j,
                    b3.group_context_extensions@[j],
                ) is Ok;
            let i = choose|i: int|
                0 <= i < gces.len() && #[trigger] spec_retain(strategy, cg, gces).0[j] == gces[i]
                    && cg.spec_check(i, gces[i]) is Ok;
        }
        lemma_at_most_one_group_context_extensions(strategy, b3.group_context_extensions@);
        lemma_no_external_init_kept(strategy, b3.external_initializations@);
        assert(b4.updates == b1.updates);
        assert(b4.removals == b1.removals);
        assert(b4.update_senders == b1.update_senders);
        if b4.reinitializations@.len() != 0 {
            let g1 = spec_retain(strategy, FirstGroupContextExtensions, b3.group_context_extensions@).0;
            assert(b3.external_initializations@.len() == 0);
            assert(g1.len() == 0);
            assert(spec_other_than_reinit(b4) == 0);
        }
    }
    Ok(b4)
}

/// Which proposal types each kind of sender may send, by code point: a member
/// may send Add (1), Remove (3), PSK (4), ReInit (5) and GroupContextExtensions
/// (7) inside its commit and also Update (2) by reference; an external sender
/// may send Add, Remove, PSK, ReInit and GroupContextExtensions by reference
/// only; a new member that commits may send Remove, PSK and ExternalInit (6)
/// inside its commit only; a new member that proposes may send Add by
/// reference only.
pub proof fn lemma_sender_proposal_rules(index: u32, t: u16)
    ensures
        spec_proposer_can_propose(Sender::Member(index), ProposalType(t), false) is Ok <==> (t == 1
            || t == 3 || t == 4 || t == 5 || t == 7),
        spec_proposer_can_propose(Sender::Member(index), ProposalType(t), true) is Ok <==> (t == 1
            || t == 2 || t == 3 || t == 4 || t == 5 || t == 7),
        spec_proposer_can_propose(Sender::External(index), ProposalType(t), false) is Err,
        spec_proposer_can_propose(Sender::External(index), ProposalType(t), true) is Ok <==> (t
            == 1 || t == 3 || t == 4 || t == 5 || t == 7),
        spec_proposer_can_propose(Sender::NewMemberCommit, ProposalType(t), false) is Ok <==> (t
            == 3 || t == 4 || t == 6),
        spec_proposer_can_propose(Sender::NewMemberCommit, ProposalType(t), true) is Err,
        spec_proposer_can_propose(Sender::NewMemberProposal, ProposalType(t), false) is Err,
        spec_proposer_can_propose(Sender::NewMemberProposal, ProposalType(t), true) is Ok <==> t
            == 1,
        spec_proposer_can_propose(Sender::Member(index), ProposalType(t), true) matches Err(e) ==> e
            == MlsError::InvalidProposalTypeForSender,
{
}

} // verus!
