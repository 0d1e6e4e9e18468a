use aws_mls::error::MlsError;
use aws_mls::filtering::{
    apply_new_node_validation, apply_strategy, filter_out_extra_group_context_extensions,
    filter_out_external_init, filter_out_invalid_group_extensions, filter_out_invalid_proposers,
    filter_out_invalid_reinit, filter_out_reinit_if_other_proposals,
    filter_out_removal_of_committer, filter_out_unsupported_custom_proposals,
    filter_out_update_for_committer, finish_proposals_from_member, leaf_index_of_update_sender,
    prepare_proposals_from_member, proposer_can_propose, resolve_group_context_extensions,
    update_outcome, apply_psk_outcomes, filter_proposals_from_member, update_senders_of, FilterStrategy,
};
use aws_mls::framing::{CipherSuite, ProtocolVersion, Sender};
use aws_mls::proposal::{
    AddProposal, Capabilities, CustomProposal, ExtensionList, ExternalInit, LeafIndex, LeafNode,
    PreSharedKeyProposal, ProposalBundle, ProposalInfo, ProposalRef, ProposalSource,
    ProposalType, ReInitProposal, RemoveProposal, TreeKemPublic, UpdateProposal,
};

fn source(by_ref: bool) -> ProposalSource {
    if by_ref {
        ProposalSource::ByReference(ProposalRef(vec![1, 2, 3]))
    } else {
        ProposalSource::ByValue
    }
}

fn info<T>(proposal: T, sender: Sender, by_ref: bool) -> ProposalInfo<T> {
    ProposalInfo { proposal, sender, source: source(by_ref) }
}

fn empty_bundle() -> ProposalBundle {
    ProposalBundle {
        additions: vec![],
        updates: vec![],
        update_senders: vec![],
        removals: vec![],
        psks: vec![],
        reinitializations: vec![],
        external_initializations: vec![],
        group_context_extensions: vec![],
        custom_proposals: vec![],
    }
}

fn add(tag: u8, sender: Sender, by_ref: bool) -> ProposalInfo<AddProposal> {
    info(AddProposal { key_package: vec![tag] }, sender, by_ref)
}

fn update(tag: u8, sender: Sender, by_ref: bool) -> ProposalInfo<UpdateProposal> {
    info(UpdateProposal { leaf_node: vec![tag] }, sender, by_ref)
}

fn remove(leaf: u32, sender: Sender, by_ref: bool) -> ProposalInfo<RemoveProposal> {
    info(RemoveProposal { to_remove: LeafIndex(leaf) }, sender, by_ref)
}

fn reinit(version: u16, sender: Sender, by_ref: bool) -> ProposalInfo<ReInitProposal> {
    info(
        ReInitProposal {
            group_id: vec![9],
            version: ProtocolVersion(version),
            cipher_suite: CipherSuite::Curve25519Aes128,
            extensions: vec![],
        },
        sender,
        by_ref,
    )
}

fn gce(sender: Sender, by_ref: bool) -> ProposalInfo<ExtensionList> {
    info(ExtensionList(vec![]), sender, by_ref)
}

fn update_tags(b: &ProposalBundle) -> Vec<u8> {
    b.updates.iter().map(|p| p.proposal.leaf_node[0]).collect()
}

#[test]
fn strategy_ignores_only_by_reference() {
    assert!(FilterStrategy::IgnoreByRef.ignore(true));
    assert!(!FilterStrategy::IgnoreByRef.ignore(false));
    assert!(!FilterStrategy::IgnoreNone.ignore(true));
    assert!(!FilterStrategy::IgnoreNone.ignore(false));
    assert!(FilterStrategy::IgnoreByRef.is_ignore());
    assert!(!FilterStrategy::IgnoreNone.is_ignore());
}

#[test]
fn apply_strategy_outcomes() {
    let e = MlsError::CommitterSelfRemoval;
    assert_eq!(apply_strategy(FilterStrategy::IgnoreNone, true, Ok(())), Ok(true));
    assert_eq!(apply_strategy(FilterStrategy::IgnoreByRef, true, Err(e)), Ok(false));
    assert_eq!(apply_strategy(FilterStrategy::IgnoreByRef, false, Err(e)), Err(e));
    assert_eq!(apply_strategy(FilterStrategy::IgnoreNone, true, Err(e)), Err(e));
}

#[test]
fn proposer_rules() {
    let t = |v| ProposalType(v);
    assert_eq!(proposer_can_propose(Sender::Member(0), t(ProposalType::UPDATE), true), Ok(()));
    assert_eq!(
        proposer_can_propose(Sender::Member(0), t(ProposalType::UPDATE), false),
        Err(MlsError::InvalidProposalTypeForSender)
    );
    assert_eq!(proposer_can_propose(Sender::Member(0), t(ProposalType::ADD), false), Ok(()));
    assert_eq!(
        proposer_can_propose(Sender::Member(0), t(ProposalType::EXTERNAL_INIT), false),
        Err(MlsError::InvalidProposalTypeForSender)
    );
    assert_eq!(
        proposer_can_propose(Sender::External(1), t(ProposalType::ADD), false),
        Err(MlsError::InvalidProposalTypeForSender)
    );
    assert_eq!(proposer_can_propose(Sender::External(1), t(ProposalType::REMOVE), true), Ok(()));
    assert_eq!(
        proposer_can_propose(Sender::NewMemberCommit, t(ProposalType::EXTERNAL_INIT), false),
        Ok(())
    );
    assert_eq!(
        proposer_can_propose(Sender::NewMemberCommit, t(ProposalType::ADD), false),
        Err(MlsError::InvalidProposalTypeForSender)
    );
    assert_eq!(proposer_can_propose(Sender::NewMemberProposal, t(ProposalType::ADD), true), Ok(()));
    assert_eq!(
        proposer_can_propose(Sender::NewMemberProposal, t(ProposalType::ADD), false),
        Err(MlsError::InvalidProposalTypeForSender)
    );
    assert_eq!(
        proposer_can_propose(Sender::Member(0), t(0x0f0f), true),
        Err(MlsError::InvalidProposalTypeForSender)
    );
}

#[test]
fn committer_update_by_reference_is_dropped() {
    let mut b = empty_bundle();
    b.updates = vec![update(1, Sender::Member(2), true), update(2, Sender::Member(5), true)];
    let out = filter_out_update_for_committer(FilterStrategy::IgnoreByRef, LeafIndex(2), b).unwrap();
    assert_eq!(update_tags(&out), vec![2]);
}

#[test]
fn committer_update_fails_without_ignoring() {
    let mut b = empty_bundle();
    b.updates = vec![update(1, Sender::Member(2), true)];
    let r = filter_out_update_for_committer(FilterStrategy::IgnoreNone, LeafIndex(2), b);
    assert!(matches!(r, Err(MlsError::InvalidCommitSelfUpdate)));
}

#[test]
fn removal_of_committer_by_value_always_fails() {
    let mut b = empty_bundle();
    b.removals = vec![remove(3, Sender::Member(1), false)];
    let r = filter_out_removal_of_committer(FilterStrategy::IgnoreByRef, LeafIndex(3), b);
    assert!(matches!(r, Err(MlsError::CommitterSelfRemoval)));
}

#[test]
fn removal_of_others_is_kept() {
    let mut b = empty_bundle();
    b.removals = vec![remove(4, Sender::Member(1), false), remove(3, Sender::Member(1), true)];
    let out = filter_out_removal_of_committer(FilterStrategy::IgnoreByRef, LeafIndex(3), b).unwrap();
    assert_eq!(out.removals.len(), 1);
    assert_eq!(out.removals[0].proposal.to_remove, LeafIndex(4));
}

#[test]
fn only_first_group_context_extensions_kept() {
    let mut b = empty_bundle();
    b.group_context_extensions =
        vec![gce(Sender::Member(0), true), gce(Sender::Member(1), true), gce(Sender::Member(2), true)];
    let out = filter_out_extra_group_context_extensions(FilterStrategy::IgnoreByRef, b).unwrap();
    assert_eq!(out.group_context_extensions.len(), 1);
    assert_eq!(out.group_context_extensions[0].sender, Sender::Member(0));

    let mut b = empty_bundle();
    b.group_context_extensions = vec![gce(Sender::Member(0), true), gce(Sender::Member(1), false)];
    let r = filter_out_extra_group_context_extensions(FilterStrategy::IgnoreByRef, b);
    assert!(matches!(r, Err(MlsError::MoreThanOneGroupContextExtensionsProposal)));
}

#[test]
fn reinit_to_older_version() {
    let mut b = empty_bundle();
    b.reinitializations = vec![reinit(0, Sender::Member(0), true), reinit(1, Sender::Member(0), true)];
    let out = filter_out_invalid_reinit(FilterStrategy::IgnoreByRef, b, ProtocolVersion(1)).unwrap();
    assert_eq!(out.reinitializations.len(), 1);
    assert_eq!(out.reinitializations[0].proposal.version, ProtocolVersion(1));

    let mut b = empty_bundle();
    b.reinitializations = vec![reinit(0, Sender::Member(0), true)];
    let r = filter_out_invalid_reinit(FilterStrategy::IgnoreNone, b, ProtocolVersion(1));
    assert!(matches!(r, Err(MlsError::InvalidProtocolVersionInReInit)));
}

#[test]
fn reinit_next_to_other_proposals() {
    let mut b = empty_bundle();
    b.reinitializations = vec![reinit(1, Sender::Member(0), true)];
    b.removals = vec![remove(4, Sender::Member(1), false)];
    let out = filter_out_reinit_if_other_proposals(true, b.clone()).unwrap();
    assert!(out.reinitializations.is_empty());
    assert_eq!(out.removals.len(), 1);

    let r = filter_out_reinit_if_other_proposals(false, b);
    assert!(matches!(r, Err(MlsError::OtherProposalWithReInit)));

    let mut b = empty_bundle();
    b.reinitializations = vec![reinit(1, Sender::Member(0), false)];
    b.removals = vec![remove(4, Sender::Member(1), false)];
    let r = filter_out_reinit_if_other_proposals(true, b);
    assert!(matches!(r, Err(MlsError::OtherProposalWithReInit)));

    let mut b = empty_bundle();
    b.reinitializations = vec![reinit(1, Sender::Member(0), false)];
    let out = filter_out_reinit_if_other_proposals(false, b).unwrap();
    assert_eq!(out.reinitializations.len(), 1);
}

#[test]
fn external_init_never_allowed_from_member() {
    let mut b = empty_bundle();
    b.external_initializations =
        vec![info(ExternalInit { kem_output: vec![] }, Sender::Member(0), true)];
    let out = filter_out_external_init(FilterStrategy::IgnoreByRef, b.clone()).unwrap();
    assert!(out.external_initializations.is_empty());
    let r = filter_out_external_init(FilterStrategy::IgnoreNone, b);
    assert!(matches!(r, Err(MlsError::InvalidProposalTypeForSender)));
}

#[test]
fn invalid_proposers_dropped_or_fail() {
    let mut b = empty_bundle();
    b.additions = vec![add(1, Sender::External(0), false)];
    let r = filter_out_invalid_proposers(FilterStrategy::IgnoreByRef, b);
    assert!(matches!(r, Err(MlsError::InvalidProposalTypeForSender)));

    let mut b = empty_bundle();
    b.additions = vec![add(1, Sender::NewMemberProposal, true), add(2, Sender::Member(0), false)];
    b.updates = vec![update(1, Sender::External(0), true), update(2, Sender::Member(3), true)];
    b.psks = vec![info(PreSharedKeyProposal { psk: vec![] }, Sender::NewMemberProposal, true)];
    let out = filter_out_invalid_proposers(FilterStrategy::IgnoreByRef, b).unwrap();
    assert_eq!(out.additions.len(), 2);
    assert_eq!(update_tags(&out), vec![2]);
    assert!(out.psks.is_empty());
}

#[test]
fn update_senders_are_member_leaves() {
    let updates = vec![update(1, Sender::Member(3), true), update(2, Sender::Member(7), true)];
    assert_eq!(update_senders_of(&updates), Ok(vec![LeafIndex(3), LeafIndex(7)]));
    assert_eq!(leaf_index_of_update_sender(&updates[1]), Ok(LeafIndex(7)));
    let bad = update(1, Sender::NewMemberCommit, true);
    assert_eq!(leaf_index_of_update_sender(&bad), Err(MlsError::InvalidProposalTypeForSender));
}

#[test]
fn custom_proposals_need_support_of_every_member() {
    let tree = TreeKemPublic {
        leaves: vec![
            Some(LeafNode { capabilities: Capabilities { proposals: vec![ProposalType(0xf001)] } }),
            None,
            Some(LeafNode {
                capabilities: Capabilities {
                    proposals: vec![ProposalType(0xf002), ProposalType(0xf001)],
                },
            }),
        ],
    };
    let custom = |t: u16, by_ref: bool| {
        info(CustomProposal { proposal_type: ProposalType(t), data: vec![] }, Sender::Member(0), by_ref)
    };
    let mut b = empty_bundle();
    b.custom_proposals = vec![custom(0xf001, false), custom(0xf002, true)];
    assert_eq!(filter_out_unsupported_custom_proposals(&mut b, &tree, FilterStrategy::IgnoreByRef), Ok(()));
    assert_eq!(b.custom_proposals.len(), 1);
    assert_eq!(b.custom_proposals[0].proposal.proposal_type, ProposalType(0xf001));

    let mut b = empty_bundle();
    b.custom_proposals = vec![custom(0xf002, false), custom(0xf001, false)];
    assert_eq!(
        filter_out_unsupported_custom_proposals(&mut b, &tree, FilterStrategy::IgnoreByRef),
        Err(MlsError::UnsupportedCustomProposal(ProposalType(0xf002)))
    );
    assert_eq!(b.custom_proposals.len(), 1);
}

#[test]
fn member_commit_sender_checks() {
    let mut b = empty_bundle();
    b.updates = vec![update(1, Sender::Member(2), true), update(2, Sender::Member(4), true)];
    b.removals = vec![remove(6, Sender::Member(4), true)];
    let out = prepare_proposals_from_member(FilterStrategy::IgnoreByRef, LeafIndex(2), b).unwrap();
    assert_eq!(update_tags(&out), vec![2]);
    assert_eq!(out.update_senders, vec![LeafIndex(4)]);
    assert_eq!(out.removals.len(), 1);

    let mut b = empty_bundle();
    b.removals = vec![remove(2, Sender::Member(4), true)];
    let r = prepare_proposals_from_member(FilterStrategy::IgnoreNone, LeafIndex(2), b);
    assert!(matches!(r, Err(MlsError::CommitterSelfRemoval)));
}

#[test]
fn member_commit_content_checks() {
    let mut b = empty_bundle();
    b.group_context_extensions = vec![gce(Sender::Member(0), true), gce(Sender::Member(1), true)];
    b.reinitializations = vec![reinit(1, Sender::Member(0), true)];
    b.external_initializations =
        vec![info(ExternalInit { kem_output: vec![] }, Sender::Member(0), true)];
    let out = finish_proposals_from_member(FilterStrategy::IgnoreByRef, ProtocolVersion(1), b).unwrap();
    assert_eq!(out.group_context_extensions.len(), 1);
    assert!(out.reinitializations.is_empty());
    assert!(out.external_initializations.is_empty());
}

#[test]
fn group_extension_outcomes_applied() {
    let mut b = empty_bundle();
    b.group_context_extensions = vec![gce(Sender::Member(0), true), gce(Sender::Member(1), true)];
    let outcomes = vec![Err(MlsError::CryptoProviderError), Ok(())];
    let out = filter_out_invalid_group_extensions(FilterStrategy::IgnoreByRef, b.clone(), &outcomes).unwrap();
    assert_eq!(out.group_context_extensions.len(), 1);
    assert_eq!(out.group_context_extensions[0].sender, Sender::Member(1));
    let r = filter_out_invalid_group_extensions(FilterStrategy::IgnoreNone, b.clone(), &outcomes);
    assert!(matches!(r, Err(MlsError::CryptoProviderError)));
    let r = filter_out_invalid_group_extensions(FilterStrategy::IgnoreNone, b, &vec![Ok(())]);
    assert!(matches!(r, Err(MlsError::InternalProposalFilterError)));
}

#[test]
fn new_node_outcomes_applied() {
    let mut b = empty_bundle();
    b.updates = vec![
        update(1, Sender::Member(1), true),
        update(2, Sender::Member(2), true),
        update(3, Sender::Member(3), true),
    ];
    b.update_senders = vec![LeafIndex(1), LeafIndex(2), LeafIndex(3)];
    b.additions = vec![add(1, Sender::Member(1), true), add(2, Sender::Member(1), true)];
    let update_outcomes = vec![Ok(Ok(())), Ok(Err(MlsError::InvalidCommitSelfUpdate)), Ok(Ok(()))];
    let add_outcomes = vec![Err(MlsError::CryptoProviderError), Ok(())];
    let out = apply_new_node_validation(FilterStrategy::IgnoreByRef, b.clone(), &update_outcomes, &add_outcomes)
        .unwrap();
    assert_eq!(update_tags(&out), vec![1, 3]);
    assert_eq!(out.update_senders, vec![LeafIndex(1), LeafIndex(3)]);
    assert_eq!(out.additions.len(), 1);
    assert_eq!(out.additions[0].proposal.key_package, vec![2]);

    let update_outcomes =
        vec![Ok(Err(MlsError::CommitterSelfRemoval)), Ok(Ok(())), Ok(Err(MlsError::InvalidCommitSelfUpdate))];
    let r = apply_new_node_validation(FilterStrategy::IgnoreNone, b.clone(), &update_outcomes, &add_outcomes);
    assert!(matches!(r, Err(MlsError::InvalidCommitSelfUpdate)));

    // A sender leaf that cannot be read fails the commit even where the strategy
    // would drop the proposal, once the later updates passed.
    let update_outcomes = vec![
        Ok(Ok(())),
        Err(MlsError::InternalProposalFilterError),
        Ok(Err(MlsError::InvalidSuccessor)),
    ];
    let r = apply_new_node_validation(FilterStrategy::IgnoreByRef, b.clone(), &update_outcomes, &add_outcomes);
    assert!(matches!(r, Err(MlsError::InternalProposalFilterError)));

    let mut short = b;
    short.update_senders = vec![LeafIndex(1)];
    let r = apply_new_node_validation(FilterStrategy::IgnoreByRef, short, &vec![Ok(Ok(())), Ok(Ok(())), Ok(Ok(()))], &add_outcomes);
    assert!(matches!(r, Err(MlsError::InternalProposalFilterError)));
}

#[test]
fn group_context_extensions_resolution() {
    let (out, used) = resolve_group_context_extensions(FilterStrategy::IgnoreNone, empty_bundle(), Err(MlsError::CryptoProviderError)).unwrap();
    assert!(!used);
    assert!(out.group_context_extensions.is_empty());

    let mut b = empty_bundle();
    b.group_context_extensions = vec![gce(Sender::Member(0), true)];
    let (out, used) = resolve_group_context_extensions(FilterStrategy::IgnoreByRef, b.clone(), Ok(())).unwrap();
    assert!(used);
    assert_eq!(out.group_context_extensions.len(), 1);
    let (out, used) = resolve_group_context_extensions(FilterStrategy::IgnoreByRef, b.clone(), Err(MlsError::CryptoProviderError)).unwrap();
    assert!(!used);
    assert!(out.group_context_extensions.is_empty());
    let r = resolve_group_context_extensions(FilterStrategy::IgnoreNone, b, Err(MlsError::CryptoProviderError));
    assert!(matches!(r, Err(MlsError::CryptoProviderError)));
}

#[test]
fn ignore_none_keeps_every_valid_proposal() {
    let mut b = empty_bundle();
    b.updates = vec![update(1, Sender::Member(4), true), update(2, Sender::Member(5), false)];
    let out = filter_out_update_for_committer(FilterStrategy::IgnoreNone, LeafIndex(2), b).unwrap();
    assert_eq!(update_tags(&out), vec![1, 2]);
}

#[test]
fn update_outcome_combines_checks() {
    assert_eq!(update_outcome(Ok(()), Ok(()), Ok(true)), Ok(()));
    assert_eq!(update_outcome(Ok(()), Ok(()), Ok(false)), Err(MlsError::InvalidSuccessor));
    assert_eq!(
        update_outcome(Ok(()), Ok(()), Err(MlsError::IdentityProviderError)),
        Err(MlsError::IdentityProviderError)
    );
    assert_eq!(
        update_outcome(Err(MlsError::CryptoProviderError), Err(MlsError::InvalidCommitSelfUpdate), Ok(false)),
        Err(MlsError::CryptoProviderError)
    );
    assert_eq!(
        update_outcome(Ok(()), Err(MlsError::InvalidCommitSelfUpdate), Ok(false)),
        Err(MlsError::InvalidCommitSelfUpdate)
    );
}

#[test]
fn invalid_successor_dropped_only_by_reference() {
    let outcome = update_outcome(Ok(()), Ok(()), Ok(false));
    let mut b = empty_bundle();
    b.updates = vec![update(1, Sender::Member(3), true)];
    b.update_senders = vec![LeafIndex(3)];
    let out = apply_new_node_validation(FilterStrategy::IgnoreByRef, b.clone(), &vec![Ok(outcome)], &vec![]).unwrap();
    assert!(out.updates.is_empty());
    assert!(out.update_senders.is_empty());
    let r = apply_new_node_validation(FilterStrategy::IgnoreNone, b, &vec![Ok(outcome)], &vec![]);
    assert!(matches!(r, Err(MlsError::InvalidSuccessor)));
}

#[test]
fn psk_outcomes_applied() {
    let mut b = empty_bundle();
    b.psks = vec![
        info(PreSharedKeyProposal { psk: vec![1] }, Sender::Member(0), true),
        info(PreSharedKeyProposal { psk: vec![2] }, Sender::Member(0), false),
    ];
    let outcomes = vec![Err(MlsError::CryptoProviderError), Ok(())];
    let out = apply_psk_outcomes(FilterStrategy::IgnoreByRef, b.clone(), &outcomes).unwrap();
    assert_eq!(out.psks.len(), 1);
    assert_eq!(out.psks[0].proposal.psk, vec![2]);
    let r = apply_psk_outcomes(FilterStrategy::IgnoreByRef, b.clone(), &vec![Ok(()), Err(MlsError::CryptoProviderError)]);
    assert!(matches!(r, Err(MlsError::CryptoProviderError)));
    let r = apply_psk_outcomes(FilterStrategy::IgnoreByRef, b, &vec![]);
    assert!(matches!(r, Err(MlsError::InternalProposalFilterError)));
}

#[test]
fn member_commit_pipeline() {
    let mut b = empty_bundle();
    b.updates = vec![update(1, Sender::Member(2), true), update(2, Sender::Member(4), true)];
    b.removals = vec![remove(2, Sender::Member(4), true), remove(6, Sender::Member(4), false)];
    b.group_context_extensions = vec![gce(Sender::Member(4), true), gce(Sender::Member(5), true)];
    b.reinitializations = vec![reinit(1, Sender::Member(4), true)];
    b.external_initializations =
        vec![info(ExternalInit { kem_output: vec![] }, Sender::Member(4), true)];
    b.psks = vec![info(PreSharedKeyProposal { psk: vec![1] }, Sender::Member(4), true)];
    let out = filter_proposals_from_member(
        FilterStrategy::IgnoreByRef,
        LeafIndex(2),
        b,
        &vec![Ok(())],
        &vec![Ok(()), Ok(())],
        ProtocolVersion(1),
    )
    .unwrap();
    assert_eq!(update_tags(&out), vec![2]);
    assert_eq!(out.update_senders, vec![LeafIndex(4)]);
    assert_eq!(out.removals.len(), 1);
    assert_eq!(out.removals[0].proposal.to_remove, LeafIndex(6));
    assert_eq!(out.psks.len(), 1);
    assert_eq!(out.group_context_extensions.len(), 1);
    assert!(out.reinitializations.is_empty());
    assert!(out.external_initializations.is_empty());
}
