use aws_mls::framing::{
    AuthenticatedContent, CipherSuite, Content, Extension, FramedContent, FramedContentAuthData,
    GroupContext, HashFunction, ProtocolVersion, Sender, WireFormat,
};
use aws_mls::membership_tag::{MLSContentTBM, MLSContentTBS, MembershipTag, MembershipTagError};
use aws_mls::{MlsDecode, MlsEncode, MlsSize};

fn context() -> GroupContext {
    GroupContext {
        protocol_version: ProtocolVersion(1),
        cipher_suite: CipherSuite::P256Aes128,
        group_id: vec![0xaa],
        epoch: 1,
        tree_hash: vec![0x11, 0x22],
        confirmed_transcript_hash: vec![],
        extensions: vec![Extension { extension_type: 3, extension_data: vec![0x44] }],
    }
}

fn content(sender: Sender, wire_format: WireFormat) -> AuthenticatedContent {
    AuthenticatedContent {
        wire_format,
        content: FramedContent {
            group_id: vec![0xaa],
            epoch: 1,
            sender,
            authenticated_data: vec![0x01],
            content: Content::Application(b"hello".to_vec()),
        },
        auth: FramedContentAuthData { signature: vec![0x5a], confirmation_tag: None },
    }
}

const FRAMED: [u8; 24] = [
    0x01, 0xaa, // group id
    0, 0, 0, 0, 0, 0, 0, 1, // epoch
    0x01, 0, 0, 0, 2, // sender
    0x01, 0x01, // authenticated data
    0x01, 0x05, b'h', b'e', b'l', b'l', b'o', // application data
];

fn expected_framed() -> Vec<u8> {
    FRAMED.to_vec()
}

fn expected_context() -> Vec<u8> {
    vec![
        0, 1, 0, 2, // version, suite
        0x01, 0xaa, // group id
        0, 0, 0, 0, 0, 0, 0, 1, // epoch
        0x02, 0x11, 0x22, // tree hash
        0x00, // confirmed transcript hash
        0x04, 0x00, 0x03, 0x01, 0x44, // extensions
    ]
}

#[test]
fn tag_input_for_member_covers_context() {
    let c = content(Sender::Member(2), WireFormat::PublicMessage);
    let mut expected = vec![0, 1, 0, 1];
    expected.extend(expected_framed());
    expected.extend(expected_context());
    expected.extend(vec![0x01, 0x5a]);
    assert_eq!(MembershipTag::create_input(&c, &context()).unwrap(), expected);
}

#[test]
fn tag_input_for_external_sender_omits_context() {
    let mut c = content(Sender::External(2), WireFormat::PublicMessage);
    c.content.sender = Sender::External(2);
    let ctx = context();
    let tbm = MLSContentTBM::from_authenticated_content(&c, &ctx);
    assert!(tbm.content_tbs.context.is_none());
    let bytes = tbm.tls_serialize_detached().unwrap();
    let mut expected = vec![0, 1, 0, 1];
    let mut framed = expected_framed();
    framed[10] = 0x02;
    expected.extend(framed);
    expected.extend(vec![0x01, 0x5a]);
    assert_eq!(bytes, expected);
}

#[test]
fn tag_only_for_public_messages() {
    let c = content(Sender::Member(2), WireFormat::PrivateMessage);
    assert_eq!(
        MembershipTag::create_input(&c, &context()),
        Err(MembershipTagError::NonPlainWireFormat(WireFormat::PrivateMessage))
    );
}

#[test]
fn signed_content_takes_context_for_committing_new_member() {
    let c = content(Sender::NewMemberCommit, WireFormat::PublicMessage);
    let ctx = context();
    let tbs = MLSContentTBS::from_authenticated_content(&c, Some(&ctx));
    assert!(tbs.context.is_some());
    assert_eq!(tbs.protocol_version, ProtocolVersion(1));
    let c = content(Sender::NewMemberProposal, WireFormat::PublicMessage);
    let tbs = MLSContentTBS::from_authenticated_content(&c, Some(&ctx));
    assert!(tbs.context.is_none());
}

#[test]
fn cipher_suite_hash_functions() {
    assert_eq!(CipherSuite::Curve25519Aes128.hash_function(), HashFunction::Sha256);
    assert_eq!(CipherSuite::P384Aes256.hash_function(), HashFunction::Sha384);
    assert_eq!(CipherSuite::P521Aes256.hash_function(), HashFunction::Sha512);
    assert_eq!(CipherSuite::Curve448ChaCha20.value(), 6);
    assert_eq!(WireFormat::KeyPackage.value(), 5);
}

#[test]
fn auth_data_with_confirmation_tag() {
    let a = FramedContentAuthData { signature: vec![1], confirmation_tag: Some(vec![2, 3]) };
    let mut out = vec![];
    a.mls_encode(&mut out).unwrap();
    assert_eq!(out, vec![1, 1, 2, 2, 3]);
}

#[test]
fn membership_tag_holds_its_bytes() {
    let tag = MembershipTag::from(hex::decode("0a0b0c").unwrap());
    assert_eq!(*tag, vec![0x0a, 0x0b, 0x0c]);
}

#[test]
fn membership_tag_encodes_as_byte_vector() {
    let tag = MembershipTag::from(vec![1, 2, 3]);
    assert_eq!(tag.mls_encoded_len(), 4);
    let bytes = tag.mls_encode_to_vec().unwrap();
    assert_eq!(bytes, vec![3, 1, 2, 3]);
    let decoded = MembershipTag::mls_decode(&mut &*bytes).unwrap();
    assert_eq!(*decoded, vec![1, 2, 3]);
}

#[test]
fn tbm_serialized_len_matches_encoding() {
    let c = content(Sender::Member(2), WireFormat::PublicMessage);
    let ctx = context();
    let tbm = MLSContentTBM::from_authenticated_content(&c, &ctx);
    assert_eq!(tbm.tls_serialized_len(), tbm.tls_serialize_detached().unwrap().len());
    assert_eq!(tbm.tls_serialized_len(), 4 + 24 + 23 + 2);
}
