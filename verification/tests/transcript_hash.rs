use aws_mls::error::MlsError;
use aws_mls::framing::{
    AuthenticatedContent, Content, FramedContent, FramedContentAuthData, Sender, WireFormat,
};
use aws_mls::transcript_hash::{
    confirmed_transcript_hash_input, interim_transcript_hash_input, CipherSuiteProvider,
    ConfirmationTag, ConfirmedTranscriptHash, InterimTranscriptHash,
};
use aws_mls::{MlsDecode, MlsEncode};

/// A provider whose "hash" is its input, so that a test sees what was hashed.
struct EchoProvider;

impl CipherSuiteProvider for EchoProvider {
    type Error = ();

    fn hash(&self, data: &[u8]) -> Result<Vec<u8>, ()> {
        Ok(data.to_vec())
    }
}

/// A provider whose hash always fails.
struct FailingProvider;

impl CipherSuiteProvider for FailingProvider {
    type Error = &'static str;

    fn hash(&self, _data: &[u8]) -> Result<Vec<u8>, &'static str> {
        Err("no hash")
    }
}

fn commit_content() -> AuthenticatedContent {
    AuthenticatedContent {
        wire_format: WireFormat::PublicMessage,
        content: FramedContent {
            group_id: vec![0xaa, 0xbb],
            epoch: 3,
            sender: Sender::Member(1),
            authenticated_data: vec![],
            content: Content::Commit(vec![0x00, 0x00]),
        },
        auth: FramedContentAuthData { signature: vec![0x51, 0x52, 0x53], confirmation_tag: None },
    }
}

fn expected_confirmed_input() -> Vec<u8> {
    vec![
        0x09, 0x08, // interim transcript hash
        0x00, 0x01, // wire format
        0x02, 0xaa, 0xbb, // group id
        0, 0, 0, 0, 0, 0, 0, 3, // epoch
        0x01, 0, 0, 0, 1, // sender
        0x00, // authenticated data
        0x03, 0x00, 0x00, // commit
        0x03, 0x51, 0x52, 0x53, // signature
    ]
}

#[test]
fn confirmed_hash_covers_interim_hash_and_commit() {
    let interim = InterimTranscriptHash::from(vec![0x09, 0x08]);
    let input = confirmed_transcript_hash_input(&interim, &commit_content()).unwrap();
    assert_eq!(input, expected_confirmed_input());
    let confirmed = ConfirmedTranscriptHash::create(&EchoProvider, &interim, &commit_content()).unwrap();
    assert_eq!(*confirmed, expected_confirmed_input());
}

#[test]
fn interim_hash_covers_confirmed_hash_and_tag() {
    let confirmed = ConfirmedTranscriptHash::from(vec![1, 2, 3]);
    let tag = ConfirmationTag(vec![7, 7]);
    let expected = vec![1, 2, 3, 0x02, 7, 7];
    assert_eq!(interim_transcript_hash_input(&confirmed, &tag).unwrap(), expected);
    let interim = InterimTranscriptHash::create(&EchoProvider, &confirmed, &tag).unwrap();
    assert_eq!(*interim, expected);
}

#[test]
fn failing_provider_gives_crypto_error() {
    let interim = InterimTranscriptHash::from(vec![]);
    let r = ConfirmedTranscriptHash::create(&FailingProvider, &interim, &commit_content());
    assert!(matches!(r, Err(MlsError::CryptoProviderError)));
    let confirmed = ConfirmedTranscriptHash::from(vec![]);
    let r = InterimTranscriptHash::create(&FailingProvider, &confirmed, &ConfirmationTag(vec![]));
    assert!(matches!(r, Err(MlsError::CryptoProviderError)));
}

#[test]
fn transcript_hashes_encode_as_byte_vectors() {
    let h = ConfirmedTranscriptHash::from(vec![5, 6, 7]);
    let bytes = h.mls_encode_to_vec().unwrap();
    assert_eq!(bytes, vec![3, 5, 6, 7]);
    let decoded = ConfirmedTranscriptHash::mls_decode(&mut &*bytes).unwrap();
    assert_eq!(*decoded, vec![5, 6, 7]);
    let i = InterimTranscriptHash::from(vec![]);
    assert_eq!(i.mls_encode_to_vec().unwrap(), vec![0]);
}

#[test]
fn transcript_hashes_compare_by_bytes() {
    assert_eq!(ConfirmedTranscriptHash::from(vec![1, 2]), ConfirmedTranscriptHash::from(vec![1, 2]));
    assert_ne!(InterimTranscriptHash::from(vec![1]), InterimTranscriptHash::from(vec![2]));
}
