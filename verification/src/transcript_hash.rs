//! The confirmed and interim transcript hashes that chain the commits of a group.

use vstd::prelude::*;

use crate::codec::{be_bytes, write_be, Error, MlsDecode, MlsEncode, MlsRoundTrip, MlsSize};
use crate::error::MlsError;
use crate::framing::{
    append_bytes, cat, lemma_prefix_of_concat, AuthenticatedContent, FramedContent, WireFormat,
};
use crate::varint::{
    lemma_byte_vec_decode_encode, lemma_byte_vec_encode_decode, read_byte_vec,
    spec_byte_vec_decode, spec_byte_vec_encoding, write_byte_vec, VARINT_MAX,
    lemma_byte_vec_encoding_len, spec_varint_len,
};

verus! {

/// The cryptographic operations of a cipher suite, as far as transcript hashing
/// needs them; implementations are supplied by the user of the library.
pub trait CipherSuiteProvider {
    type Error;

    /// Hashes `data` with the suite's hash function.
    fn hash(&self, data: &[u8]) -> Result<Vec<u8>, Self::Error>;
}

/// A confirmation tag: the MAC over the confirmed transcript hash.
#[derive(Debug, Clone)]
pub struct ConfirmationTag(pub Vec<u8>);

/// The confirmed transcript hash of an epoch.
#[derive(Debug, Clone, PartialEq, Eq)]
pub struct ConfirmedTranscriptHash(pub Vec<u8>);

/// The interim transcript hash of an epoch.
#[derive(Debug, Clone, PartialEq, Eq)]
pub struct InterimTranscriptHash(pub Vec<u8>);

impl View for ConfirmedTranscriptHash {
    type V = Seq<u8>;

    open spec fn view(&self) -> Seq<u8> {
        self.0@
    }
}

impl View for InterimTranscriptHash {
    type V = Seq<u8>;

    open spec fn view(&self) -> Seq<u8> {
        self.0@
    }
}

impl core::ops::Deref for ConfirmedTranscriptHash {
    type Target = Vec<u8>;

    fn deref(&self) -> (r: &Vec<u8>)
        ensures
            *r == self.0,
    {
        &self.0
    }
}

impl core::ops::Deref for InterimTranscriptHash {
    type Target = Vec<u8>;

    fn deref(&self) -> (r: &Vec<u8>)
        ensures
            *r == self.0,
    {
        &self.0
    }
}

impl From<Vec<u8>> for ConfirmedTranscriptHash {
    fn from(value: Vec<u8>) -> (r: Self) {
        ConfirmedTranscriptHash(value)
    }
}

impl vstd::std_specs::convert::FromSpecImpl<Vec<u8>> for ConfirmedTranscriptHash {
    open spec fn obeys_from_spec() -> bool {
        true
    }

    open spec fn from_spec(v: Vec<u8>) -> ConfirmedTranscriptHash {
        ConfirmedTranscriptHash(v)
    }
}

impl From<Vec<u8>> for InterimTranscriptHash {
    fn from(value: Vec<u8>) -> (r: Self) {
        InterimTranscriptHash(value)
    }
}

impl vstd::std_specs::convert::FromSpecImpl<Vec<u8>> for InterimTranscriptHash {
    open spec fn obeys_from_spec() -> bool {
        true
    }

    open spec fn from_spec(v: Vec<u8>) -> InterimTranscriptHash {
        InterimTranscriptHash(v)
    }
}

/// The number of bytes of a byte vector of `len` bytes.
pub(crate) fn byte_vec_encoded_len(len: usize) -> (n: usize)
    ensures
        len <= VARINT_MAX ==> n == spec_varint_len(len as nat) + len,
{
    if len < 0x40 {
        1 + len
    } else if len < 0x4000 {
        2 + len
    } else if len <= VARINT_MAX as usize {
        4 + len
    } else {
        0
    }
}

impl MlsSize for ConfirmedTranscriptHash {
    open spec fn spec_mls_encoding(&self) -> Option<Seq<u8>> {
        spec_byte_vec_encoding(self.0@)
    }

    fn mls_encoded_len(&self) -> (n: usize) {
        proof {
            lemma_byte_vec_encoding_len(self.0@);
        }
        byte_vec_encoded_len(self.0.len())
    }
}

impl MlsEncode for ConfirmedTranscriptHash {
    fn mls_encode(&self, writer: &mut Vec<u8>) -> (r: Result<(), Error>) {
        let r = write_byte_vec(self.0.as_slice(), writer);
        proof {
            lemma_prefix_of_concat(old(writer)@, Seq::empty());
            assert(old(writer)@ + Seq::<u8>::empty() =~= old(writer)@);
        }
        r
    }
}

impl MlsDecode for ConfirmedTranscriptHash {
    open spec fn spec_mls_decode(bytes: Seq<u8>) -> Result<(Seq<u8>, nat), Error> {
        spec_byte_vec_decode(bytes)
    }

    fn mls_decode(reader: &mut &[u8]) -> (r: Result<ConfirmedTranscriptHash, Error>) {
        let bytes: &[u8] = *reader;
        match read_byte_vec(bytes) {
            Ok((v, k)) => {
                *reader = &bytes[k..bytes.len()];
                Ok(ConfirmedTranscriptHash(v))
            },
            Err(e) => Err(e),
        }
    }
}

impl MlsRoundTrip for ConfirmedTranscriptHash {
    proof fn lemma_encode_decode(v: ConfirmedTranscriptHash, rest: Seq<u8>) {
        lemma_byte_vec_encode_decode(v.0@, rest);
    }

    proof fn lemma_decode_encode(bytes: Seq<u8>, v: ConfirmedTranscriptHash) {
        lemma_byte_vec_decode_encode(bytes);
    }
}

impl MlsSize for InterimTranscriptHash {
    open spec fn spec_mls_encoding(&self) -> Option<Seq<u8>> {
        spec_byte_vec_encoding(self.0@)
    }

    fn mls_encoded_len(&self) -> (n: usize) {
        proof {
            lemma_byte_vec_encoding_len(self.0@);
        }
        byte_vec_encoded_len(self.0.len())
    }
}

impl MlsEncode for InterimTranscriptHash {
    fn mls_encode(&self, writer: &mut Vec<u8>) -> (r: Result<(), Error>) {
        let r = write_byte_vec(self.0.as_slice(), writer);
        proof {
            lemma_prefix_of_concat(old(writer)@, Seq::empty());
            assert(old(writer)@ + Seq::<u8>::empty() =~= old(writer)@);
        }
        r
    }
}

impl MlsDecode for InterimTranscriptHash {
    open spec fn spec_mls_decode(bytes: Seq<u8>) -> Result<(Seq<u8>, nat), Error> {
        spec_byte_vec_decode(bytes)
    }

    fn mls_decode(reader: &mut &[u8]) -> (r: Result<InterimTranscriptHash, Error>) {
        let bytes: &[u8] = *reader;
        match read_byte_vec(bytes) {
            Ok((v, k)) => {
                *reader = &bytes[k..bytes.len()];
                Ok(InterimTranscriptHash(v))
            },
            Err(e) => Err(e),
        }
    }
}

impl MlsRoundTrip for InterimTranscriptHash {
    proof fn lemma_encode_decode(v: InterimTranscriptHash, rest: Seq<u8>) {
        lemma_byte_vec_encode_decode(v.0@, rest);
    }

    proof fn lemma_decode_encode(bytes: Seq<u8>, v: InterimTranscriptHash) {
        lemma_byte_vec_decode_encode(bytes);
    }
}

/// The encoding of what the confirmed transcript hash covers besides the
/// interim transcript hash: the wire format in 2 bytes, the framed content, and
/// the signature as a byte vector.
pub open spec fn spec_confirmed_hash_input_encoding(content: AuthenticatedContent) -> Option<Seq<u8>> {
    cat(
        cat(
            Some(be_bytes(content.wire_format.spec_value() as nat, 2)),
            content.content.spec_encoding(),
        ),
        spec_byte_vec_encoding(content.auth.signature@),
    )
}

/// The bytes that the confirmed transcript hash is the hash of: the interim
/// transcript hash of the previous epoch, then the encoded input.
pub open spec fn spec_confirmed_hash_input(interim: Seq<u8>, content: AuthenticatedContent) -> Option<
    Seq<u8>,
> {
    cat(Some(interim), spec_confirmed_hash_input_encoding(content))
}

/// The bytes that the interim transcript hash is the hash of: the confirmed
/// transcript hash, then the confirmation tag as a byte vector.
pub open spec fn spec_interim_hash_input(confirmed: Seq<u8>, tag: Seq<u8>) -> Option<Seq<u8>> {
    cat(Some(confirmed), spec_byte_vec_encoding(tag))
}

/// What the confirmed transcript hash covers of a commit's authenticated content.
struct ConfirmedTranscriptHashInput<'a> {
    wire_format: WireFormat,
    content: &'a FramedContent,
    signature: &'a Vec<u8>,
}

impl<'a> ConfirmedTranscriptHashInput<'a> {
    fn mls_encode_to_vec(&self) -> (r: Result<Vec<u8>, Error>)
        ensures
            match cat(
                cat(
                    Some(be_bytes(self.wire_format.spec_value() as nat, 2)),
                    self.content.spec_encoding(),
                ),
                spec_byte_vec_encoding(self.signature@),
            ) {
                Some(e) => r matches Ok(v) && v@ == e,
                None => r == Err::<Vec<u8>, Error>(Error::VarIntOutOfRange),
            },
    {
        let mut out: Vec<u8> = Vec::new();
        write_be(self.wire_format.value() as u64, 2, &mut out);
        let ghost s0 = out@;
        match self.content.mls_encode(&mut out) {
            Ok(()) => {},
            Err(e) => {
                return Err(e);
            },
        }
        let ghost s1 = out@;
        match write_byte_vec(self.signature.as_slice(), &mut out) {
            Ok(()) => {},
            Err(e) => {
                return Err(e);
            },
        }
        proof {
            assert(s0 =~= Seq::<u8>::empty() + be_bytes(self.wire_format.spec_value() as nat, 2));
        }
        Ok(out)
    }
}

/// The bytes that the confirmed transcript hash is the hash of: the interim
/// transcript hash, then the wire format, the framed content and the signature
/// of the commit.
pub fn confirmed_transcript_hash_input(
    interim_transcript_hash: &InterimTranscriptHash,
    content: &AuthenticatedContent,
) -> (r: Result<Vec<u8>, MlsError>)
    ensures
        match spec_confirmed_hash_input(interim_transcript_hash@, *content) {
            Some(i) => r matches Ok(v) && v@ == i,
            None => r == Err::<Vec<u8>, MlsError>(
                MlsError::SerializationError(Error::VarIntOutOfRange),
            ),
        },
{
    let input = ConfirmedTranscriptHashInput {
        wire_format: content.wire_format,
        content: &content.content,
        signature: &content.auth.signature,
    };
    let encoded = match input.mls_encode_to_vec() {
        Ok(v) => v,
        Err(e) => {
            return Err(MlsError::SerializationError(e));
        },
    };
    let mut hash_input: Vec<u8> = Vec::new();
    append_bytes(interim_transcript_hash.0.as_slice(), &mut hash_input);
    append_bytes(encoded.as_slice(), &mut hash_input);
    assert(hash_input@ =~= interim_transcript_hash@ + encoded@);
    Ok(hash_input)
}

/// The bytes that the interim transcript hash is the hash of: the confirmed
/// transcript hash, then the confirmation tag as a byte vector.
pub fn interim_transcript_hash_input(
    confirmed: &ConfirmedTranscriptHash,
    confirmation_tag: &ConfirmationTag,
) -> (r: Result<Vec<u8>, MlsError>)
    ensures
        match spec_interim_hash_input(confirmed@, confirmation_tag.0@) {
            Some(i) => r matches Ok(v) && v@ == i,
            None => r == Err::<Vec<u8>, MlsError>(
                MlsError::SerializationError(Error::VarIntOutOfRange),
            ),
        },
{
    let mut input: Vec<u8> = Vec::new();
    match write_byte_vec(confirmation_tag.0.as_slice(), &mut input) {
        Ok(()) => {},
        Err(e) => {
            return Err(MlsError::SerializationError(e));
        },
    }
    let mut hash_input: Vec<u8> = Vec::new();
    append_bytes(confirmed.0.as_slice(), &mut hash_input);
    append_bytes(input.as_slice(), &mut hash_input);
    assert(input@ =~= Seq::<u8>::empty() + spec_byte_vec_encoding(confirmation_tag.0@).unwrap());
    assert(hash_input@ =~= confirmed@ + input@);
    Ok(hash_input)
}

impl ConfirmedTranscriptHash {
    /// Hashes the interim transcript hash of the previous epoch together with
    /// the wire format, the framed content and the signature of a commit.
    pub fn create<P: CipherSuiteProvider>(
        cipher_suite_provider: &P,
        interim_transcript_hash: &InterimTranscriptHash,
        content: &AuthenticatedContent,
    ) -> (r: Result<Self, MlsError>)
        ensures
            match spec_confirmed_hash_input(interim_transcript_hash@, *content) {
                Some(input) => exists|data: &[u8], h: Result<Vec<u8>, P::Error>|
                    {
                        &&& data@ == input
                        &&& call_ensures(P::hash, (cipher_suite_provider, data), h)
                        &&& r == match h {
                            Ok(v) => Ok::<Self, MlsError>(ConfirmedTranscriptHash(v)),
                            Err(_) => Err::<Self, MlsError>(MlsError::CryptoProviderError),
                        }
                    },
                None => r == Err::<Self, MlsError>(
                    MlsError::SerializationError(Error::VarIntOutOfRange),
                ),
            },
    {
        let hash_input = match confirmed_transcript_hash_input(interim_transcript_hash, content) {
            Ok(v) => v,
            Err(e) => {
                return Err(e);
            },
        };
        let data = hash_input.as_slice();
        let h = cipher_suite_provider.hash(data);
        match h {
            Ok(v) => Ok(ConfirmedTranscriptHash(v)),
            Err(_) => Err(MlsError::CryptoProviderError),
        }
    }
}

impl InterimTranscriptHash {
    /// Hashes the confirmed transcript hash together with the confirmation tag.
    pub fn create<P: CipherSuiteProvider>(
        cipher_suite_provider: &P,
        confirmed: &ConfirmedTranscriptHash,
        confirmation_tag: &ConfirmationTag,
    ) -> (r: Result<Self, MlsError>)
        ensures
            match spec_interim_hash_input(confirmed@, confirmation_tag.0@) {
                Some(input) => exists|data: &[u8], h: Result<Vec<u8>, P::Error>|
                    {
                        &&& data@ == input
                        &&& call_ensures(P::hash, (cipher_suite_provider, data), h)
                        &&& r == match h {
                            Ok(v) => Ok::<Self, MlsError>(InterimTranscriptHash(v)),
                            Err(_) => Err::<Self, MlsError>(MlsError::CryptoProviderError),
                        }
                    },
                None => r == Err::<Self, MlsError>(
                    MlsError::SerializationError(Error::VarIntOutOfRange),
                ),
            },
    {
        let hash_input = match interim_transcript_hash_input(confirmed, confirmation_tag) {
            Ok(v) => v,
            Err(e) => {
                return Err(e);
            },
        };
        let data = hash_input.as_slice();
        let h = cipher_suite_provider.hash(data);
        match h {
            Ok(v) => Ok(InterimTranscriptHash(v)),
            Err(_) => Err(MlsError::CryptoProviderError),
        }
    }
}

/// The confirmed transcript hash covers the interim transcript hash, then the
/// wire format in 2 bytes, then the encoded framed content, then the signature
/// as a byte vector that decodes back to the signature; it can be formed
/// exactly where the framed content can be encoded and the signature is at
/// most `2^30 - 1` bytes long.
pub proof fn lemma_confirmed_hash_input_layout(interim: Seq<u8>, content: AuthenticatedContent)
    ensures
        spec_confirmed_hash_input(interim, content) is Some <==> (
        content.content.spec_encoding() is Some && content.auth.signature@.len() <= 0x3fff_ffff),
        spec_confirmed_hash_input(interim, content) matches Some(input) ==> {
            let f = content.content.spec_encoding().unwrap();
            let at = interim.len() + 2 + f.len();
            &&& input.len() >= at
            &&& input.take(interim.len() as int) == interim
            &&& input.subrange(interim.len() as int, interim.len() as int + 2) == be_bytes(
                content.wire_format.spec_value() as nat,
                2,
            )
            &&& input.subrange(interim.len() as int + 2, at as int) == f
            &&& spec_byte_vec_decode(input.skip(at as int)) == Ok::<(Seq<u8>, nat), Error>(
                (content.auth.signature@, (input.len() - at) as nat),
            )
        },
{
    if let Some(input) = spec_confirmed_hash_input(interim, content) {
        let f = content.content.spec_encoding().unwrap();
        let w = be_bytes(content.wire_format.spec_value() as nat, 2);
        let sig = spec_byte_vec_encoding(content.auth.signature@).unwrap();
        crate::codec::lemma_be_bytes_len(content.wire_format.spec_value() as nat, 2);
        assert(input == interim + w + f + sig);
        let at = interim.len() + 2 + f.len();
        assert(input.take(interim.len() as int) =~= interim);
        assert(input.subrange(interim.len() as int, interim.len() as int + 2) =~= w);
        assert(input.subrange(interim.len() as int + 2, at as int) =~= f);
        assert(input.skip(at as int) =~= sig);
        lemma_byte_vec_encode_decode(content.auth.signature@, Seq::empty());
        assert(sig + Seq::<u8>::empty() =~= sig);
    }
}

/// The interim transcript hash covers the confirmed transcript hash, then the
/// confirmation tag as a byte vector that decodes back to the tag; it can be
/// formed exactly where the tag is at most `2^30 - 1` bytes long.
pub proof fn lemma_interim_hash_input_layout(confirmed: Seq<u8>, tag: Seq<u8>)
    ensures
        spec_interim_hash_input(confirmed, tag) is Some <==> tag.len() <= 0x3fff_ffff,
        spec_interim_hash_input(confirmed, tag) matches Some(input) ==> {
            &&& input.len() >= confirmed.len()
            &&& input.take(confirmed.len() as int) == confirmed
            &&& spec_byte_vec_decode(input.skip(confirmed.len() as int)) == Ok::<
                (Seq<u8>, nat),
                Error,
            >((tag, (input.len() - confirmed.len()) as nat))
        },
{
    if let Some(input) = spec_interim_hash_input(confirmed, tag) {
        let t = spec_byte_vec_encoding(tag).unwrap();
        assert(input.take(confirmed.len() as int) =~= confirmed);
        assert(input.skip(confirmed.len() as int) =~= t);
        lemma_byte_vec_encode_decode(tag, Seq::empty());
        assert(t + Seq::<u8>::empty() =~= t);
    }
}

} // verus!
