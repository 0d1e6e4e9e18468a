//! The membership tag of a public message: what its MAC is computed over.

use vstd::prelude::*;

use crate::codec::{be_bytes, write_be, Error, MlsDecode, MlsEncode, MlsRoundTrip, MlsSize};
use crate::transcript_hash::byte_vec_encoded_len;
use crate::varint::{
    lemma_byte_vec_decode_encode, lemma_byte_vec_encode_decode, lemma_byte_vec_encoding_len,
    read_byte_vec, spec_byte_vec_decode, spec_byte_vec_encoding, write_byte_vec,
};
use crate::framing::{
    cat, lemma_prefix_of_concat, lemma_prefix_trans, AuthenticatedContent, FramedContent, FramedContentAuthData,
    GroupContext, ProtocolVersion, Sender, WireFormat,
};

verus! {

/// Errors of membership tag creation.
#[derive(Debug, Clone, Copy, PartialEq, Eq, Structural)]
pub enum MembershipTagError {
    /// The MAC could not be computed.
    HMacError,
    /// The content could not be encoded.
    SerializationError(Error),
    /// Only public messages carry a membership tag.
    NonPlainWireFormat(WireFormat),
}

/// What a message signature covers: the protocol version, the wire format, the
/// framed content, and for members and new members that commit, the group
/// context.
#[derive(Debug)]
pub struct MLSContentTBS<'a> {
    pub protocol_version: ProtocolVersion,
    pub wire_format: WireFormat,
    pub content: &'a FramedContent,
    pub context: Option<&'a GroupContext>,
}

/// The senders whose signed content covers the group context.
pub open spec fn spec_sender_signs_context(sender: Sender) -> bool {
    sender is Member || sender is NewMemberCommit
}

impl<'a> MLSContentTBS<'a> {
    /// The encoding: version and wire format in 2 bytes each, the framed
    /// content, then the group context where there is one.
    pub open spec fn spec_encoding(self) -> Option<Seq<u8>> {
        cat(
            cat(
                Some(
                    be_bytes(self.protocol_version.0 as nat, 2) + be_bytes(
                        self.wire_format.spec_value() as nat,
                        2,
                    ),
                ),
                self.content.spec_encoding(),
            ),
            match self.context {
                Some(c) => c.spec_encoding(),
                None => Some(Seq::empty()),
            },
        )
    }

    /// The signed content of `auth_content`; the group context is included for
    /// members and new members that commit.
    pub fn from_authenticated_content(
        auth_content: &'a AuthenticatedContent,
        group_context: Option<&'a GroupContext>,
    ) -> (r: MLSContentTBS<'a>)
        ensures
            r.protocol_version.0 == 1,
            r.wire_format == auth_content.wire_format,
            *r.content == auth_content.content,
            r.context == (if spec_sender_signs_context(auth_content.content.sender) {
                group_context
            } else {
                None
            }),
    {
        let context = match auth_content.content.sender {
            Sender::Member(_) => group_context,
            Sender::NewMemberCommit => group_context,
            _ => None,
        };
        MLSContentTBS {
            protocol_version: ProtocolVersion::mls10(),
            wire_format: auth_content.wire_format,
            content: &auth_content.content,
            context,
        }
    }

    /// Appends the encoding of the signed content to `out`.
    #[verifier::spinoff_prover]
    pub fn mls_encode(&self, out: &mut Vec<u8>) -> (r: Result<(), Error>)
        ensures
            match self.spec_encoding() {
                Some(e) => r == Ok::<(), Error>(()) && final(out)@ == old(out)@ + e,
                None => {
                    &&& r == Err::<(), Error>(Error::VarIntOutOfRange)
                    &&& old(out)@.is_prefix_of(final(out)@)
                },
            },
    {
        let ghost start = out@;
        write_be(self.protocol_version.0 as u64, 2, out);
        write_be(self.wire_format.value() as u64, 2, out);
        let ghost h = be_bytes(self.protocol_version.0 as nat, 2) + be_bytes(
            self.wire_format.spec_value() as nat,
            2,
        );
        assert(out@ =~= start + h);
        let r1 = self.content.mls_encode(out);
        if r1.is_err() {
            proof {
                lemma_prefix_of_concat(start, h);
                lemma_prefix_trans(start, start + h, out@);
            }
            return r1;
        }
        let ghost a1 = h + self.content.spec_encoding().unwrap();
        assert(out@ =~= start + a1);
        match self.context {
            Some(c) => {
                let r2 = c.mls_encode(out);
                proof {
                    if r2 is Ok {
                        let x = c.spec_encoding().unwrap();
                        assert(self.spec_encoding() == Some(a1 + x));
                        assert(out@ =~= start + (a1 + x));
                    } else {
                        lemma_prefix_of_concat(start, a1);
                        lemma_prefix_trans(start, start + a1, out@);
                    }
                }
                r2
            },
            None => {
                assert(self.spec_encoding() == Some(a1 + Seq::<u8>::empty()));
                assert(out@ =~= start + (a1 + Seq::<u8>::empty()));
                Ok(())
            },
        }
    }
}

/// What a membership tag is the MAC of: the signed content and its
/// authentication data.
#[derive(Debug)]
pub struct MLSContentTBM<'a> {
    pub content_tbs: MLSContentTBS<'a>,
    pub auth: &'a FramedContentAuthData,
}

impl<'a> MLSContentTBM<'a> {
    /// The encoding: the signed content, then the authentication data.
    pub open spec fn spec_encoding(self) -> Option<Seq<u8>> {
        cat(self.content_tbs.spec_encoding(), self.auth.spec_encoding())
    }

    /// What the membership tag of `auth_content` is the MAC of, in
    /// `group_context`.
    pub fn from_authenticated_content(
        auth_content: &'a AuthenticatedContent,
        group_context: &'a GroupContext,
    ) -> (r: MLSContentTBM<'a>)
        ensures
            r.content_tbs.protocol_version.0 == 1,
            r.content_tbs.wire_format == auth_content.wire_format,
            *r.content_tbs.content == auth_content.content,
            r.content_tbs.context == (if spec_sender_signs_context(auth_content.content.sender) {
                Some(group_context)
            } else {
                None
            }),
            *r.auth == auth_content.auth,
    {
        MLSContentTBM {
            content_tbs: MLSContentTBS::from_authenticated_content(
                auth_content,
                Some(group_context),
            ),
            auth: &auth_content.auth,
        }
    }

    /// The number of bytes of the encoding of the content (0 where it cannot be
    /// encoded).
    pub fn tls_serialized_len(&self) -> (n: usize)
        ensures
            match self.spec_encoding() {
                Some(e) => n == e.len(),
                None => n == 0,
            },
    {
        match self.tls_serialize_detached() {
            Ok(v) => v.len(),
            Err(_) => 0,
        }
    }

    /// The encoding of the content, in a new vector.
    pub fn tls_serialize_detached(&self) -> (r: Result<Vec<u8>, Error>)
        ensures
            match self.spec_encoding() {
                Some(e) => r matches Ok(v) && v@ == e,
                None => r == Err::<Vec<u8>, Error>(Error::VarIntOutOfRange),
            },
    {
        let mut out: Vec<u8> = Vec::new();
        match self.content_tbs.mls_encode(&mut out) {
            Ok(()) => {},
            Err(e) => {
                return Err(e);
            },
        }
        let ghost s0 = out@;
        match self.auth.mls_encode(&mut out) {
            Ok(()) => {},
            Err(e) => {
                return Err(e);
            },
        }
        assert(s0 =~= Seq::<u8>::empty() + self.content_tbs.spec_encoding().unwrap());
        Ok(out)
    }
}

/// A membership tag: the MAC, under the membership key, of the encoding of an
/// `MLSContentTBM`.
#[derive(Debug, Clone)]
pub struct MembershipTag(pub Vec<u8>);

impl View for MembershipTag {
    type V = Seq<u8>;

    open spec fn view(&self) -> Seq<u8> {
        self.0@
    }
}

impl core::ops::Deref for MembershipTag {
    type Target = Vec<u8>;

    fn deref(&self) -> (r: &Vec<u8>)
        ensures
            *r == self.0,
    {
        &self.0
    }
}

impl From<Vec<u8>> for MembershipTag {
    fn from(v: Vec<u8>) -> (r: Self) {
        MembershipTag(v)
    }
}

impl vstd::std_specs::convert::FromSpecImpl<Vec<u8>> for MembershipTag {
    open spec fn obeys_from_spec() -> bool {
        true
    }

    open spec fn from_spec(v: Vec<u8>) -> MembershipTag {
        MembershipTag(v)
    }
}

impl MlsSize for MembershipTag {
    open spec fn spec_mls_encoding(&self) -> Option<Seq<u8>> {
        spec_byte_vec_encoding(self.0@)
    }

    fn mls_encoded_len(&self) -> (n: usize) {
        proof {
            lemma_byte_vec_encoding_len(self.0@);
        }
        byte_vec_encoded_len(self.0.len())
    }
}

impl MlsEncode for MembershipTag {
    fn mls_encode(&self, writer: &mut Vec<u8>) -> (r: Result<(), Error>) {
        let r = write_byte_vec(self.0.as_slice(), writer);
        proof {
            lemma_prefix_of_concat(old(writer)@, Seq::empty());
            assert(old(writer)@ + Seq::<u8>::empty() =~= old(writer)@);
        }
        r
    }
}

impl MlsDecode for MembershipTag {
    open spec fn spec_mls_decode(bytes: Seq<u8>) -> Result<(Seq<u8>, nat), Error> {
        spec_byte_vec_decode(bytes)
    }

    fn mls_decode(reader: &mut &[u8]) -> (r: Result<MembershipTag, Error>) {
        let bytes: &[u8] = *reader;
        match read_byte_vec(bytes) {
            Ok((v, k)) => {
                *reader = &bytes[k..bytes.len()];
                Ok(MembershipTag(v))
            },
            Err(e) => Err(e),
        }
    }
}

impl MlsRoundTrip for MembershipTag {
    proof fn lemma_encode_decode(v: MembershipTag, rest: Seq<u8>) {
        lemma_byte_vec_encode_decode(v.0@, rest);
    }

    proof fn lemma_decode_encode(bytes: Seq<u8>, v: MembershipTag) {
        lemma_byte_vec_decode_encode(bytes);
    }
}

/// The bytes that the membership tag of `authenticated_content` is the MAC of:
/// only public messages carry one.
pub open spec fn spec_membership_tag_input(
    authenticated_content: AuthenticatedContent,
    group_context: GroupContext,
) -> Result<Seq<u8>, MembershipTagError> {
    if authenticated_content.wire_format != WireFormat::PublicMessage {
        Err(MembershipTagError::NonPlainWireFormat(authenticated_content.wire_format))
    } else {
        let tbs = MLSContentTBS {
            protocol_version: ProtocolVersion(1),
            wire_format: authenticated_content.wire_format,
            content: &authenticated_content.content,
            context: if spec_sender_signs_context(authenticated_content.content.sender) {
                Some(&group_context)
            } else {
                None
            },
        };
        match cat(tbs.spec_encoding(), authenticated_content.auth.spec_encoding()) {
            Some(e) => Ok(e),
            None => Err(MembershipTagError::SerializationError(Error::VarIntOutOfRange)),
        }
    }
}

impl MembershipTag {
    /// The bytes that the membership tag of `authenticated_content` is computed
    /// over, in `group_context`; the MAC itself is the cipher suite's HMAC with
    /// the membership key, over these bytes.
    pub fn create_input(
        authenticated_content: &AuthenticatedContent,
        group_context: &GroupContext,
    ) -> (r: Result<Vec<u8>, MembershipTagError>)
        ensures
            match spec_membership_tag_input(*authenticated_content, *group_context) {
                Ok(e) => r matches Ok(v) && v@ == e,
                Err(err) => r == Err::<Vec<u8>, MembershipTagError>(err),
            },
    {
        if authenticated_content.wire_format != WireFormat::PublicMessage {
            return Err(MembershipTagError::NonPlainWireFormat(authenticated_content.wire_format));
        }
        let plaintext_tbm = MLSContentTBM::from_authenticated_content(
            authenticated_content,
            group_context,
        );
        match plaintext_tbm.tls_serialize_detached() {
            Ok(v) => Ok(v),
            Err(e) => Err(MembershipTagError::SerializationError(e)),
        }
    }
}

} // verus!
