//! The framing structures of MLS messages that are hashed and MAC'ed, with their
//! encodings.

use vstd::prelude::*;

use crate::codec::{be_bytes, write_be, Error};
use crate::varint::{
    lemma_byte_vec_encode_decode, spec_byte_vec_decode, spec_byte_vec_encoding,
    spec_varint_encoding, write_byte_vec, write_varint,
};

verus! {

/// Concatenates two encodings; `None` when either is.
pub open spec fn cat(a: Option<Seq<u8>>, b: Option<Seq<u8>>) -> Option<Seq<u8>> {
    match (a, b) {
        (Some(x), Some(y)) => Some(x + y),
        _ => None,
    }
}

pub proof fn lemma_prefix_of_concat(a: Seq<u8>, b: Seq<u8>)
    ensures
        a.is_prefix_of(a + b),
{
    assert((a + b).subrange(0, a.len() as int) =~= a);
}

pub proof fn lemma_prefix_trans(a: Seq<u8>, b: Seq<u8>, c: Seq<u8>)
    requires
        a.is_prefix_of(b),
        b.is_prefix_of(c),
    ensures
        a.is_prefix_of(c),
{
    assert(c.subrange(0, a.len() as int) =~= b.subrange(0, a.len() as int));
}

/// The version of the protocol.
#[derive(Debug, Clone, Copy, PartialEq, Eq, Structural)]
pub struct ProtocolVersion(pub u16);

impl ProtocolVersion {
    /// The version defined by RFC 9420.
    pub fn mls10() -> (v: ProtocolVersion)
        ensures
            v.0 == 1,
    {
        ProtocolVersion(1)
    }
}

/// The cipher suites, by their code points.
#[derive(Debug, Clone, Copy, PartialEq, Eq, Structural)]
pub enum CipherSuite {
    Curve25519Aes128,
    P256Aes128,
    Curve25519ChaCha20,
    Curve448Aes256,
    P521Aes256,
    Curve448ChaCha20,
    P384Aes256,
}

/// The hash functions that the cipher suites use.
#[derive(Debug, Clone, Copy, PartialEq, Eq, Structural)]
pub enum HashFunction {
    Sha256,
    Sha384,
    Sha512,
}

impl CipherSuite {
    /// The code point of the suite.
    pub open spec fn spec_value(self) -> u16 {
        match self {
            CipherSuite::Curve25519Aes128 => 1,
            CipherSuite::P256Aes128 => 2,
            CipherSuite::Curve25519ChaCha20 => 3,
            CipherSuite::Curve448Aes256 => 4,
            CipherSuite::P521Aes256 => 5,
            CipherSuite::Curve448ChaCha20 => 6,
            CipherSuite::P384Aes256 => 7,
        }
    }

    /// The code point of the suite.
    pub fn value(&self) -> (v: u16)
        ensures
            v == self.spec_value(),
    {
        match self {
            CipherSuite::Curve25519Aes128 => 1,
            CipherSuite::P256Aes128 => 2,
            CipherSuite::Curve25519ChaCha20 => 3,
            CipherSuite::Curve448Aes256 => 4,
            CipherSuite::P521Aes256 => 5,
            CipherSuite::Curve448ChaCha20 => 6,
            CipherSuite::P384Aes256 => 7,
        }
    }

    /// The hash function of the suite: SHA-256 for the suites with 128-bit
    /// security, SHA-512 for the Curve448 and P-521 suites, SHA-384 for P-384.
    pub fn hash_function(&self) -> (h: HashFunction)
        ensures
            h == (match *self {
                CipherSuite::Curve25519Aes128 => HashFunction::Sha256,
                CipherSuite::P256Aes128 => HashFunction::Sha256,
                CipherSuite::Curve25519ChaCha20 => HashFunction::Sha256,
                CipherSuite::P384Aes256 => HashFunction::Sha384,
                _ => HashFunction::Sha512,
            }),
    {
        match self {
            CipherSuite::Curve25519Aes128 => HashFunction::Sha256,
            CipherSuite::P256Aes128 => HashFunction::Sha256,
            CipherSuite::Curve25519ChaCha20 => HashFunction::Sha256,
            CipherSuite::Curve448Aes256 => HashFunction::Sha512,
            CipherSuite::P521Aes256 => HashFunction::Sha512,
            CipherSuite::Curve448ChaCha20 => HashFunction::Sha512,
            CipherSuite::P384Aes256 => HashFunction::Sha384,
        }
    }
}

/// How a message travels.
#[derive(Debug, Clone, Copy, PartialEq, Eq, Structural)]
pub enum WireFormat {
    PublicMessage,
    PrivateMessage,
    Welcome,
    GroupInfo,
    KeyPackage,
}

impl WireFormat {
    /// The code point of the wire format.
    pub open spec fn spec_value(self) -> u16 {
        match self {
            WireFormat::PublicMessage => 1,
            WireFormat::PrivateMessage => 2,
            WireFormat::Welcome => 3,
            WireFormat::GroupInfo => 4,
            WireFormat::KeyPackage => 5,
        }
    }

    /// The code point of the wire format.
    pub fn value(&self) -> (v: u16)
        ensures
            v == self.spec_value(),
    {
        match self {
            WireFormat::PublicMessage => 1,
            WireFormat::PrivateMessage => 2,
            WireFormat::Welcome => 3,
            WireFormat::GroupInfo => 4,
            WireFormat::KeyPackage => 5,
        }
    }
}

/// Who sent a message.
#[derive(Debug, Clone, Copy, PartialEq, Eq, Structural)]
pub enum Sender {
    /// A member, by its leaf index.
    Member(u32),
    /// An external sender, by its index in the external senders extension.
    External(u32),
    /// A new member that proposes its own addition.
    NewMemberProposal,
    /// A new member that joins by an external commit.
    NewMemberCommit,
}

impl Sender {
    /// The encoding of a sender: its type as one byte, then the index for members
    /// and external senders.
    pub open spec fn spec_encoding(self) -> Seq<u8> {
        match self {
            Sender::Member(i) => seq![1u8] + be_bytes(i as nat, 4),
            Sender::External(i) => seq![2u8] + be_bytes(i as nat, 4),
            Sender::NewMemberProposal => seq![3u8],
            Sender::NewMemberCommit => seq![4u8],
        }
    }

    /// Appends the encoding of the sender to `out`.
    pub fn mls_encode(&self, out: &mut Vec<u8>)
        ensures
            final(out)@ == old(out)@ + self.spec_encoding(),
    {
        let ghost start = out@;
        match self {
            Sender::Member(i) => {
                out.push(1u8);
                write_be(*i as u64, 4, out);
            },
            Sender::External(i) => {
                out.push(2u8);
                write_be(*i as u64, 4, out);
            },
            Sender::NewMemberProposal => {
                out.push(3u8);
            },
            Sender::NewMemberCommit => {
                out.push(4u8);
            },
        }
        assert(out@ =~= start + self.spec_encoding());
    }
}

/// The content of a framed message.
#[derive(Debug, Clone)]
pub enum Content {
    /// Application data.
    Application(Vec<u8>),
    /// A proposal, held as the bytes of its encoding.
    Proposal(Vec<u8>),
    /// A commit, held as the bytes of its encoding.
    Commit(Vec<u8>),
}

/// The type of a framed message's content.
#[derive(Debug, Clone, Copy, PartialEq, Eq, Structural)]
pub enum ContentType {
    Application,
    Proposal,
    Commit,
}

impl Content {
    pub open spec fn spec_content_type(self) -> ContentType {
        match self {
            Content::Application(_) => ContentType::Application,
            Content::Proposal(_) => ContentType::Proposal,
            Content::Commit(_) => ContentType::Commit,
        }
    }

    /// The type of the content.
    pub fn content_type(&self) -> (t: ContentType)
        ensures
            t == self.spec_content_type(),
    {
        match self {
            Content::Application(_) => ContentType::Application,
            Content::Proposal(_) => ContentType::Proposal,
            Content::Commit(_) => ContentType::Commit,
        }
    }

    /// The encoding of the content: its type as one byte, then application data as
    /// a byte vector, or the encoded proposal or commit.
    pub open spec fn spec_encoding(self) -> Option<Seq<u8>> {
        match self {
            Content::Application(d) => cat(Some(seq![1u8]), spec_byte_vec_encoding(d@)),
            Content::Proposal(p) => Some(seq![2u8] + p@),
            Content::Commit(c) => Some(seq![3u8] + c@),
        }
    }

    /// Appends the encoding of the content to `out`.
    pub fn mls_encode(&self, out: &mut Vec<u8>) -> (r: Result<(), Error>)
        ensures
            match self.spec_encoding() {
                Some(e) => r == Ok::<(), Error>(()) && final(out)@ == old(out)@ + e,
                None => {
                    &&& r == Err::<(), Error>(Error::VarIntOutOfRange)
                    &&& old(out)@.is_prefix_of(final(out)@)
                },
            },
    {
        let ghost start = out@;
        match self {
            Content::Application(d) => {
                out.push(1u8);
                let r = write_byte_vec(d.as_slice(), out);
                proof {
                    lemma_prefix_of_concat(start, seq![1u8]);
                    if r is Ok {
                        assert(out@ =~= start + (seq![1u8] + spec_byte_vec_encoding(d@).unwrap()));
                    }
                }
                r
            },
            Content::Proposal(p) => {
                out.push(2u8);
                append_bytes(p.as_slice(), out);
                assert(out@ =~= start + (seq![2u8] + p@));
                Ok(())
            },
            Content::Commit(c) => {
                out.push(3u8);
                append_bytes(c.as_slice(), out);
                assert(out@ =~= start + (seq![3u8] + c@));
                Ok(())
            },
        }
    }
}

/// Appends the bytes of `b` to `out`.
pub fn append_bytes(b: &[u8], out: &mut Vec<u8>)
    ensures
        final(out)@ == old(out)@ + b@,
{
    let ghost start = out@;
    let mut i: usize = 0;
    while i < b.len()
        invariant
            i <= b@.len(),
            out@ == start + b@.take(i as int),
        decreases b@.len() - i,
    {
        out.push(b[i]);
        i = i + 1;
        assert(out@ =~= start + b@.take(i as int));
    }
    assert(b@.take(b@.len() as int) =~= b@);
}

/// Framed content: the group, the epoch, the sender, the authenticated data and
/// the content proper.
#[derive(Debug, Clone)]
pub struct FramedContent {
    pub group_id: Vec<u8>,
    pub epoch: u64,
    pub sender: Sender,
    pub authenticated_data: Vec<u8>,
    pub content: Content,
}

impl FramedContent {
    /// The encoding: the group id as a byte vector, the epoch in 8 bytes, the
    /// sender, the authenticated data as a byte vector, then the content.
    pub open spec fn spec_encoding(self) -> Option<Seq<u8>> {
        cat(
            cat(
                cat(
                    cat(spec_byte_vec_encoding(self.group_id@), Some(be_bytes(self.epoch as nat, 8))),
                    Some(self.sender.spec_encoding()),
                ),
                spec_byte_vec_encoding(self.authenticated_data@),
            ),
            self.content.spec_encoding(),
        )
    }

    /// Appends the encoding of the framed content to `out`.
    #[verifier::spinoff_prover]
    pub fn mls_encode(&self, out: &mut Vec<u8>) -> (r: Result<(), Error>)
        ensures
            match self.spec_encoding() {
                Some(e) => r == Ok::<(), Error>(()) && final(out)@ == old(out)@ + e,
                None => {
                    &&& r == Err::<(), Error>(Error::VarIntOutOfRange)
                    &&& old(out)@.is_prefix_of(final(out)@)
                },
            },
    {
        let ghost start = out@;
        match write_byte_vec(self.group_id.as_slice(), out) {
            Ok(()) => {},
            Err(e) => {
                proof {
                    lemma_prefix_of_concat(start, Seq::empty());
                    assert(start + Seq::<u8>::empty() =~= start);
                }
                return Err(e);
            },
        }
        let ghost g = spec_byte_vec_encoding(self.group_id@).unwrap();
        write_be(self.epoch, 8, out);
        self.sender.mls_encode(out);
        let ghost a1 = g + be_bytes(self.epoch as nat, 8) + self.sender.spec_encoding();
        assert(out@ =~= start + a1);
        match write_byte_vec(self.authenticated_data.as_slice(), out) {
            Ok(()) => {},
            Err(e) => {
                proof {
                    lemma_prefix_of_concat(start, a1);
                }
                return Err(e);
            },
        }
        let ghost a2 = a1 + spec_byte_vec_encoding(self.authenticated_data@).unwrap();
        assert(out@ =~= start + a2);
        let r = self.content.mls_encode(out);
        proof {
            if r is Ok {
                let c = self.content.spec_encoding().unwrap();
                assert(self.spec_encoding() == Some(a2 + c));
                assert(out@ =~= start + (a2 + c));
            } else {
                lemma_prefix_of_concat(start, a2);
                lemma_prefix_trans(start, start + a2, out@);
            }
        }
        r
    }
}

/// The authentication data of framed content: the signature, and for commits the
/// confirmation tag.
#[derive(Debug, Clone)]
pub struct FramedContentAuthData {
    pub signature: Vec<u8>,
    pub confirmation_tag: Option<Vec<u8>>,
}

impl FramedContentAuthData {
    /// The encoding: the signature as a byte vector, then the confirmation tag as a
    /// byte vector where there is one.
    pub open spec fn spec_encoding(self) -> Option<Seq<u8>> {
        match self.confirmation_tag {
            Some(t) => cat(spec_byte_vec_encoding(self.signature@), spec_byte_vec_encoding(t@)),
            None => spec_byte_vec_encoding(self.signature@),
        }
    }

    /// Appends the encoding of the authentication data to `out`.
    pub fn mls_encode(&self, out: &mut Vec<u8>) -> (r: Result<(), Error>)
        ensures
            match self.spec_encoding() {
                Some(e) => r == Ok::<(), Error>(()) && final(out)@ == old(out)@ + e,
                None => {
                    &&& r == Err::<(), Error>(Error::VarIntOutOfRange)
                    &&& old(out)@.is_prefix_of(final(out)@)
                },
            },
    {
        let ghost start = out@;
        proof {
            lemma_prefix_of_concat(start, Seq::empty());
            assert(start + Seq::<u8>::empty() =~= start);
        }
        match write_byte_vec(self.signature.as_slice(), out) {
            Ok(()) => {},
            Err(e) => {
                return Err(e);
            },
        }
        let ghost s1 = out@;
        match &self.confirmation_tag {
            Some(t) => {
                let r = write_byte_vec(t.as_slice(), out);
                proof {
                    lemma_prefix_of_concat(start, s1.subrange(start.len() as int, s1.len() as int));
                    assert(start + s1.subrange(start.len() as int, s1.len() as int) =~= s1);
                    if r is Ok {
                        assert(out@ =~= start + self.spec_encoding().unwrap());
                    }
                }
                r
            },
            None => Ok(()),
        }
    }
}

/// Framed content with its wire format and authentication data.
#[derive(Debug, Clone)]
pub struct AuthenticatedContent {
    pub wire_format: WireFormat,
    pub content: FramedContent,
    pub auth: FramedContentAuthData,
}

/// A group context extension: its type and its data.
#[derive(Debug, Clone)]
pub struct Extension {
    pub extension_type: u16,
    pub extension_data: Vec<u8>,
}

impl Extension {
    /// The encoding: the type in 2 bytes, then the data as a byte vector.
    pub open spec fn spec_encoding(self) -> Option<Seq<u8>> {
        cat(Some(be_bytes(self.extension_type as nat, 2)), spec_byte_vec_encoding(self.extension_data@))
    }
}

/// The encodings of the extensions, one after another.
pub open spec fn spec_extensions_body(exts: Seq<Extension>) -> Option<Seq<u8>>
    decreases exts.len(),
{
    if exts.len() == 0 {
        Some(Seq::empty())
    } else {
        cat(spec_extensions_body(exts.drop_last()), exts.last().spec_encoding())
    }
}

/// The encoding of a list of extensions: a byte vector that holds their
/// encodings one after another.
pub open spec fn spec_extensions_encoding(exts: Seq<Extension>) -> Option<Seq<u8>> {
    match spec_extensions_body(exts) {
        Some(b) => spec_byte_vec_encoding(b),
        None => None,
    }
}

/// Appends the encoding of a list of extensions to `out`.
pub fn write_extensions(exts: &Vec<Extension>, out: &mut Vec<u8>) -> (r: Result<(), Error>)
    ensures
        match spec_extensions_encoding(exts@) {
            Some(e) => r == Ok::<(), Error>(()) && final(out)@ == old(out)@ + e,
            None => r == Err::<(), Error>(Error::VarIntOutOfRange) && final(out)@ == old(out)@,
        },
{
    let mut body: Vec<u8> = Vec::new();
    let mut i: usize = 0;
    while i < exts.len()
        invariant
            i <= exts@.len(),
            spec_extensions_body(exts@.take(i as int)) == Some(body@),
        decreases exts@.len() - i,
    {
        let ext = &exts[i];
        let ghost b0 = body@;
        write_be(ext.extension_type as u64, 2, &mut body);
        match write_byte_vec(ext.extension_data.as_slice(), &mut body) {
            Ok(()) => {},
            Err(e) => {
                proof {
                    lemma_extensions_body_none(exts@, i as int);
                }
                return Err(e);
            },
        }
        proof {
            assert(exts@.take(i + 1).drop_last() =~= exts@.take(i as int));
            assert(body@ =~= b0 + ext.spec_encoding().unwrap());
        }
        i = i + 1;
    }
    assert(exts@.take(exts@.len() as int) =~= exts@);
    write_byte_vec(body.as_slice(), out)
}

/// Where one extension cannot be encoded, neither can the list.
pub proof fn lemma_extensions_body_none(exts: Seq<Extension>, i: int)
    requires
        0 <= i < exts.len(),
        exts[i].spec_encoding() is None,
    ensures
        spec_extensions_body(exts) is None,
    decreases exts.len(),
{
    if i < exts.len() - 1 {
        lemma_extensions_body_none(exts.drop_last(), i);
    }
}

/// The context of a group in an epoch.
#[derive(Debug, Clone)]
pub struct GroupContext {
    pub protocol_version: ProtocolVersion,
    pub cipher_suite: CipherSuite,
    pub group_id: Vec<u8>,
    pub epoch: u64,
    pub tree_hash: Vec<u8>,
    pub confirmed_transcript_hash: Vec<u8>,
    pub extensions: Vec<Extension>,
}

impl GroupContext {
    /// The encoding: version and cipher suite in 2 bytes each, the group id as a
    /// byte vector, the epoch in 8 bytes, the tree hash and the confirmed
    /// transcript hash as byte vectors, then the extensions.
    pub open spec fn spec_encoding(self) -> Option<Seq<u8>> {
        cat(
            cat(
                cat(
                    cat(
                        Some(
                            be_bytes(self.protocol_version.0 as nat, 2) + be_bytes(
                                self.cipher_suite.spec_value() as nat,
                                2,
                            ),
                        ),
                        spec_byte_vec_encoding(self.group_id@),
                    ),
                    Some(be_bytes(self.epoch as nat, 8)),
                ),
                cat(
                    spec_byte_vec_encoding(self.tree_hash@),
                    spec_byte_vec_encoding(self.confirmed_transcript_hash@),
                ),
            ),
            spec_extensions_encoding(self.extensions@),
        )
    }

    /// Appends the encoding of the group context to `out`.
    #[verifier::spinoff_prover]
    pub fn mls_encode(&self, out: &mut Vec<u8>) -> (r: Result<(), Error>)
        ensures
            match self.spec_encoding() {
                Some(e) => r == Ok::<(), Error>(()) && final(out)@ == old(out)@ + e,
                None => {
                    &&& r == Err::<(), Error>(Error::VarIntOutOfRange)
                    &&& old(out)@.is_prefix_of(final(out)@)
                },
            },
    {
        let ghost start = out@;
        write_be(self.protocol_version.0 as u64, 2, out);
        write_be(self.cipher_suite.value() as u64, 2, out);
        let ghost h = be_bytes(self.protocol_version.0 as nat, 2) + be_bytes(
            self.cipher_suite.spec_value() as nat,
            2,
        );
        assert(out@ =~= start + h);
        let r1 = write_byte_vec(self.group_id.as_slice(), out);
        if r1.is_err() {
            proof {
                lemma_prefix_of_concat(start, h);
            }
            return r1;
        }
        let ghost g = spec_byte_vec_encoding(self.group_id@).unwrap();
        write_be(self.epoch, 8, out);
        let ghost a1 = h + g + be_bytes(self.epoch as nat, 8);
        assert(out@ =~= start + a1);
        let r2 = write_byte_vec(self.tree_hash.as_slice(), out);
        if r2.is_err() {
            proof {
                lemma_prefix_of_concat(start, a1);
            }
            return r2;
        }
        let ghost t = spec_byte_vec_encoding(self.tree_hash@).unwrap();
        assert(out@ =~= start + (a1 + t));
        let r3 = write_byte_vec(self.confirmed_transcript_hash.as_slice(), out);
        if r3.is_err() {
            proof {
                lemma_prefix_of_concat(start, a1 + t);
            }
            return r3;
        }
        let ghost c = spec_byte_vec_encoding(self.confirmed_transcript_hash@).unwrap();
        let ghost a2 = a1 + (t + c);
        assert(out@ =~= start + a2);
        let r4 = write_extensions(&self.extensions, out);
        proof {
            if r4 is Ok {
                let x = spec_extensions_encoding(self.extensions@).unwrap();
                assert(self.spec_encoding() == Some(a2 + x));
                assert(out@ =~= start + (a2 + x));
            } else {
                lemma_prefix_of_concat(start, a2);
            }
        }
        r4
    }
}

/// The encoding of content starts with its type (1 for application data, 2 for
/// a proposal, 3 for a commit). Application data follows as a byte vector that
/// decodes back to the data; a proposal or a commit follows as its own
/// encoding, with no length prefix.
pub proof fn lemma_content_encoding_layout(c: Content)
    ensures
        c.spec_encoding() matches Some(e) ==> e.len() >= 1,
        c matches Content::Application(d) ==> (c.spec_encoding() is Some <==> d@.len()
            <= 0x3fff_ffff),
        c matches Content::Application(d) ==> c.spec_encoding() matches Some(e) ==> {
            &&& e[0] == 1u8
            &&& spec_byte_vec_decode(e.drop_first()) == Ok::<(Seq<u8>, nat), Error>(
                (d@, (e.len() - 1) as nat),
            )
        },
        c matches Content::Proposal(p) ==> c.spec_encoding() matches Some(e) && e.len() == 1
            + p@.len() && e[0] == 2u8 && e.drop_first() == p@,
        c matches Content::Commit(m) ==> c.spec_encoding() matches Some(e) && e.len() == 1
            + m@.len() && e[0] == 3u8 && e.drop_first() == m@,
{
    match c {
        Content::Application(d) => {
            if let Some(e) = c.spec_encoding() {
                let b = spec_byte_vec_encoding(d@).unwrap();
                assert(e.drop_first() =~= b);
                lemma_byte_vec_encode_decode(d@, Seq::empty());
                assert(b + Seq::<u8>::empty() =~= b);
            }
        },
        Content::Proposal(p) => {
            assert((seq![2u8] + p@).drop_first() =~= p@);
        },
        Content::Commit(m) => {
            assert((seq![3u8] + m@).drop_first() =~= m@);
        },
    }
}

} // verus!
