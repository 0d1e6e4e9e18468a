//! The MLS presentation-language codec for fixed-width unsigned integers:
//! every integer is written as its big-endian bytes, with no prefix.

use vstd::prelude::*;

verus! {

/// Errors of the MLS codec.
#[derive(Debug, Clone, Copy, PartialEq, Eq, Structural)]
pub enum Error {
    /// A length does not fit in a variable-length integer (at most 2^30 - 1).
    VarIntOutOfRange,
    /// The two top bits of a variable-length integer are `0b11`.
    InvalidVarIntPrefix(u8),
    /// A variable-length integer is not written in its shortest form.
    VarIntMinimumLengthEncoding,
    /// The input ended before the value did.
    UnexpectedEOF,
}

/// `256^n`.
pub open spec fn pow256(n: nat) -> nat
    decreases n,
{
    if n == 0 {
        1
    } else {
        256 * pow256((n - 1) as nat)
    }
}

/// The number that the bytes `s` spell in big-endian order.
pub open spec fn be_value(s: Seq<u8>) -> nat
    decreases s.len(),
{
    if s.len() == 0 {
        0
    } else {
        be_value(s.drop_last()) * 256 + s.last() as nat
    }
}

/// The `n` low-order bytes of `v`, most significant first.
pub open spec fn be_bytes(v: nat, n: nat) -> Seq<u8>
    decreases n,
{
    if n == 0 {
        Seq::empty()
    } else {
        be_bytes(v / 256, (n - 1) as nat).push((v % 256) as u8)
    }
}

pub proof fn lemma_pow256_monotone(i: nat, j: nat)
    requires
        i <= j,
    ensures
        pow256(i) <= pow256(j),
        pow256(i) >= 1,
    decreases j,
{
    if j > i {
        lemma_pow256_monotone(i, (j - 1) as nat);
    } else if i > 0 {
        lemma_pow256_monotone((i - 1) as nat, (i - 1) as nat);
    }
}

pub proof fn lemma_pow256_values()
    ensures
        pow256(1) == 0x100,
        pow256(2) == 0x1_0000,
        pow256(4) == 0x1_0000_0000,
        pow256(8) == 0x1_0000_0000_0000_0000,
{
    reveal_with_fuel(pow256, 9);
}

pub proof fn lemma_be_bytes_len(v: nat, n: nat)
    ensures
        be_bytes(v, n).len() == n,
    decreases n,
{
    if n > 0 {
        lemma_be_bytes_len(v / 256, (n - 1) as nat);
    }
}

/// `n` bytes spell a number below `256^n`.
pub proof fn lemma_be_value_bound(s: Seq<u8>)
    ensures
        be_value(s) < pow256(s.len()),
    decreases s.len(),
{
    if s.len() > 0 {
        lemma_be_value_bound(s.drop_last());
    }
}

/// Writing a number below `256^n` in `n` bytes and reading it back gives the number.
pub proof fn lemma_be_bytes_value(v: nat, n: nat)
    requires
        v < pow256(n),
    ensures
        be_value(be_bytes(v, n)) == v,
    decreases n,
{
    if n > 0 {
        lemma_be_bytes_value(v / 256, (n - 1) as nat);
        lemma_be_bytes_len(v / 256, (n - 1) as nat);
        let s = be_bytes(v, n);
        assert(s.drop_last() =~= be_bytes(v / 256, (n - 1) as nat));
    }
}

/// Reading bytes as a number and writing the number back in as many bytes gives the bytes.
pub proof fn lemma_be_value_bytes(s: Seq<u8>)
    ensures
        be_bytes(be_value(s), s.len()) == s,
    decreases s.len(),
{
    if s.len() > 0 {
        let d = s.drop_last();
        lemma_be_value_bytes(d);
        let x = be_value(s);
        assert(x / 256 == be_value(d));
        assert(x % 256 == s.last());
        assert(be_bytes(x, s.len()) =~= d.push(s.last()));
        assert(d.push(s.last()) =~= s);
    }
}

/// Appends the `n` low-order bytes of `v` to `out`, most significant first.
pub(crate) fn write_be(v: u64, n: usize, out: &mut Vec<u8>)
    requires
        n <= 8,
    ensures
        final(out)@ == old(out)@ + be_bytes(v as nat, n as nat),
{
    let mut buf: Vec<u8> = Vec::new();
    let mut k: usize = 0;
    while k < n
        invariant
            k <= n,
            buf@.len() == k,
        decreases n - k,
    {
        buf.push(0u8);
        k = k + 1;
    }
    let mut tmp: u64 = v;
    let mut m: usize = n;
    while m > 0
        invariant
            m <= n,
            buf@.len() == n,
            be_bytes(v as nat, n as nat) == be_bytes(tmp as nat, m as nat) + buf@.subrange(
                m as int,
                n as int,
            ),
        decreases m,
    {
        let ghost old_suffix = buf@.subrange(m as int, n as int);
        let b: u8 = (tmp % 256) as u8;
        buf.set(m - 1, b);
        proof {
            assert(buf@.subrange(m - 1, n as int) =~= seq![b] + old_suffix);
            let head = be_bytes(tmp as nat / 256, (m - 1) as nat);
            assert(be_bytes(tmp as nat, m as nat) == head.push(b));
            assert(head.push(b) + old_suffix =~= head + (seq![b] + old_suffix));
        }
        tmp = tmp / 256;
        m = m - 1;
    }
    assert(buf@.subrange(0, n as int) =~= buf@);
    let mut buf2 = buf;
    out.append(&mut buf2);
}

/// The number that the first `n` bytes of `s` spell in big-endian order.
pub(crate) fn read_be(s: &[u8], n: usize) -> (r: u64)
    requires
        n <= 8,
        n <= s@.len(),
    ensures
        r == be_value(s@.take(n as int)),
{
    let mut acc: u64 = 0;
    let mut i: usize = 0;
    while i < n
        invariant
            i <= n,
            n <= 8,
            n <= s@.len(),
            acc == be_value(s@.take(i as int)),
        decreases n - i,
    {
        proof {
            lemma_be_value_bound(s@.take(i as int));
            lemma_pow256_monotone(i as nat, 7);
            reveal_with_fuel(pow256, 8);
            assert(s@.take(i + 1).drop_last() =~= s@.take(i as int));
        }
        acc = acc * 256 + s[i] as u64;
        i = i + 1;
    }
    acc
}

/// What decoding an `n`-byte unsigned integer from `bytes` gives: the number and
/// how many bytes it takes, or `UnexpectedEOF` when fewer than `n` bytes are there.
pub open spec fn spec_decode_uint(bytes: Seq<u8>, n: nat) -> Result<(nat, nat), Error> {
    if bytes.len() < n {
        Err(Error::UnexpectedEOF)
    } else {
        Ok((be_value(bytes.take(n as int)), n))
    }
}

/// Encoding a number below `256^n` in `n` bytes and decoding it, whatever follows,
/// gives the number back and consumes exactly the encoding.
pub proof fn lemma_uint_encode_decode(v: nat, n: nat, rest: Seq<u8>)
    requires
        v < pow256(n),
    ensures
        spec_decode_uint(be_bytes(v, n) + rest, n) == Ok::<(nat, nat), Error>((v, n)),
{
    lemma_be_bytes_len(v, n);
    lemma_be_bytes_value(v, n);
    assert((be_bytes(v, n) + rest).take(n as int) =~= be_bytes(v, n));
}

/// Decoding an `n`-byte unsigned integer and encoding the result gives back
/// exactly the bytes that were consumed.
pub proof fn lemma_uint_decode_encode(bytes: Seq<u8>, n: nat)
    ensures
        spec_decode_uint(bytes, n) matches Ok((v, k)) ==> k == n && v < pow256(n) && be_bytes(
            v,
            n,
        ) == bytes.take(n as int),
{
    if bytes.len() >= n {
        lemma_be_value_bound(bytes.take(n as int));
        lemma_be_value_bytes(bytes.take(n as int));
    }
}

/// Types with a known encoded size.
pub trait MlsSize {
    /// The bytes that encode `self`, or `None` where a length inside it does not
    /// fit in a variable-length integer.
    spec fn spec_mls_encoding(&self) -> Option<Seq<u8>>;

    /// The number of bytes that encode `self`.
    fn mls_encoded_len(&self) -> (n: usize)
        ensures
            self.spec_mls_encoding() matches Some(e) ==> n == e.len(),
    ;
}

/// Types that can be written in the MLS encoding.
pub trait MlsEncode: MlsSize {
    /// Appends the encoding of `self` to `writer`.
    fn mls_encode(&self, writer: &mut Vec<u8>) -> (r: Result<(), Error>)
        ensures
            match self.spec_mls_encoding() {
                Some(e) => r == Ok::<(), Error>(()) && final(writer)@ == old(writer)@ + e,
                None => {
                    &&& r == Err::<(), Error>(Error::VarIntOutOfRange)
                    &&& old(writer)@.is_prefix_of(final(writer)@)
                },
            },
    ;

    /// The encoding of `self` in a new vector.
    fn mls_encode_to_vec(&self) -> (r: Result<Vec<u8>, Error>)
        ensures
            match self.spec_mls_encoding() {
                Some(e) => r matches Ok(v) && v@ == e,
                None => r == Err::<Vec<u8>, Error>(Error::VarIntOutOfRange),
            },
    {
        let mut vec: Vec<u8> = Vec::with_capacity(self.mls_encoded_len());
        match self.mls_encode(&mut vec) {
            Ok(()) => Ok(vec),
            Err(e) => Err(e),
        }
    }
}

/// Types that can be read from the MLS encoding.
pub trait MlsDecode: Sized + View {
    /// What decoding from the front of `bytes` gives: the value (by its view) and
    /// the number of bytes it takes, or the error.
    spec fn spec_mls_decode(bytes: Seq<u8>) -> Result<(Self::V, nat), Error>;

    /// Decodes a value from the front of `reader` and moves `reader` past it; on
    /// an error `reader` is left as it was.
    fn mls_decode(reader: &mut &[u8]) -> (r: Result<Self, Error>)
        ensures
            match Self::spec_mls_decode(old(reader)@) {
                Ok((v, n)) => {
                    &&& r matches Ok(x) && x@ == v
                    &&& n <= old(reader)@.len()
                    &&& final(reader)@ == old(reader)@.skip(n as int)
                },
                Err(e) => r == Err::<Self, Error>(e) && final(reader)@ == old(reader)@,
            },
    ;
}

/// The round trip laws of a codec.
pub trait MlsRoundTrip: MlsEncode + MlsDecode {
    /// Decoding the encoding of `v`, whatever follows it, gives `v` back and
    /// consumes exactly the encoding.
    proof fn lemma_encode_decode(v: Self, rest: Seq<u8>)
        ensures
            v.spec_mls_encoding() matches Some(e) ==> Self::spec_mls_decode(e + rest) == Ok::<
                (Self::V, nat),
                Error,
            >((v@, e.len())),
    ;

    /// Encoding what was decoded gives back exactly the bytes that were consumed.
    proof fn lemma_decode_encode(bytes: Seq<u8>, v: Self)
        ensures
            Self::spec_mls_decode(bytes) matches Ok((w, n)) ==> v@ == w ==> v.spec_mls_encoding()
                == Some(bytes.take(n as int)),
    ;
}

impl MlsSize for u8 {
    open spec fn spec_mls_encoding(&self) -> Option<Seq<u8>> {
        Some(be_bytes(*self as nat, 1))
    }

    fn mls_encoded_len(&self) -> (n: usize) {
        proof {
            lemma_be_bytes_len(*self as nat, 1);
        }
        1
    }
}

impl MlsEncode for u8 {
    fn mls_encode(&self, writer: &mut Vec<u8>) -> (r: Result<(), Error>) {
        write_be(*self as u64, 1, writer);
        Ok(())
    }
}

impl MlsDecode for u8 {
    open spec fn spec_mls_decode(bytes: Seq<u8>) -> Result<(u8, nat), Error> {
        match spec_decode_uint(bytes, 1) {
            Ok((v, k)) => Ok((v as u8, k)),
            Err(e) => Err(e),
        }
    }

    fn mls_decode(reader: &mut &[u8]) -> (r: Result<u8, Error>) {
        let bytes: &[u8] = *reader;
        if bytes.len() < 1 {
            return Err(Error::UnexpectedEOF);
        }
        let v: u64 = read_be(bytes, 1);
        proof {
            lemma_be_value_bound(bytes@.take(1));
            lemma_pow256_values();
        }
        *reader = &bytes[1..bytes.len()];
        Ok(v as u8)
    }
}

impl MlsRoundTrip for u8 {
    proof fn lemma_encode_decode(v: u8, rest: Seq<u8>) {
        lemma_pow256_values();
        lemma_uint_encode_decode(v as nat, 1, rest);
        lemma_be_bytes_len(v as nat, 1);
    }

    proof fn lemma_decode_encode(bytes: Seq<u8>, v: Self) {
        lemma_pow256_values();
        lemma_uint_decode_encode(bytes, 1);
    }
}

impl MlsSize for u16 {
    open spec fn spec_mls_encoding(&self) -> Option<Seq<u8>> {
        Some(be_bytes(*self as nat, 2))
    }

    fn mls_encoded_len(&self) -> (n: usize) {
        proof {
            lemma_be_bytes_len(*self as nat, 2);
        }
        2
    }
}

impl MlsEncode for u16 {
    fn mls_encode(&self, writer: &mut Vec<u8>) -> (r: Result<(), Error>) {
        write_be(*self as u64, 2, writer);
        Ok(())
    }
}

impl MlsDecode for u16 {
    open spec fn spec_mls_decode(bytes: Seq<u8>) -> Result<(u16, nat), Error> {
        match spec_decode_uint(bytes, 2) {
            Ok((v, k)) => Ok((v as u16, k)),
            Err(e) => Err(e),
        }
    }

    fn mls_decode(reader: &mut &[u8]) -> (r: Result<u16, Error>) {
        let bytes: &[u8] = *reader;
        if bytes.len() < 2 {
            return Err(Error::UnexpectedEOF);
        }
        let v: u64 = read_be(bytes, 2);
        proof {
            lemma_be_value_bound(bytes@.take(2));
            lemma_pow256_values();
        }
        *reader = &bytes[2..bytes.len()];
        Ok(v as u16)
    }
}

impl MlsRoundTrip for u16 {
    proof fn lemma_encode_decode(v: u16, rest: Seq<u8>) {
        lemma_pow256_values();
        lemma_uint_encode_decode(v as nat, 2, rest);
        lemma_be_bytes_len(v as nat, 2);
    }

    proof fn lemma_decode_encode(bytes: Seq<u8>, v: Self) {
        lemma_pow256_values();
        lemma_uint_decode_encode(bytes, 2);
    }
}

impl MlsSize for u32 {
    open spec fn spec_mls_encoding(&self) -> Option<Seq<u8>> {
        Some(be_bytes(*self as nat, 4))
    }

    fn mls_encoded_len(&self) -> (n: usize) {
        proof {
            lemma_be_bytes_len(*self as nat, 4);
        }
        4
    }
}

impl MlsEncode for u32 {
    fn mls_encode(&self, writer: &mut Vec<u8>) -> (r: Result<(), Error>) {
        write_be(*self as u64, 4, writer);
        Ok(())
    }
}

impl MlsDecode for u32 {
    open spec fn spec_mls_decode(bytes: Seq<u8>) -> Result<(u32, nat), Error> {
        match spec_decode_uint(bytes, 4) {
            Ok((v, k)) => Ok((v as u32, k)),
            Err(e) => Err(e),
        }
    }

    fn mls_decode(reader: &mut &[u8]) -> (r: Result<u32, Error>) {
        let bytes: &[u8] = *reader;
        if bytes.len() < 4 {
            return Err(Error::UnexpectedEOF);
        }
        let v: u64 = read_be(bytes, 4);
        proof {
            lemma_be_value_bound(bytes@.take(4));
            lemma_pow256_values();
        }
        *reader = &bytes[4..bytes.len()];
        Ok(v as u32)
    }
}

impl MlsRoundTrip for u32 {
    proof fn lemma_encode_decode(v: u32, rest: Seq<u8>) {
        lemma_pow256_values();
        lemma_uint_encode_decode(v as nat, 4, rest);
        lemma_be_bytes_len(v as nat, 4);
    }

    proof fn lemma_decode_encode(bytes: Seq<u8>, v: Self) {
        lemma_pow256_values();
        lemma_uint_decode_encode(bytes, 4);
    }
}

impl MlsSize for u64 {
    open spec fn spec_mls_encoding(&self) -> Option<Seq<u8>> {
        Some(be_bytes(*self as nat, 8))
    }

    fn mls_encoded_len(&self) -> (n: usize) {
        proof {
            lemma_be_bytes_len(*self as nat, 8);
        }
        8
    }
}

impl MlsEncode for u64 {
    fn mls_encode(&self, writer: &mut Vec<u8>) -> (r: Result<(), Error>) {
        write_be(*self as u64, 8, writer);
        Ok(())
    }
}

impl MlsDecode for u64 {
    open spec fn spec_mls_decode(bytes: Seq<u8>) -> Result<(u64, nat), Error> {
        match spec_decode_uint(bytes, 8) {
            Ok((v, k)) => Ok((v as u64, k)),
            Err(e) => Err(e),
        }
    }

    fn mls_decode(reader: &mut &[u8]) -> (r: Result<u64, Error>) {
        let bytes: &[u8] = *reader;
        if bytes.len() < 8 {
            return Err(Error::UnexpectedEOF);
        }
        let v: u64 = read_be(bytes, 8);
        proof {
            lemma_be_value_bound(bytes@.take(8));
            lemma_pow256_values();
        }
        *reader = &bytes[8..bytes.len()];
        Ok(v as u64)
    }
}

impl MlsRoundTrip for u64 {
    proof fn lemma_encode_decode(v: u64, rest: Seq<u8>) {
        lemma_pow256_values();
        lemma_uint_encode_decode(v as nat, 8, rest);
        lemma_be_bytes_len(v as nat, 8);
    }

    proof fn lemma_decode_encode(bytes: Seq<u8>, v: Self) {
        lemma_pow256_values();
        lemma_uint_decode_encode(bytes, 8);
    }
}

} // verus!
