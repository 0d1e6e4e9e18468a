//! Variable-length integers and the byte vectors that they prefix.
//!
//! A variable-length integer takes 1, 2 or 4 bytes; the two top bits of the
//! first byte give the length (`00`, `01`, `10`), the remaining bits give the
//! value in big-endian order, and the shortest form must be used. A byte vector
//! is its length as a variable-length integer followed by its bytes.

use vstd::prelude::*;

use crate::codec::{
    be_bytes, be_value, lemma_be_bytes_len, lemma_be_bytes_value, lemma_be_value_bound,
    lemma_be_value_bytes, lemma_pow256_values, pow256, Error, MlsDecode, MlsEncode, MlsRoundTrip,
    MlsSize,
};

verus! {

/// The largest value a variable-length integer can hold, `2^30 - 1`.
pub const VARINT_MAX: u32 = 0x3fff_ffff;

/// The bytes of the shortest variable-length encoding of `v`, or `None` when `v`
/// is above `2^30 - 1`.
pub open spec fn spec_varint_encoding(v: nat) -> Option<Seq<u8>> {
    if v < 0x40 {
        Some(be_bytes(v, 1))
    } else if v < 0x4000 {
        Some(be_bytes(v + 0x4000, 2))
    } else if v < 0x4000_0000 {
        Some(be_bytes(v + 0x8000_0000, 4))
    } else {
        None
    }
}

/// The number of bytes of a variable-length integer whose two top bits are `prefix`.
pub open spec fn spec_varint_width(prefix: nat) -> nat {
    if prefix == 0 {
        1
    } else if prefix == 1 {
        2
    } else {
        4
    }
}

/// The smallest value that must be written in `width` bytes.
pub open spec fn spec_varint_min(width: nat) -> nat {
    if width == 1 {
        0
    } else if width == 2 {
        0x40
    } else {
        0x4000
    }
}

/// What decoding a variable-length integer from the front of `bytes` gives: the
/// value and the number of bytes it takes, or the error.
pub open spec fn spec_varint_decode(bytes: Seq<u8>) -> Result<(nat, nat), Error> {
    if bytes.len() == 0 {
        Err(Error::UnexpectedEOF)
    } else if bytes[0] / 64 == 3 {
        Err(Error::InvalidVarIntPrefix(3))
    } else {
        let width = spec_varint_width((bytes[0] / 64) as nat);
        if bytes.len() < width {
            Err(Error::UnexpectedEOF)
        } else {
            let v = be_value(seq![(bytes[0] % 64) as u8] + bytes.subrange(1, width as int));
            if v < spec_varint_min(width) {
                Err(Error::VarIntMinimumLengthEncoding)
            } else {
                Ok((v, width))
            }
        }
    }
}

/// The bytes of a byte vector: its length as a variable-length integer, then its
/// contents; `None` when the length is above `2^30 - 1`.
pub open spec fn spec_byte_vec_encoding(b: Seq<u8>) -> Option<Seq<u8>> {
    match spec_varint_encoding(b.len()) {
        Some(prefix) => Some(prefix + b),
        None => None,
    }
}

/// What decoding a byte vector from the front of `bytes` gives: the contents and
/// the number of bytes taken, or the error.
pub open spec fn spec_byte_vec_decode(bytes: Seq<u8>) -> Result<(Seq<u8>, nat), Error> {
    match spec_varint_decode(bytes) {
        Err(e) => Err(e),
        Ok((len, k)) => if bytes.len() < k + len {
            Err(Error::UnexpectedEOF)
        } else {
            Ok((bytes.subrange(k as int, (k + len) as int), k + len))
        },
    }
}

/// The number of bytes of the shortest variable-length encoding of `v`.
pub open spec fn spec_varint_len(v: nat) -> nat {
    if v < 0x40 {
        1
    } else if v < 0x4000 {
        2
    } else {
        4
    }
}

/// A byte vector takes its length prefix and its contents.
pub proof fn lemma_byte_vec_encoding_len(b: Seq<u8>)
    ensures
        spec_byte_vec_encoding(b) matches Some(e) ==> e.len() == spec_varint_len(b.len()) + b.len(),
{
    crate::codec::lemma_be_bytes_len(b.len(), 1);
    crate::codec::lemma_be_bytes_len(b.len() + 0x4000, 2);
    crate::codec::lemma_be_bytes_len(b.len() + 0x8000_0000, 4);
}

proof fn lemma_be_value_small(s: Seq<u8>)
    ensures
        s.len() == 1 ==> be_value(s) == s[0],
        s.len() == 2 ==> be_value(s) == s[0] * 256 + s[1],
        s.len() == 4 ==> be_value(s) == ((s[0] * 256 + s[1]) * 256 + s[2]) * 256 + s[3],
{
    reveal_with_fuel(be_value, 5);
    if s.len() == 1 {
        assert(s.drop_last().len() == 0);
    } else if s.len() == 2 {
        assert(s.drop_last().drop_last().len() == 0);
        assert(s.drop_last().last() == s[0]);
    } else if s.len() == 4 {
        let s3 = s.drop_last();
        let s2 = s3.drop_last();
        let s1 = s2.drop_last();
        assert(s1.drop_last().len() == 0);
        assert(s1.last() == s[0]);
        assert(s2.last() == s[1]);
        assert(s3.last() == s[2]);
    }
}

/// Encoding a value and decoding it, whatever follows, gives the value back and
/// consumes exactly the encoding.
pub proof fn lemma_varint_encode_decode(v: nat, rest: Seq<u8>)
    ensures
        spec_varint_encoding(v) matches Some(e) ==> spec_varint_decode(e + rest) == Ok::<
            (nat, nat),
            Error,
        >((v, e.len())),
{
    lemma_pow256_values();
    if let Some(e) = spec_varint_encoding(v) {
        let x: nat = if v < 0x40 {
            v
        } else if v < 0x4000 {
            v + 0x4000
        } else {
            v + 0x8000_0000
        };
        let n: nat = if v < 0x40 {
            1
        } else if v < 0x4000 {
            2
        } else {
            4
        };
        assert(e == be_bytes(x, n));
        lemma_be_bytes_len(x, n);
        lemma_be_bytes_value(x, n);
        lemma_be_value_small(e);
        let all = e + rest;
        assert(all.subrange(1, n as int) =~= e.subrange(1, n as int));
        let t = seq![(e[0] % 64) as u8] + e.subrange(1, n as int);
        lemma_be_value_small(t);
        assert(all[0] == e[0]);
    }
}

/// Decoding a value and encoding it gives back exactly the bytes consumed.
pub proof fn lemma_varint_decode_encode(bytes: Seq<u8>)
    ensures
        spec_varint_decode(bytes) matches Ok((v, k)) ==> spec_varint_encoding(v) == Some(
            bytes.take(k as int),
        ),
{
    lemma_pow256_values();
    if let Ok((v, k)) = spec_varint_decode(bytes) {
        let s = bytes.take(k as int);
        let t = seq![(bytes[0] % 64) as u8] + bytes.subrange(1, k as int);
        lemma_be_value_small(s);
        lemma_be_value_small(t);
        lemma_be_value_bytes(s);
        lemma_be_value_bound(s);
    }
}

/// Encoding a byte vector and decoding it, whatever follows, gives the contents
/// back and consumes exactly the encoding.
pub proof fn lemma_byte_vec_encode_decode(b: Seq<u8>, rest: Seq<u8>)
    ensures
        spec_byte_vec_encoding(b) matches Some(e) ==> spec_byte_vec_decode(e + rest) == Ok::<
            (Seq<u8>, nat),
            Error,
        >((b, e.len())),
{
    if let Some(e) = spec_byte_vec_encoding(b) {
        let p = spec_varint_encoding(b.len()).unwrap();
        lemma_varint_encode_decode(b.len(), b + rest);
        assert(e + rest =~= p + (b + rest));
        assert((e + rest).subrange(p.len() as int, (p.len() + b.len()) as int) =~= b);
    }
}

/// Decoding a byte vector and encoding its contents gives back exactly the bytes
/// consumed.
pub proof fn lemma_byte_vec_decode_encode(bytes: Seq<u8>)
    ensures
        spec_byte_vec_decode(bytes) matches Ok((b, n)) ==> spec_byte_vec_encoding(b) == Some(
            bytes.take(n as int),
        ),
{
    if let Ok((b, n)) = spec_byte_vec_decode(bytes) {
        lemma_varint_decode_encode(bytes);
        let (len, k) = spec_varint_decode(bytes).unwrap();
        assert(b.len() == len);
        assert(bytes.take(k as int) + b =~= bytes.take(n as int));
    }
}

/// Appends the shortest variable-length encoding of `v` to `out`.
pub fn write_varint(v: u32, out: &mut Vec<u8>) -> (r: Result<(), Error>)
    ensures
        match spec_varint_encoding(v as nat) {
            Some(e) => r == Ok::<(), Error>(()) && final(out)@ == old(out)@ + e,
            None => r == Err::<(), Error>(Error::VarIntOutOfRange) && final(out)@ == old(out)@,
        },
{
    if v < 0x40 {
        crate::codec::write_be(v as u64, 1, out);
        Ok(())
    } else if v < 0x4000 {
        crate::codec::write_be((v + 0x4000) as u64, 2, out);
        Ok(())
    } else if v <= VARINT_MAX {
        crate::codec::write_be(v as u64 + 0x8000_0000, 4, out);
        Ok(())
    } else {
        Err(Error::VarIntOutOfRange)
    }
}

/// Decodes a variable-length integer from the front of `bytes`; gives the value
/// and the number of bytes it takes.
pub fn read_varint(bytes: &[u8]) -> (r: Result<(u32, usize), Error>)
    ensures
        match spec_varint_decode(bytes@) {
            Ok((v, k)) => r == Ok::<(u32, usize), Error>((v as u32, k as usize)) && v
                <= VARINT_MAX && k <= bytes@.len(),
            Err(e) => r == Err::<(u32, usize), Error>(e),
        },
{
    if bytes.len() == 0 {
        return Err(Error::UnexpectedEOF);
    }
    let first: u8 = bytes[0];
    let prefix: u8 = first / 64;
    if prefix == 3 {
        return Err(Error::InvalidVarIntPrefix(prefix));
    }
    let width: usize = if prefix == 0 {
        1
    } else if prefix == 1 {
        2
    } else {
        4
    };
    if bytes.len() < width {
        return Err(Error::UnexpectedEOF);
    }
    let low: u32 = (first % 64) as u32;
    let ghost t = seq![(first % 64) as u8] + bytes@.subrange(1, width as int);
    proof {
        lemma_be_value_small(t);
    }
    let n: u32 = if width == 1 {
        low
    } else if width == 2 {
        low * 256 + bytes[1] as u32
    } else {
        ((low * 256 + bytes[1] as u32) * 256 + bytes[2] as u32) * 256 + bytes[3] as u32
    };
    if (width == 2 && n < 0x40) || (width == 4 && n < 0x4000) {
        return Err(Error::VarIntMinimumLengthEncoding);
    }
    Ok((n, width))
}

/// Appends a byte vector to `out`: the length of `b` as a variable-length
/// integer, then `b`.
pub fn write_byte_vec(b: &[u8], out: &mut Vec<u8>) -> (r: Result<(), Error>)
    ensures
        match spec_byte_vec_encoding(b@) {
            Some(e) => r == Ok::<(), Error>(()) && final(out)@ == old(out)@ + e,
            None => r == Err::<(), Error>(Error::VarIntOutOfRange) && final(out)@ == old(out)@,
        },
{
    if b.len() > VARINT_MAX as usize {
        return Err(Error::VarIntOutOfRange);
    }
    let r = write_varint(b.len() as u32, out);
    let ghost mid = out@;
    let mut i: usize = 0;
    while i < b.len()
        invariant
            i <= b@.len(),
            out@ == mid + b@.take(i as int),
        decreases b@.len() - i,
    {
        out.push(b[i]);
        i = i + 1;
        assert(out@ =~= mid + b@.take(i as int));
    }
    assert(b@.take(b@.len() as int) =~= b@);
    r
}

/// Decodes a byte vector from the front of `bytes`; gives its contents and the
/// number of bytes taken.
pub fn read_byte_vec(bytes: &[u8]) -> (r: Result<(Vec<u8>, usize), Error>)
    ensures
        match spec_byte_vec_decode(bytes@) {
            Ok((b, n)) => r matches Ok((v, k)) && v@ == b && k == n && n <= bytes@.len(),
            Err(e) => r == Err::<(Vec<u8>, usize), Error>(e),
        },
{
    let (len, k) = match read_varint(bytes) {
        Ok(p) => p,
        Err(e) => return Err(e),
    };
    if bytes.len() - k < len as usize {
        return Err(Error::UnexpectedEOF);
    }
    let end: usize = k + len as usize;
    let mut v: Vec<u8> = Vec::new();
    let mut i: usize = k;
    while i < end
        invariant
            k <= i <= end,
            end <= bytes@.len(),
            v@ == bytes@.subrange(k as int, i as int),
        decreases end - i,
    {
        v.push(bytes[i]);
        i = i + 1;
        assert(v@ =~= bytes@.subrange(k as int, i as int));
    }
    Ok((v, end))
}

/// A variable-length integer.
#[derive(Debug, Clone, Copy, PartialEq, Eq, Structural)]
pub struct VarInt(pub u32);

impl MlsSize for VarInt {
    open spec fn spec_mls_encoding(&self) -> Option<Seq<u8>> {
        spec_varint_encoding(self.0 as nat)
    }

    fn mls_encoded_len(&self) -> (n: usize) {
        proof {
            lemma_be_bytes_len(self.0 as nat, 1);
            lemma_be_bytes_len(self.0 as nat + 0x4000, 2);
            lemma_be_bytes_len(self.0 as nat + 0x8000_0000, 4);
        }
        if self.0 < 0x40 {
            1
        } else if self.0 < 0x4000 {
            2
        } else {
            4
        }
    }
}

impl MlsEncode for VarInt {
    fn mls_encode(&self, writer: &mut Vec<u8>) -> (r: Result<(), Error>) {
        write_varint(self.0, writer)
    }
}

impl View for VarInt {
    type V = VarInt;

    open spec fn view(&self) -> VarInt {
        *self
    }
}

impl MlsDecode for VarInt {
    open spec fn spec_mls_decode(bytes: Seq<u8>) -> Result<(VarInt, nat), Error> {
        match spec_varint_decode(bytes) {
            Ok((v, k)) => Ok((VarInt(v as u32), k)),
            Err(e) => Err(e),
        }
    }

    fn mls_decode(reader: &mut &[u8]) -> (r: Result<VarInt, Error>) {
        let bytes: &[u8] = *reader;
        match read_varint(bytes) {
            Ok((v, k)) => {
                *reader = &bytes[k..bytes.len()];
                Ok(VarInt(v))
            },
            Err(e) => Err(e),
        }
    }
}

impl MlsRoundTrip for VarInt {
    proof fn lemma_encode_decode(v: VarInt, rest: Seq<u8>) {
        lemma_varint_encode_decode(v.0 as nat, rest);
    }

    proof fn lemma_decode_encode(bytes: Seq<u8>, x: VarInt) {
        lemma_varint_decode_encode(bytes);
        if let Ok((v, k)) = spec_varint_decode(bytes) {
            lemma_pow256_values();
            let s = bytes.take(k as int);
            lemma_be_value_small(seq![(bytes[0] % 64) as u8] + bytes.subrange(1, k as int));
        }
    }
}

} // verus!
