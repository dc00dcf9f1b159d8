//! Opaque data: untyped byte blocks, padded with zeros to a multiple of four.

use crate::error::XdrError;
use crate::xdr::bigendian::{be_u32, lemma_u32_round_trip, u32_of_be, write_u32};
use crate::xdr::source::ByteSource;
use crate::xdr::{padding, padding_of, XdrDeserialize, XdrRoundTrip, XdrSerialize};
use vstd::prelude::*;

verus! {

broadcast use crate::xdr::bigendian::group_be_len;

/// `n` zero bytes.
pub open spec fn zeros(n: nat) -> Seq<u8> {
    Seq::new(n, |i: int| 0u8)
}

/// A block of bytes followed by its padding.
pub open spec fn padded(data: Seq<u8>) -> Seq<u8> {
    data + zeros(padding_of(data.len()))
}

/// Variable-length opaque data on the wire: the byte count, the bytes, the
/// padding.
pub open spec fn counted(data: Seq<u8>) -> Seq<u8> {
    be_u32(data.len() as u32) + padded(data)
}

/// The counted block that `bytes` start with and the number of bytes it
/// takes, or the reason why they start with none.
pub open spec fn parse_counted(bytes: Seq<u8>) -> Result<(Seq<u8>, nat), XdrError> {
    if bytes.len() < 4 {
        Err(XdrError::UnexpectedEof)
    } else {
        let n = u32_of_be(bytes) as nat;
        let total = 4 + n + padding_of(n);
        if bytes.len() < total {
            Err(XdrError::UnexpectedEof)
        } else {
            Ok((bytes.subrange(4, 4 + n as int), total))
        }
    }
}

/// The fixed block of `n` bytes that `bytes` start with and the number of
/// bytes it takes, or the reason why they start with none.
pub open spec fn parse_fixed(bytes: Seq<u8>, n: nat) -> Result<(Seq<u8>, nat), XdrError> {
    let total = n + padding_of(n);
    if bytes.len() < total {
        Err(XdrError::UnexpectedEof)
    } else {
        Ok((bytes.subrange(0, n as int), total))
    }
}

/// The encoded size of counted data: the count, the data and the padding.
/// The whole is a multiple of four.
pub proof fn lemma_counted_len(data: Seq<u8>)
    ensures
        counted(data).len() == 4 + data.len() + ((4 - data.len() % 4) % 4),
        counted(data).len() % 4 == 0,
        padded(data).len() % 4 == 0,
{
    let n = data.len() as int;
    let pad = padding_of(data.len()) as int;
    lemma_padding_fills(n);
    assert(zeros(pad as nat).len() == pad);
    assert(padded(data).len() == n + pad);
    assert(counted(data).len() == 4 + (n + pad));
}

/// The padding fills a length up to a multiple of four.
proof fn lemma_padding_fills(n: int)
    requires
        n >= 0,
    ensures
        (4 - n % 4) % 4 >= 0,
        (n + (4 - n % 4) % 4) % 4 == 0,
        (4 + (n + (4 - n % 4) % 4)) % 4 == 0,
{
    let r = n % 4;
    let q = n / 4;
    assert(n == 4 * q + r);
    if r == 0 {
        assert((4 - r) % 4 == 0);
    } else if r == 1 {
        assert((4 - r) % 4 == 3);
        assert(n + 3 == 4 * (q + 1));
    } else if r == 2 {
        assert((4 - r) % 4 == 2);
        assert(n + 2 == 4 * (q + 1));
    } else {
        assert((4 - r) % 4 == 1);
        assert(n + 1 == 4 * (q + 1));
    }
}

/// Opaque data of `L` bytes is encoded in `4 + L + ((4 - L % 4) % 4)` bytes.
pub proof fn lemma_opaque_len(data: Vec<u8>)
    ensures
        data.wire().len() == 4 + data@.len() + ((4 - data@.len() % 4) % 4),
{
    lemma_counted_len(data@);
}

/// A counted block that was written is read back as it was, whatever
/// follows it.
pub proof fn lemma_counted_round_trip(data: Seq<u8>, rest: Seq<u8>)
    requires
        data.len() <= u32::MAX,
    ensures
        parse_counted(counted(data) + rest) == Ok::<(Seq<u8>, nat), XdrError>(
            (data, counted(data).len()),
        ),
{
    let n = data.len();
    let all = counted(data) + rest;
    assert(all =~= be_u32(n as u32) + (padded(data) + rest));
    lemma_u32_round_trip(n as u32, padded(data) + rest);
    assert(all.subrange(4, 4 + n as int) =~= data);
}

/// A fixed block that was written is read back as it was, whatever follows
/// it.
pub proof fn lemma_fixed_round_trip(data: Seq<u8>, rest: Seq<u8>)
    ensures
        parse_fixed(padded(data) + rest, data.len()) == Ok::<(Seq<u8>, nat), XdrError>(
            (data, padded(data).len()),
        ),
{
    let all = padded(data) + rest;
    assert(all.subrange(0, data.len() as int) =~= data);
}

/// Appends `data` and the zero bytes that pad it to `out`.
pub fn write_padded(out: &mut Vec<u8>, data: &[u8])
    ensures
        final(out)@ == old(out)@ + padded(data@),
{
    out.extend_from_slice(data);
    let pad = padding(data.len());
    let mut i: usize = 0;
    while i < pad
        invariant
            i <= pad,
            pad == padding_of(data@.len()),
            out@ == old(out)@ + data@ + zeros(i as nat),
        decreases pad - i,
    {
        out.push(0);
        i += 1;
        assert(out@ =~= old(out)@ + data@ + zeros(i as nat));
    }
    assert(out@ =~= old(out)@ + padded(data@));
}

/// Appends the count of `data`, `data` itself and its padding to `out`.
///
/// Data longer than a 32-bit count can say is refused, and `out` is left as
/// it was.
pub fn write_counted(out: &mut Vec<u8>, data: &[u8]) -> (r: Result<(), XdrError>)
    ensures
        match r {
            Ok(_) => data@.len() <= u32::MAX && final(out)@ == old(out)@ + counted(data@),
            Err(e) => e == XdrError::TooLong && data@.len() > u32::MAX && final(out)@ == old(
                out,
            )@,
        },
{
    if data.len() > 0xffff_ffff {
        return Err(XdrError::TooLong);
    }
    write_u32(out, data.len() as u32);
    write_padded(out, data);
    assert(out@ =~= old(out)@ + counted(data@));
    Ok(())
}

/// Reads `n` bytes and skips the padding that follows them.
pub fn read_padded<R: ByteSource>(reader: &mut R, n: usize) -> (r: Result<Vec<u8>, XdrError>)
    ensures
        match r {
            Ok(data) => match parse_fixed(old(reader).remaining(), n as nat) {
                Ok((m, k)) => {
                    &&& data@ == m
                    &&& k <= old(reader).remaining().len()
                    &&& final(reader).remaining() == old(reader).remaining().skip(k as int)
                },
                Err(_) => false,
            },
            Err(e) => parse_fixed(old(reader).remaining(), n as nat) == Err::<
                (Seq<u8>, nat),
                XdrError,
            >(e),
        },
{
    let data = reader.read_exact(n)?;
    let pad = padding(n);
    let _ = reader.read_exact(pad)?;
    proof {
        let all = old(reader).remaining();
        assert(all.take(n as int) =~= all.subrange(0, n as int));
        assert(all.skip(n as int).skip(pad as int) =~= all.skip(n + pad));
    }
    Ok(data)
}

/// Reads a byte count, that many bytes, and skips their padding.
pub fn read_counted<R: ByteSource>(reader: &mut R) -> (r: Result<Vec<u8>, XdrError>)
    ensures
        match r {
            Ok(data) => match parse_counted(old(reader).remaining()) {
                Ok((m, k)) => {
                    &&& data@ == m
                    &&& k <= old(reader).remaining().len()
                    &&& final(reader).remaining() == old(reader).remaining().skip(k as int)
                },
                Err(_) => false,
            },
            Err(e) => parse_counted(old(reader).remaining()) == Err::<(Seq<u8>, nat), XdrError>(
                e,
            ),
        },
{
    let n = u32::deserialize(reader)?;
    let ghost all = old(reader).remaining();
    let ghost mid = reader.remaining();
    let data = read_padded(reader, n as usize)?;
    proof {
        assert(mid == all.skip(4));
        assert(mid.subrange(0, n as int) =~= all.subrange(4, 4 + n));
        let k = (n + padding_of(n as nat)) as int;
        assert(mid.skip(k) =~= all.skip(4 + k));
    }
    Ok(data)
}

impl XdrSerialize for Vec<u8> {
    open spec fn encode_error(&self) -> Option<XdrError> {
        if self@.len() > u32::MAX {
            Some(XdrError::TooLong)
        } else {
            None
        }
    }

    open spec fn wire(&self) -> Seq<u8> {
        counted(self@)
    }

    fn len(&self) -> (n: usize) {
        proof {
            lemma_counted_len(self@);
        }
        4usize.saturating_add(self.len()).saturating_add(padding(self.len()))
    }

    fn serialize(&self, out: &mut Vec<u8>) -> (r: Result<(), XdrError>) {
        write_counted(out, self.as_slice())
    }
}

impl XdrDeserialize for Vec<u8> {
    type Model = Seq<u8>;

    open spec fn model(&self) -> Seq<u8> {
        self@
    }

    open spec fn parse(bytes: Seq<u8>) -> Result<(Seq<u8>, nat), XdrError> {
        parse_counted(bytes)
    }

    fn deserialize<R: ByteSource>(reader: &mut R) -> (r: Result<Self, XdrError>) {
        read_counted(reader)
    }
}

impl XdrRoundTrip for Vec<u8> {
    proof fn lemma_round_trip(&self, rest: Seq<u8>) {
        lemma_counted_round_trip(self@, rest);
    }
}

impl<const LEN: usize> XdrSerialize for [u8; LEN] {
    open spec fn encode_error(&self) -> Option<XdrError> {
        None
    }

    open spec fn wire(&self) -> Seq<u8> {
        padded(self@)
    }

    fn len(&self) -> (n: usize) {
        proof {
            assert(zeros(padding_of(LEN as nat)).len() == padding_of(LEN as nat));
        }
        LEN.saturating_add(padding(LEN))
    }

    fn serialize(&self, out: &mut Vec<u8>) -> (r: Result<(), XdrError>) {
        write_padded(out, self.as_slice());
        Ok(())
    }
}

impl<const LEN: usize> XdrDeserialize for [u8; LEN] {
    type Model = Seq<u8>;

    open spec fn model(&self) -> Seq<u8> {
        self@
    }

    open spec fn parse(bytes: Seq<u8>) -> Result<(Seq<u8>, nat), XdrError> {
        parse_fixed(bytes, LEN as nat)
    }

    fn deserialize<R: ByteSource>(reader: &mut R) -> (r: Result<Self, XdrError>) {
        let data = read_padded(reader, LEN)?;
        let mut this = [0u8; LEN];
        let mut i: usize = 0;
        while i < LEN
            invariant
                i <= LEN,
                data@.len() == LEN,
                forall|j: int| 0 <= j < i ==> this@[j] == data@[j],
            decreases LEN - i,
        {
            this[i] = data[i];
            i += 1;
        }
        assert(this@ =~= data@);
        Ok(this)
    }
}

impl<const LEN: usize> XdrRoundTrip for [u8; LEN] {
    proof fn lemma_round_trip(&self, rest: Seq<u8>) {
        lemma_fixed_round_trip(self@, rest);
    }
}

} // verus!
