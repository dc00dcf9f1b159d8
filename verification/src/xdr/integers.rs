//! The fixed-width scalars: 32- and 64-bit integers and booleans.

use crate::error::XdrError;
use crate::xdr::bigendian::{
    be_u32, be_u64, bits_of_i32, bits_of_i64, i32_from_bits, i32_of_bits, i32_to_bits,
    i64_from_bits, i64_of_bits, i64_to_bits, lemma_u32_prefix, lemma_u32_round_trip, lemma_u64_prefix,
    lemma_u64_round_trip, read_u32,
    read_u64, u32_of_be, u64_of_be, write_u32, write_u64,
};
use crate::xdr::source::ByteSource;
use crate::xdr::{XdrDeserialize, XdrRoundTrip, XdrSerialize};
use vstd::prelude::*;

verus! {

broadcast use crate::xdr::bigendian::group_be_len;

impl XdrSerialize for u32 {
    open spec fn encode_error(&self) -> Option<XdrError> {
        None
    }

    open spec fn wire(&self) -> Seq<u8> {
        be_u32(*self)
    }

    fn len(&self) -> (n: usize) {
        4
    }

    fn serialize(&self, out: &mut Vec<u8>) -> (r: Result<(), XdrError>) {
        write_u32(out, *self);
        Ok(())
    }
}

impl XdrDeserialize for u32 {
    type Model = u32;

    open spec fn model(&self) -> u32 {
        *self
    }

    open spec fn parse(bytes: Seq<u8>) -> Result<(u32, nat), XdrError> {
        if bytes.len() < 4 {
            Err(XdrError::UnexpectedEof)
        } else {
            Ok((u32_of_be(bytes), 4))
        }
    }

    fn deserialize<R: ByteSource>(reader: &mut R) -> (r: Result<Self, XdrError>) {
        let bytes = reader.read_exact(4)?;
        proof {
            let all = old(reader).remaining();
            assert(all.take(4).take(4) =~= all.take(4));
            lemma_u32_prefix(bytes@, all);
        }
        Ok(read_u32(bytes.as_slice()))
    }
}

impl XdrRoundTrip for u32 {
    proof fn lemma_round_trip(&self, rest: Seq<u8>) {
        lemma_u32_round_trip(*self, rest);
    }
}

impl XdrSerialize for i32 {
    open spec fn encode_error(&self) -> Option<XdrError> {
        None
    }

    open spec fn wire(&self) -> Seq<u8> {
        be_u32(bits_of_i32(*self))
    }

    fn len(&self) -> (n: usize) {
        4
    }

    fn serialize(&self, out: &mut Vec<u8>) -> (r: Result<(), XdrError>) {
        write_u32(out, i32_to_bits(*self));
        Ok(())
    }
}

impl XdrDeserialize for i32 {
    type Model = i32;

    open spec fn model(&self) -> i32 {
        *self
    }

    open spec fn parse(bytes: Seq<u8>) -> Result<(i32, nat), XdrError> {
        if bytes.len() < 4 {
            Err(XdrError::UnexpectedEof)
        } else {
            Ok((i32_of_bits(u32_of_be(bytes)), 4))
        }
    }

    fn deserialize<R: ByteSource>(reader: &mut R) -> (r: Result<Self, XdrError>) {
        let bytes = reader.read_exact(4)?;
        proof {
            let all = old(reader).remaining();
            assert(all.take(4).take(4) =~= all.take(4));
            lemma_u32_prefix(bytes@, all);
        }
        Ok(i32_from_bits(read_u32(bytes.as_slice())))
    }
}

impl XdrRoundTrip for i32 {
    proof fn lemma_round_trip(&self, rest: Seq<u8>) {
        lemma_u32_round_trip(bits_of_i32(*self), rest);
    }
}

impl XdrSerialize for u64 {
    open spec fn encode_error(&self) -> Option<XdrError> {
        None
    }

    open spec fn wire(&self) -> Seq<u8> {
        be_u64(*self)
    }

    fn len(&self) -> (n: usize) {
        8
    }

    fn serialize(&self, out: &mut Vec<u8>) -> (r: Result<(), XdrError>) {
        write_u64(out, *self);
        Ok(())
    }
}

impl XdrDeserialize for u64 {
    type Model = u64;

    open spec fn model(&self) -> u64 {
        *self
    }

    open spec fn parse(bytes: Seq<u8>) -> Result<(u64, nat), XdrError> {
        if bytes.len() < 8 {
            Err(XdrError::UnexpectedEof)
        } else {
            Ok((u64_of_be(bytes), 8))
        }
    }

    fn deserialize<R: ByteSource>(reader: &mut R) -> (r: Result<Self, XdrError>) {
        let bytes = reader.read_exact(8)?;
        proof {
            let all = old(reader).remaining();
            assert(all.take(8).take(8) =~= all.take(8));
            lemma_u64_prefix(bytes@, all);
        }
        Ok(read_u64(bytes.as_slice()))
    }
}

impl XdrRoundTrip for u64 {
    proof fn lemma_round_trip(&self, rest: Seq<u8>) {
        lemma_u64_round_trip(*self, rest);
    }
}

impl XdrSerialize for i64 {
    open spec fn encode_error(&self) -> Option<XdrError> {
        None
    }

    open spec fn wire(&self) -> Seq<u8> {
        be_u64(bits_of_i64(*self))
    }

    fn len(&self) -> (n: usize) {
        8
    }

    fn serialize(&self, out: &mut Vec<u8>) -> (r: Result<(), XdrError>) {
        write_u64(out, i64_to_bits(*self));
        Ok(())
    }
}

impl XdrDeserialize for i64 {
    type Model = i64;

    open spec fn model(&self) -> i64 {
        *self
    }

    open spec fn parse(bytes: Seq<u8>) -> Result<(i64, nat), XdrError> {
        if bytes.len() < 8 {
            Err(XdrError::UnexpectedEof)
        } else {
            Ok((i64_of_bits(u64_of_be(bytes)), 8))
        }
    }

    fn deserialize<R: ByteSource>(reader: &mut R) -> (r: Result<Self, XdrError>) {
        let bytes = reader.read_exact(8)?;
        proof {
            let all = old(reader).remaining();
            assert(all.take(8).take(8) =~= all.take(8));
            lemma_u64_prefix(bytes@, all);
        }
        Ok(i64_from_bits(read_u64(bytes.as_slice())))
    }
}

impl XdrRoundTrip for i64 {
    proof fn lemma_round_trip(&self, rest: Seq<u8>) {
        lemma_u64_round_trip(bits_of_i64(*self), rest);
    }
}

impl XdrSerialize for bool {
    open spec fn encode_error(&self) -> Option<XdrError> {
        None
    }

    open spec fn wire(&self) -> Seq<u8> {
        be_u32(if *self { 1u32 } else { 0u32 })
    }

    fn len(&self) -> (n: usize) {
        4
    }

    fn serialize(&self, out: &mut Vec<u8>) -> (r: Result<(), XdrError>) {
        write_u32(out, if *self { 1 } else { 0 });
        Ok(())
    }
}

impl XdrDeserialize for bool {
    type Model = bool;

    open spec fn model(&self) -> bool {
        *self
    }

    open spec fn parse(bytes: Seq<u8>) -> Result<(bool, nat), XdrError> {
        if bytes.len() < 4 {
            Err(XdrError::UnexpectedEof)
        } else if u32_of_be(bytes) == 0 {
            Ok((false, 4))
        } else if u32_of_be(bytes) == 1 {
            Ok((true, 4))
        } else {
            Err(XdrError::InvalidBool)
        }
    }

    fn deserialize<R: ByteSource>(reader: &mut R) -> (r: Result<Self, XdrError>) {
        let bytes = reader.read_exact(4)?;
        proof {
            let all = old(reader).remaining();
            assert(all.take(4).take(4) =~= all.take(4));
            lemma_u32_prefix(bytes@, all);
        }
        let word = read_u32(bytes.as_slice());
        if word == 0 {
            Ok(false)
        } else if word == 1 {
            Ok(true)
        } else {
            Err(XdrError::InvalidBool)
        }
    }
}

impl XdrRoundTrip for bool {
    proof fn lemma_round_trip(&self, rest: Seq<u8>) {
        lemma_u32_round_trip(if *self { 1u32 } else { 0u32 }, rest);
    }
}

} // verus!
