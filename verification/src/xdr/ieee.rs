//! Floating-point numbers, carried as the bits of their IEEE 754 form.
//!
//! On the wire a number of single precision is its 32 bits and a number of
//! double precision its 64 bits, most significant byte first. What the bits
//! mean as a number is for the caller to say.

use crate::error::XdrError;
use crate::xdr::bigendian::{be_u32, be_u64, lemma_u32_round_trip, lemma_u64_round_trip};
use crate::xdr::source::ByteSource;
use crate::xdr::{XdrDeserialize, XdrRoundTrip, XdrSerialize};
use vstd::prelude::*;

verus! {

broadcast use crate::xdr::bigendian::group_be_len;

/// A number of single precision, as its bits.
#[derive(Clone, Copy, Debug, PartialEq, Eq, Structural)]
pub struct Float {
    pub bits: u32,
}

/// A number of double precision, as its bits.
#[derive(Clone, Copy, Debug, PartialEq, Eq, Structural)]
pub struct Double {
    pub bits: u64,
}

impl XdrSerialize for Float {
    open spec fn encode_error(&self) -> Option<XdrError> {
        None
    }

    open spec fn wire(&self) -> Seq<u8> {
        be_u32(self.bits)
    }

    fn len(&self) -> (n: usize) {
        4
    }

    fn serialize(&self, out: &mut Vec<u8>) -> (r: Result<(), XdrError>) {
        self.bits.serialize(out)
    }
}

impl XdrDeserialize for Float {
    type Model = Float;

    open spec fn model(&self) -> Float {
        *self
    }

    open spec fn parse(bytes: Seq<u8>) -> Result<(Float, nat), XdrError> {
        match u32::parse(bytes) {
            Ok((bits, k)) => Ok((Float { bits }, k)),
            Err(e) => Err(e),
        }
    }

    fn deserialize<R: ByteSource>(reader: &mut R) -> (r: Result<Self, XdrError>) {
        let bits = u32::deserialize(reader)?;
        Ok(Float { bits })
    }
}

impl XdrRoundTrip for Float {
    proof fn lemma_round_trip(&self, rest: Seq<u8>) {
        lemma_u32_round_trip(self.bits, rest);
    }
}

impl XdrSerialize for Double {
    open spec fn encode_error(&self) -> Option<XdrError> {
        None
    }

    open spec fn wire(&self) -> Seq<u8> {
        be_u64(self.bits)
    }

    fn len(&self) -> (n: usize) {
        8
    }

    fn serialize(&self, out: &mut Vec<u8>) -> (r: Result<(), XdrError>) {
        self.bits.serialize(out)
    }
}

impl XdrDeserialize for Double {
    type Model = Double;

    open spec fn model(&self) -> Double {
        *self
    }

    open spec fn parse(bytes: Seq<u8>) -> Result<(Double, nat), XdrError> {
        match u64::parse(bytes) {
            Ok((bits, k)) => Ok((Double { bits }, k)),
            Err(e) => Err(e),
        }
    }

    fn deserialize<R: ByteSource>(reader: &mut R) -> (r: Result<Self, XdrError>) {
        let bits = u64::deserialize(reader)?;
        Ok(Double { bits })
    }
}

impl XdrRoundTrip for Double {
    proof fn lemma_round_trip(&self, rest: Seq<u8>) {
        lemma_u64_round_trip(self.bits, rest);
    }
}

} // verus!
