//! External Data Representation: the byte-exact encoding of values.

pub mod bigendian;
pub mod array;
pub mod ieee;
pub mod integers;
pub mod opaque;
pub mod source;
pub mod string;
pub mod union;

use crate::error::XdrError;
use crate::xdr::source::ByteSource;
use vstd::prelude::*;

verus! {

/// Number of zero bytes that follow `len` payload bytes so that the total is a
/// multiple of four.
pub open spec fn padding_of(len: nat) -> nat {
    ((4 - len % 4) % 4) as nat
}

/// Computes the padding that follows `len` bytes of opaque or string data.
pub fn padding(len: usize) -> (pad: usize)
    ensures
        pad == padding_of(len as nat),
        pad < 4,
        (len + pad) % 4 == 0,
{
    (4 - len % 4) % 4
}

/// `len`, or the largest `usize` where `len` is larger.
pub open spec fn saturated(len: nat) -> usize {
    if len <= usize::MAX {
        len as usize
    } else {
        usize::MAX
    }
}

/// A value that can be written in XDR.
///
/// To implement the trait is to say what the bytes of a value are, in
/// `wire`, and to write exactly those. The two functions that only contracts
/// read have bodies of their own, so that an implementation in unverified
/// code has only `len` and `serialize` to give.
pub trait XdrSerialize {
    /// Why this value has no encoding, or `None` when it has one.
    open spec fn encode_error(&self) -> Option<XdrError> {
        None
    }

    /// The bytes that stand for this value on the wire.
    open spec fn wire(&self) -> Seq<u8> {
        Seq::empty()
    }

    /// Number of bytes that the encoding of this value takes, or the largest
    /// number there is where it takes more.
    fn len(&self) -> (n: usize)
        ensures
            n == saturated(self.wire().len()),
    ;

    /// Appends the encoding of this value to `out`.
    ///
    /// A value without an encoding is refused with its error; `out` is then
    /// as it was.
    fn serialize(&self, out: &mut Vec<u8>) -> (r: Result<(), XdrError>)
        ensures
            match r {
                Ok(_) => self.encode_error() is None && final(out)@ == old(out)@ + self.wire(),
                Err(e) => self.encode_error() == Some(e) && final(out)@ == old(out)@,
            },
    ;
}

/// A value that can be read from XDR.
///
/// To implement the trait is to say which value bytes start with, in `parse`,
/// and to read exactly that. An implementation in unverified code gives
/// `deserialize` and any type for `Model`.
pub trait XdrDeserialize: Sized {
    /// What a value of this type stands for.
    type Model;

    /// The mathematical value of `self`.
    open spec fn model(&self) -> Self::Model {
        arbitrary()
    }

    /// The value that `bytes` start with and the number of bytes it takes, or
    /// the reason why they start with none.
    open spec fn parse(bytes: Seq<u8>) -> Result<(Self::Model, nat), XdrError> {
        Err(XdrError::UnexpectedEof)
    }

    /// Reads one value from the front of `reader`.
    ///
    /// On success the reader has moved past the value. On failure nothing is
    /// promised about where it stands.
    fn deserialize<R: ByteSource>(reader: &mut R) -> (r: Result<Self, XdrError>)
        ensures
            match r {
                Ok(v) => match Self::parse(old(reader).remaining()) {
                    Ok((m, k)) => {
                        &&& v.model() == m
                        &&& k <= old(reader).remaining().len()
                        &&& final(reader).remaining() == old(reader).remaining().skip(k as int)
                    },
                    Err(_) => false,
                },
                Err(e) => Self::parse(old(reader).remaining()) == Err::<(Self::Model, nat), XdrError>(e),
            },
    ;
}

/// A value shape whose decoder undoes its encoder.
pub trait XdrRoundTrip: XdrSerialize + XdrDeserialize {
    /// Decoding the encoding of `self`, whatever bytes follow it, gives the
    /// value of `self` back and takes exactly the encoding.
    proof fn lemma_round_trip(&self, rest: Seq<u8>)
        requires
            self.encode_error() is None,
        ensures
            Self::parse(self.wire() + rest) == Ok::<(Self::Model, nat), XdrError>(
                (self.model(), self.wire().len()),
            ),
    ;
}

} // verus!
