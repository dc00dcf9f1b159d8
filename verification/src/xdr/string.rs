//! Strings: ASCII text sent as counted, padded bytes.

use crate::error::XdrError;
use crate::xdr::opaque::{
    counted, lemma_counted_len, lemma_counted_round_trip, parse_counted, read_counted,
    write_counted,
};
use crate::xdr::source::ByteSource;
use crate::xdr::{padding, XdrDeserialize, XdrRoundTrip, XdrSerialize};
use vstd::prelude::*;
use vstd::string::StringSliceAdditionalSpecFns;
use vstd::utf8::{
    decode_utf8, encode_utf8, encode_utf8_decode_utf8, encode_utf8_valid_utf8, is_ascii_chars,
    is_ascii_chars_encode_utf8, valid_utf8,
};

verus! {

broadcast use crate::xdr::bigendian::group_be_len;

/// The text that `bytes` start with as a counted block, and the number of
/// bytes it takes, or the reason why they start with none.
pub open spec fn parse_text(bytes: Seq<u8>) -> Result<(Seq<char>, nat), XdrError> {
    match parse_counted(bytes) {
        Err(e) => Err(e),
        Ok((data, k)) => if valid_utf8(data) {
            Ok((decode_utf8(data), k))
        } else {
            Err(XdrError::InvalidUtf8)
        },
    }
}

/// Why `text` has no encoding, or `None` when it has one.
pub open spec fn text_encode_error(text: Seq<char>) -> Option<XdrError> {
    if !is_ascii_chars(text) {
        Some(XdrError::NotAscii)
    } else if encode_utf8(text).len() > u32::MAX {
        Some(XdrError::TooLong)
    } else {
        None
    }
}

/// The bytes that stand for `text` on the wire.
pub open spec fn text_wire(text: Seq<char>) -> Seq<u8> {
    counted(encode_utf8(text))
}

/// An ASCII string of `L` characters is encoded in
/// `4 + L + ((4 - L % 4) % 4)` bytes.
pub proof fn lemma_string_len(text: String)
    requires
        text.is_ascii(),
    ensures
        text.wire().len() == 4 + text@.len() + ((4 - text@.len() % 4) % 4),
{
    is_ascii_chars_encode_utf8(text@);
    lemma_counted_len(encode_utf8(text@));
}

/// Calls `String::from_utf8` of the standard library. The contract says what
/// its documentation says: the bytes become a string exactly when they are
/// valid UTF-8, and the string then holds the text that they spell.
#[verifier::external_body]
fn string_from_utf8(bytes: Vec<u8>) -> (r: Option<String>)
    ensures
        match r {
            Some(s) => valid_utf8(bytes@) && s@ == decode_utf8(bytes@),
            None => !valid_utf8(bytes@),
        },
{
    String::from_utf8(bytes).ok()
}

impl XdrSerialize for String {
    open spec fn encode_error(&self) -> Option<XdrError> {
        text_encode_error(self@)
    }

    open spec fn wire(&self) -> Seq<u8> {
        text_wire(self@)
    }

    fn len(&self) -> (n: usize) {
        let bytes = self.as_str().as_bytes();
        proof {
            lemma_counted_len(bytes@);
        }
        4usize.saturating_add(bytes.len()).saturating_add(padding(bytes.len()))
    }

    fn serialize(&self, out: &mut Vec<u8>) -> (r: Result<(), XdrError>) {
        if !self.as_str().is_ascii() {
            return Err(XdrError::NotAscii);
        }
        write_counted(out, self.as_str().as_bytes())
    }
}

impl XdrDeserialize for String {
    type Model = Seq<char>;

    open spec fn model(&self) -> Seq<char> {
        self@
    }

    open spec fn parse(bytes: Seq<u8>) -> Result<(Seq<char>, nat), XdrError> {
        parse_text(bytes)
    }

    fn deserialize<R: ByteSource>(reader: &mut R) -> (r: Result<Self, XdrError>) {
        let data = read_counted(reader)?;
        match string_from_utf8(data) {
            Some(text) => Ok(text),
            None => Err(XdrError::InvalidUtf8),
        }
    }
}

impl XdrRoundTrip for String {
    proof fn lemma_round_trip(&self, rest: Seq<u8>) {
        lemma_counted_round_trip(encode_utf8(self@), rest);
        encode_utf8_valid_utf8(self@);
        encode_utf8_decode_utf8(self@);
    }
}

} // verus!
