//! Record marking: how one message is framed on a byte stream.
//!
//! A message travels as one or more fragments. Each fragment is preceded by a
//! four-byte header whose highest bit says whether the fragment is the last
//! of its message and whose other bits give the fragment's length.

use crate::error::XdrError;
use crate::xdr::bigendian::{be_u32, lemma_u32_round_trip, u32_of_be, write_u32};
use crate::xdr::source::ByteSource;
use crate::xdr::{XdrDeserialize, XdrRoundTrip, XdrSerialize};
use vstd::prelude::*;

verus! {

broadcast use crate::xdr::bigendian::group_be_len;

/// The bit of a fragment header that marks the last fragment of a message.
pub const LAST_FLAG: u32 = 0x8000_0000;

/// The largest payload that one fragment can carry.
pub const MAX_FRAGMENT_LEN: u32 = 0x7fff_ffff;

/// The header word for a fragment of `len` bytes.
pub open spec fn header_word(last: bool, len: nat) -> u32
    recommends
        len <= MAX_FRAGMENT_LEN,
{
    if last {
        (len + 0x8000_0000) as u32
    } else {
        len as u32
    }
}

/// The payload length that a header word announces.
pub open spec fn word_len(word: u32) -> u32 {
    (word % 0x8000_0000) as u32
}

/// Whether a header word marks the last fragment of its message.
pub open spec fn word_is_last(word: u32) -> bool {
    word >= 0x8000_0000
}

/// The header of one fragment.
#[derive(Clone, Copy, Debug, PartialEq, Eq, Structural)]
pub struct FragmentHeader {
    pub number: u32,
}

impl FragmentHeader {
    /// The payload length that this header announces.
    pub open spec fn spec_len(&self) -> u32 {
        word_len(self.number)
    }

    /// Whether this header marks the last fragment of its message.
    pub open spec fn spec_is_last(&self) -> bool {
        word_is_last(self.number)
    }

    /// Packs a fragment's length and its last-fragment flag into a header.
    pub fn new(last: bool, len: u32) -> (header: Self)
        requires
            len <= MAX_FRAGMENT_LEN,
        ensures
            header.number == header_word(last, len as nat),
            header.spec_len() == len,
            header.spec_is_last() == last,
    {
        let mut number = len;
        if last {
            assert(len | 0x8000_0000u32 == len + 0x8000_0000) by (bit_vector)
                requires
                    len <= 0x7fff_ffffu32,
            ;
            number |= LAST_FLAG;
        }
        FragmentHeader { number }
    }

    /// The payload length that this header announces.
    pub fn len(&self) -> (len: u32)
        ensures
            len == self.spec_len(),
            len <= MAX_FRAGMENT_LEN,
    {
        let number = self.number;
        assert(number & !0x8000_0000u32 == number % 0x8000_0000u32) by (bit_vector);
        number & !LAST_FLAG
    }

    /// Whether this header marks the last fragment of its message.
    pub fn is_last(&self) -> (last: bool)
        ensures
            last == self.spec_is_last(),
    {
        let number = self.number;
        assert((number & 0x8000_0000u32 != 0) == (number >= 0x8000_0000u32)) by (bit_vector);
        number & LAST_FLAG != 0
    }
}

/// Unpacking a header that was packed from a length and a flag gives the
/// length and the flag back.
pub proof fn lemma_header_round_trip(last: bool, len: u32)
    requires
        len <= MAX_FRAGMENT_LEN,
    ensures
        word_len(header_word(last, len as nat)) == len,
        word_is_last(header_word(last, len as nat)) == last,
{
}

impl XdrSerialize for FragmentHeader {
    open spec fn encode_error(&self) -> Option<XdrError> {
        None
    }

    open spec fn wire(&self) -> Seq<u8> {
        be_u32(self.number)
    }

    fn len(&self) -> (n: usize) {
        4
    }

    fn serialize(&self, out: &mut Vec<u8>) -> (r: Result<(), XdrError>) {
        write_u32(out, self.number);
        Ok(())
    }
}

impl XdrDeserialize for FragmentHeader {
    type Model = FragmentHeader;

    open spec fn model(&self) -> FragmentHeader {
        *self
    }

    open spec fn parse(bytes: Seq<u8>) -> Result<(FragmentHeader, nat), XdrError> {
        if bytes.len() < 4 {
            Err(XdrError::UnexpectedEof)
        } else {
            Ok((FragmentHeader { number: u32_of_be(bytes) }, 4))
        }
    }

    fn deserialize<R: ByteSource>(reader: &mut R) -> (r: Result<Self, XdrError>) {
        let number = u32::deserialize(reader)?;
        Ok(FragmentHeader { number })
    }
}

impl XdrRoundTrip for FragmentHeader {
    proof fn lemma_round_trip(&self, rest: Seq<u8>) {
        lemma_u32_round_trip(self.number, rest);
    }
}

/// One fragment on the wire: its header, then its payload.
pub open spec fn fragment_wire(payload: Seq<u8>, last: bool) -> Seq<u8> {
    be_u32(header_word(last, payload.len())) + payload
}

/// A message on the wire, cut into the fragments `chunks`; the last of them
/// carries the last-fragment flag.
pub open spec fn frame(chunks: Seq<Seq<u8>>) -> Seq<u8>
    decreases chunks.len(),
{
    if chunks.len() == 0 {
        Seq::empty()
    } else {
        fragment_wire(chunks.first(), chunks.len() == 1) + frame(chunks.drop_first())
    }
}

/// The payloads `chunks` joined in order.
pub open spec fn join(chunks: Seq<Seq<u8>>) -> Seq<u8>
    decreases chunks.len(),
{
    if chunks.len() == 0 {
        Seq::empty()
    } else {
        chunks.first() + join(chunks.drop_first())
    }
}

/// The payload bytes that a reassembling reader delivers from the stream
/// `raw` when `nleft` bytes of the current fragment are still to come.
///
/// The reader hands out the rest of the current fragment, then takes the next
/// four bytes as a header and goes on with the fragment that it announces. A
/// stream that ends inside a fragment delivers what it has of it; one that
/// ends inside a header delivers nothing more.
pub open spec fn defragment(raw: Seq<u8>, nleft: nat) -> Seq<u8>
    decreases raw.len(),
{
    if nleft >= raw.len() {
        raw
    } else if raw.len() - nleft < 4 {
        raw.take(nleft as int)
    } else {
        raw.take(nleft as int) + defragment(
            raw.skip(nleft + 4 as int),
            word_len(u32_of_be(raw.skip(nleft as int))) as nat,
        )
    }
}

/// Where the reassembling reader reads next: the stream and the number of
/// bytes to come in the current fragment, once the headers of the fragments
/// that are used up or empty have been read. The number is zero only where
/// the stream ends before another header is complete.
pub open spec fn next_fragment(stream: Seq<u8>, left: nat) -> (Seq<u8>, nat)
    decreases stream.len(),
{
    if left > 0 || stream.len() < 4 {
        (stream, left)
    } else {
        next_fragment(stream.skip(4), word_len(u32_of_be(stream)) as nat)
    }
}

/// The smallest of three numbers.
pub open spec fn smallest(a: nat, b: nat, c: nat) -> nat {
    if a <= b && a <= c {
        a
    } else if b <= c {
        b
    } else {
        c
    }
}

/// Taking `n` bytes out of the current fragment leaves the rest of the
/// payload to be delivered.
pub proof fn lemma_defragment_split(raw: Seq<u8>, nleft: nat, n: nat)
    requires
        n <= nleft,
        n <= raw.len(),
    ensures
        defragment(raw, nleft) == raw.take(n as int) + defragment(
            raw.skip(n as int),
            (nleft - n) as nat,
        ),
{
    let rest = raw.skip(n as int);
    let left = (nleft - n) as nat;
    if nleft >= raw.len() {
        assert(raw =~= raw.take(n as int) + rest);
    } else if raw.len() - nleft < 4 {
        assert(raw.take(nleft as int) =~= raw.take(n as int) + rest.take(left as int));
    } else {
        assert(raw.take(nleft as int) =~= raw.take(n as int) + rest.take(left as int));
        assert(rest.skip(left + 4 as int) =~= raw.skip(nleft + 4 as int));
        assert(rest.skip(left as int) =~= raw.skip(nleft as int));
        assert(defragment(raw, nleft) =~= raw.take(n as int) + defragment(rest, left));
    }
}

/// A message cut into fragments of any sizes and framed is delivered by the
/// reassembling reader as the message itself.
pub proof fn lemma_reassembly(chunks: Seq<Seq<u8>>)
    requires
        forall|i: int| 0 <= i < chunks.len() ==> #[trigger] chunks[i].len() <= MAX_FRAGMENT_LEN,
    ensures
        defragment(frame(chunks), 0) == join(chunks),
    decreases chunks.len(),
{
    if chunks.len() > 0 {
        let head = chunks.first();
        let tail = chunks.drop_first();
        let last = chunks.len() == 1;
        let raw = frame(chunks);
        let word = header_word(last, head.len());
        assert(forall|i: int| 0 <= i < tail.len() ==> #[trigger] tail[i] == chunks[i + 1]);
        lemma_reassembly(tail);
        assert(raw =~= be_u32(word) + (head + frame(tail)));
        lemma_u32_round_trip(word, head + frame(tail));
        assert(raw.skip(0) =~= raw);
        assert(raw.skip(4) =~= head + frame(tail));
        assert(raw.take(0) =~= Seq::<u8>::empty());
        lemma_header_round_trip(last, head.len() as u32);
        lemma_defragment_split(head + frame(tail), head.len(), head.len());
        assert((head + frame(tail)).take(head.len() as int) =~= head);
        assert((head + frame(tail)).skip(head.len() as int) =~= frame(tail));
        assert(defragment(raw, 0) =~= head + join(tail));
    }
}

/// A message that is framed as one fragment is delivered by the
/// reassembling reader as the message itself.
pub proof fn lemma_single_fragment(message: Seq<u8>)
    requires
        message.len() <= MAX_FRAGMENT_LEN,
    ensures
        defragment(fragment_wire(message, true), 0) == message,
{
    let chunks = seq![message];
    let none = Seq::<Seq<u8>>::empty();
    lemma_reassembly(chunks);
    assert(chunks.first() == message);
    assert(chunks.drop_first() =~= none);
    assert(frame(none) =~= Seq::<u8>::empty());
    assert(join(none) =~= Seq::<u8>::empty());
    assert(frame(chunks) == fragment_wire(message, true) + frame(none));
    assert(join(chunks) == message + join(none));
    assert(frame(chunks) =~= fragment_wire(message, true));
    assert(join(chunks) =~= message);
}

/// A reader that hands out the payload of a fragmented stream as one run of
/// bytes.
pub struct FragmentReader<R> {
    inner: R,
    nleft: u32,
}

impl<R: ByteSource> FragmentReader<R> {
    /// The bytes that the underlying stream has yet to hand out, headers
    /// included.
    pub closed spec fn stream(&self) -> Seq<u8> {
        self.inner.remaining()
    }

    /// Number of payload bytes still to come in the current fragment.
    pub closed spec fn left(&self) -> u32 {
        self.nleft
    }

    /// A reader that expects a fragment header next on `inner`.
    pub fn new(inner: R) -> (reader: Self)
        ensures
            reader.stream() == inner.remaining(),
            reader.left() == 0,
            reader.remaining() == defragment(inner.remaining(), 0),
    {
        FragmentReader { inner, nleft: 0 }
    }

    /// Gives the underlying stream back.
    pub fn into_inner(self) -> (inner: R)
        ensures
            inner.remaining() == self.stream(),
    {
        self.inner
    }
}

impl<R: ByteSource> ByteSource for FragmentReader<R> {
    open spec fn remaining(&self) -> Seq<u8> {
        defragment(self.stream(), self.left() as nat)
    }

    /// A read stops at the end of the current fragment, so it may hand out
    /// less than the stream still holds.
    open spec fn greedy() -> bool {
        false
    }

    /// Reads from one fragment only: from the current one, or, where that is
    /// used up, from the next one that is not empty, past the headers in
    /// between.
    ///
    /// Fails where the stream ends before such a fragment begins.
    fn read(&mut self, max: usize) -> (r: Result<Vec<u8>, XdrError>)
        ensures
            next_fragment(old(self).stream(), old(self).left() as nat).1 == 0 ==> r is Err,
            next_fragment(old(self).stream(), old(self).left() as nat).1 > 0 && next_fragment(
                old(self).stream(),
                old(self).left() as nat,
            ).0.len() > 0 ==> r is Ok,
            match r {
                Ok(bytes) => {
                    let start = next_fragment(old(self).stream(), old(self).left() as nat).0;
                    let left = next_fragment(old(self).stream(), old(self).left() as nat).1;
                    &&& left > 0
                    &&& bytes@.len() <= left
                    &&& bytes@ == start.take(bytes@.len() as int)
                    &&& final(self).stream() == start.skip(bytes@.len() as int)
                    &&& final(self).left() == left - bytes@.len()
                    &&& R::greedy() ==> bytes@.len() == smallest(max as nat, left, start.len())
                },
                Err(_) => true,
            },
    {
        while self.nleft == 0
            invariant
                next_fragment(old(self).stream(), old(self).left() as nat) == next_fragment(
                    self.inner.remaining(),
                    self.nleft as nat,
                ),
                old(self).remaining() == defragment(self.inner.remaining(), self.nleft as nat),
            decreases self.inner.remaining().len(),
        {
            let ghost raw = self.inner.remaining();
            proof {
                assert(raw.skip(0) =~= raw);
                assert(raw.take(0) =~= Seq::<u8>::empty());
            }
            let header = match FragmentHeader::deserialize(&mut self.inner) {
                Ok(header) => header,
                Err(e) => {
                    return Err(e);
                },
            };
            self.nleft = header.len();
            proof {
                assert(defragment(raw, 0) =~= defragment(raw.skip(4), self.nleft as nat));
            }
        }
        let ghost start = self.inner.remaining();
        let limit = if max <= self.nleft as usize {
            max
        } else {
            self.nleft as usize
        };
        let bytes = self.inner.read(limit)?;
        proof {
            lemma_defragment_split(start, self.nleft as nat, bytes@.len());
            let rest = defragment(start.skip(bytes@.len() as int), (self.nleft - bytes@.len()) as nat);
            assert((start.take(bytes@.len() as int) + rest).take(bytes@.len() as int)
                =~= start.take(bytes@.len() as int));
            assert((start.take(bytes@.len() as int) + rest).skip(bytes@.len() as int) =~= rest);
        }
        self.nleft = self.nleft - bytes.len() as u32;
        Ok(bytes)
    }

    /// Reads across fragment boundaries until `n` payload bytes are
    /// together.
    fn read_exact(&mut self, n: usize) -> (r: Result<Vec<u8>, XdrError>) {
        let ghost all = self.remaining();
        let mut out: Vec<u8> = Vec::new();
        let mut need: usize = n;
        while need > self.nleft as usize
            invariant
                out@.len() + need == n,
                all == out@ + defragment(self.inner.remaining(), self.nleft as nat),
                all == old(self).remaining(),
            decreases self.inner.remaining().len(),
        {
            let ghost raw = self.inner.remaining();
            let ghost left = self.nleft as nat;
            let part = self.inner.read_exact(self.nleft as usize);
            let mut part = match part {
                Ok(part) => part,
                Err(e) => {
                    return Err(e);
                },
            };
            proof {
                lemma_defragment_split(raw, left, left);
            }
            need = need - self.nleft as usize;
            out.append(&mut part);
            let header = match FragmentHeader::deserialize(&mut self.inner) {
                Ok(header) => header,
                Err(e) => {
                    proof {
                        assert(defragment(raw, left).len() == left);
                    }
                    return Err(e);
                },
            };
            self.nleft = header.len();
            proof {
                let mid = raw.skip(left as int);
                assert(mid.skip(0) =~= mid);
                assert(mid.take(0) =~= Seq::<u8>::empty());
                assert(defragment(mid, 0) =~= defragment(mid.skip(4), self.nleft as nat));
                assert(all =~= out@ + defragment(self.inner.remaining(), self.nleft as nat));
            }
        }
        let ghost raw = self.inner.remaining();
        let ghost left = self.nleft as nat;
        let mut part = match self.inner.read_exact(need) {
            Ok(part) => part,
            Err(e) => {
                return Err(e);
            },
        };
        self.nleft = self.nleft - need as u32;
        out.append(&mut part);
        proof {
            lemma_defragment_split(raw, left, need as nat);
            let rest = defragment(raw.skip(need as int), (left - need) as nat);
            assert(all =~= out@ + rest);
            assert(all.take(n as int) =~= out@);
            assert(all.skip(n as int) =~= rest);
        }
        Ok(out)
    }
}

} // verus!
