//! Where a decoder takes its bytes from.

use crate::error::XdrError;
use vstd::prelude::*;

verus! {

/// A supply of bytes that is read from front to back.
pub trait ByteSource {
    /// The bytes that this source has yet to hand out, in order.
    spec fn remaining(&self) -> Seq<u8>;

    /// Whether `read` on this kind of source hands out all that it is asked
    /// for as long as it has that much, and otherwise all that it has.
    spec fn greedy() -> bool;

    /// Takes at most `max` bytes from the front of the source. A source that
    /// is asked for a byte and has one hands out at least one; a greedy
    /// source hands out as many as it can.
    ///
    /// A source may fail only when it has nothing left to hand out.
    fn read(&mut self, max: usize) -> (r: Result<Vec<u8>, XdrError>)
        ensures
            max > 0 && old(self).remaining().len() > 0 ==> r is Ok && r->Ok_0@.len() > 0,
            match r {
                Ok(bytes) => {
                    &&& bytes@.len() <= max
                    &&& bytes@.len() <= old(self).remaining().len()
                    &&& bytes@ == old(self).remaining().take(bytes@.len() as int)
                    &&& final(self).remaining() == old(self).remaining().skip(bytes@.len() as int)
                    &&& Self::greedy() ==> bytes@.len() == if max <= old(self).remaining().len() {
                        max as nat
                    } else {
                        old(self).remaining().len()
                    }
                },
                Err(e) => e == XdrError::UnexpectedEof && old(self).remaining().len() == 0,
            },
    ;

    /// Takes exactly `n` bytes from the front of the source.
    ///
    /// Fails when fewer than `n` bytes are left; the source is then spent and
    /// nothing is promised about what it still holds.
    fn read_exact(&mut self, n: usize) -> (r: Result<Vec<u8>, XdrError>)
        ensures
            match r {
                Ok(bytes) => {
                    &&& n <= old(self).remaining().len()
                    &&& bytes@ == old(self).remaining().take(n as int)
                    &&& final(self).remaining() == old(self).remaining().skip(n as int)
                },
                Err(e) => e == XdrError::UnexpectedEof && n > old(self).remaining().len(),
            },
    ;
}

/// A source that reads from bytes held in memory.
pub struct SliceReader<'a> {
    rest: &'a [u8],
}

impl<'a> SliceReader<'a> {
    /// A reader positioned at the first byte of `data`.
    pub fn new(data: &'a [u8]) -> (reader: Self)
        ensures
            reader.remaining() == data@,
    {
        SliceReader { rest: data }
    }

    /// Number of bytes not yet read.
    pub fn len(&self) -> (n: usize)
        ensures
            n == self.remaining().len(),
    {
        self.rest.len()
    }
}

impl<'a> ByteSource for SliceReader<'a> {
    closed spec fn remaining(&self) -> Seq<u8> {
        self.rest@
    }

    open spec fn greedy() -> bool {
        true
    }

    /// Takes `max` bytes while that many are left, otherwise all that is
    /// left. Never fails.
    fn read(&mut self, max: usize) -> (r: Result<Vec<u8>, XdrError>)
        ensures
            r is Ok,
    {
        let n = if max <= self.rest.len() {
            max
        } else {
            self.rest.len()
        };
        let (head, tail) = self.rest.split_at(n);
        self.rest = tail;
        let mut bytes = Vec::new();
        bytes.extend_from_slice(head);
        assert(bytes@ =~= head@);
        Ok(bytes)
    }

    fn read_exact(&mut self, n: usize) -> (r: Result<Vec<u8>, XdrError>) {
        if n > self.rest.len() {
            return Err(XdrError::UnexpectedEof);
        }
        self.read(n)
    }
}

} // verus!
