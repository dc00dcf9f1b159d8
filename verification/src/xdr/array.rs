//! Homogeneous arrays: element after element, with a count in front when the
//! length is not fixed by the type.

use crate::error::XdrError;
use crate::xdr::bigendian::{be_u32, lemma_u32_round_trip, u32_of_be, write_u32};
use crate::xdr::source::ByteSource;
use crate::xdr::{saturated, XdrDeserialize, XdrRoundTrip, XdrSerialize};
use vstd::prelude::*;

verus! {

broadcast use crate::xdr::bigendian::group_be_len;

/// The encodings of `items`, one after the other.
pub open spec fn wire_all<T: XdrSerialize>(items: Seq<T>) -> Seq<u8>
    decreases items.len(),
{
    if items.len() == 0 {
        Seq::empty()
    } else {
        wire_all(items.drop_last()) + items.last().wire()
    }
}

/// The error of the first of `items` that has no encoding, if there is one.
pub open spec fn first_error<T: XdrSerialize>(items: Seq<T>) -> Option<XdrError>
    decreases items.len(),
{
    if items.len() == 0 {
        None
    } else {
        match first_error(items.drop_last()) {
            Some(e) => Some(e),
            None => items.last().encode_error(),
        }
    }
}

/// The values of `items`, in order.
pub open spec fn models<T: XdrDeserialize>(items: Seq<T>) -> Seq<T::Model> {
    Seq::new(items.len(), |i: int| items[i].model())
}

/// The `count` values that `bytes` start with, one after the other, and the
/// number of bytes they take, or the error of the first that cannot be read.
pub open spec fn parse_many<T: XdrDeserialize>(bytes: Seq<u8>, count: nat) -> Result<
    (Seq<T::Model>, nat),
    XdrError,
>
    decreases count,
{
    if count == 0 {
        Ok((Seq::empty(), 0))
    } else {
        match parse_many::<T>(bytes, (count - 1) as nat) {
            Err(e) => Err(e),
            Ok((items, used)) => match T::parse(bytes.skip(used as int)) {
                Err(e) => Err(e),
                Ok((m, k)) => Ok((items.push(m), used + k)),
            },
        }
    }
}

/// The counted array that `bytes` start with and the number of bytes it
/// takes, or the reason why they start with none.
pub open spec fn parse_counted_array<T: XdrDeserialize>(bytes: Seq<u8>) -> Result<
    (Seq<T::Model>, nat),
    XdrError,
> {
    if bytes.len() < 4 {
        Err(XdrError::UnexpectedEof)
    } else {
        match parse_many::<T>(bytes.skip(4), u32_of_be(bytes) as nat) {
            Err(e) => Err(e),
            Ok((items, used)) => Ok((items, 4 + used)),
        }
    }
}

/// Once an element cannot be read, no longer array can be read either.
pub proof fn lemma_parse_many_error<T: XdrDeserialize>(bytes: Seq<u8>, failed: nat, count: nat)
    requires
        failed <= count,
        parse_many::<T>(bytes, failed) is Err,
    ensures
        parse_many::<T>(bytes, count) == parse_many::<T>(bytes, failed),
    decreases count,
{
    if failed < count {
        lemma_parse_many_error::<T>(bytes, failed, (count - 1) as nat);
    }
}

/// Elements that were written one after the other are read back as they
/// were, whatever follows them.
pub proof fn lemma_many_round_trip<T: XdrRoundTrip>(items: Seq<T>, rest: Seq<u8>)
    requires
        first_error(items) is None,
    ensures
        parse_many::<T>(wire_all(items) + rest, items.len()) == Ok::<
            (Seq<T::Model>, nat),
            XdrError,
        >((models(items), wire_all(items).len())),
    decreases items.len(),
{
    if items.len() > 0 {
        let front = items.drop_last();
        let last = items.last();
        let all = wire_all(items) + rest;
        assert(all =~= wire_all(front) + (last.wire() + rest));
        lemma_many_round_trip(front, last.wire() + rest);
        assert(all.skip(wire_all(front).len() as int) =~= last.wire() + rest);
        last.lemma_round_trip(rest);
        assert(models(front).push(last.model()) =~= models(items));
    } else {
        assert(models(items) =~= Seq::<T::Model>::empty());
    }
}

/// Appends the encodings of `items`, in order, to `out`. Where one of them
/// has no encoding, `out` is left as it was.
pub fn write_all<T: XdrSerialize>(out: &mut Vec<u8>, items: &[T]) -> (r: Result<(), XdrError>)
    ensures
        match r {
            Ok(_) => first_error(items@) is None && final(out)@ == old(out)@ + wire_all(items@),
            Err(e) => first_error(items@) == Some(e) && final(out)@ == old(out)@,
        },
{
    let start = out.len();
    let mut i: usize = 0;
    while i < items.len()
        invariant
            i <= items@.len(),
            start == old(out)@.len(),
            first_error(items@.take(i as int)) is None,
            out@ == old(out)@ + wire_all(items@.take(i as int)),
        decreases items@.len() - i,
    {
        let r = items[i].serialize(out);
        proof {
            assert(items@.take(i + 1).drop_last() =~= items@.take(i as int));
            assert(items@.take(i + 1).last() == items@[i as int]);
        }
        match r {
            Ok(_) => {
                assert(out@ =~= old(out)@ + wire_all(items@.take(i + 1)));
            },
            Err(e) => {
                proof {
                    lemma_first_error_stays(items@, (i + 1) as nat);
                }
                out.truncate(start);
                assert(out@ =~= old(out)@);
                return Err(e);
            },
        }
        i += 1;
    }
    assert(items@.take(i as int) =~= items@);
    Ok(())
}

/// The first error among a prefix of `items` is the first error among all.
pub proof fn lemma_first_error_stays<T: XdrSerialize>(items: Seq<T>, upto: nat)
    requires
        upto <= items.len(),
        first_error(items.take(upto as int)) is Some,
    ensures
        first_error(items) == first_error(items.take(upto as int)),
    decreases items.len(),
{
    if upto < items.len() {
        assert(items.drop_last().take(upto as int) =~= items.take(upto as int));
        lemma_first_error_stays(items.drop_last(), upto);
    } else {
        assert(items.take(upto as int) =~= items);
    }
}

/// Number of bytes that the encodings of `items` take together, or the
/// largest number there is where they take more.
pub fn len_all<T: XdrSerialize>(items: &[T]) -> (n: usize)
    ensures
        n == saturated(wire_all(items@).len()),
{
    let mut n: usize = 0;
    let mut i: usize = 0;
    while i < items.len()
        invariant
            i <= items@.len(),
            n == saturated(wire_all(items@.take(i as int)).len()),
        decreases items@.len() - i,
    {
        proof {
            assert(items@.take(i + 1).drop_last() =~= items@.take(i as int));
            assert(items@.take(i + 1).last() == items@[i as int]);
        }
        n = n.saturating_add(items[i].len());
        i += 1;
    }
    assert(items@.take(i as int) =~= items@);
    n
}

/// Reads `count` values, one after the other.
pub fn read_many<T: XdrDeserialize, R: ByteSource>(reader: &mut R, count: usize) -> (r: Result<
    Vec<T>,
    XdrError,
>)
    ensures
        match r {
            Ok(items) => match parse_many::<T>(old(reader).remaining(), count as nat) {
                Ok((m, k)) => {
                    &&& items@.len() == count
                    &&& models(items@) == m
                    &&& k <= old(reader).remaining().len()
                    &&& final(reader).remaining() == old(reader).remaining().skip(k as int)
                },
                Err(_) => false,
            },
            Err(e) => parse_many::<T>(old(reader).remaining(), count as nat) == Err::<
                (Seq<T::Model>, nat),
                XdrError,
            >(e),
        },
{
    let ghost all = old(reader).remaining();
    let ghost mut used: nat = 0;
    let mut items: Vec<T> = Vec::new();
    let mut i: usize = 0;
    proof {
        assert(models(items@) =~= Seq::<T::Model>::empty());
        assert(all.skip(0) =~= all);
    }
    while i < count
        invariant
            i <= count,
            items@.len() == i,
            all == old(reader).remaining(),
            used <= all.len(),
            parse_many::<T>(all, i as nat) == Ok::<(Seq<T::Model>, nat), XdrError>(
                (models(items@), used),
            ),
            reader.remaining() == all.skip(used as int),
        decreases count - i,
    {
        let ghost before = models(items@);
        match T::deserialize(reader) {
            Ok(item) => {
                proof {
                    let k = T::parse(all.skip(used as int))->Ok_0.1;
                    assert(all.skip(used as int).skip(k as int) =~= all.skip((used + k) as int));
                    used = used + k;
                }
                items.push(item);
                assert(models(items@) =~= before.push(item.model()));
            },
            Err(e) => {
                proof {
                    assert(parse_many::<T>(all, (i + 1) as nat) == Err::<
                        (Seq<T::Model>, nat),
                        XdrError,
                    >(e));
                    lemma_parse_many_error::<T>(all, (i + 1) as nat, count as nat);
                }
                return Err(e);
            },
        }
        i += 1;
    }
    Ok(items)
}

impl<T: XdrSerialize> XdrSerialize for Vec<T> {
    open spec fn encode_error(&self) -> Option<XdrError> {
        if self@.len() > u32::MAX {
            Some(XdrError::TooLong)
        } else {
            first_error(self@)
        }
    }

    open spec fn wire(&self) -> Seq<u8> {
        be_u32(self@.len() as u32) + wire_all(self@)
    }

    fn len(&self) -> (n: usize) {
        4usize.saturating_add(len_all(self.as_slice()))
    }

    fn serialize(&self, out: &mut Vec<u8>) -> (r: Result<(), XdrError>) {
        if self.len() > 0xffff_ffff {
            return Err(XdrError::TooLong);
        }
        let start = out.len();
        write_u32(out, self.len() as u32);
        match write_all(out, self.as_slice()) {
            Ok(_) => {
                assert(out@ =~= old(out)@ + self.wire());
                Ok(())
            },
            Err(e) => {
                out.truncate(start);
                assert(out@ =~= old(out)@);
                Err(e)
            },
        }
    }
}

impl<T: XdrDeserialize> XdrDeserialize for Vec<T> {
    type Model = Seq<T::Model>;

    open spec fn model(&self) -> Seq<T::Model> {
        models(self@)
    }

    open spec fn parse(bytes: Seq<u8>) -> Result<(Seq<T::Model>, nat), XdrError> {
        parse_counted_array::<T>(bytes)
    }

    fn deserialize<R: ByteSource>(reader: &mut R) -> (r: Result<Self, XdrError>) {
        let count = u32::deserialize(reader)?;
        let ghost all = old(reader).remaining();
        let items = read_many::<T, R>(reader, count as usize)?;
        proof {
            let k = parse_many::<T>(all.skip(4), count as nat)->Ok_0.1;
            assert(all.skip(4).skip(k as int) =~= all.skip(4 + k as int));
        }
        Ok(items)
    }
}

impl<T: XdrRoundTrip> XdrRoundTrip for Vec<T> {
    proof fn lemma_round_trip(&self, rest: Seq<u8>) {
        let all = self.wire() + rest;
        assert(all =~= be_u32(self@.len() as u32) + (wire_all(self@) + rest));
        lemma_u32_round_trip(self@.len() as u32, wire_all(self@) + rest);
        assert(all.skip(4) =~= wire_all(self@) + rest);
        lemma_many_round_trip(self@, rest);
    }
}

/// Calls the standard library's conversion of a vector into an array. The
/// contract says what its documentation says: the conversion succeeds exactly
/// when the vector has the array's length, and the array then holds the
/// vector's elements in order.
#[verifier::external_body]
fn vec_into_array<T, const LEN: usize>(items: Vec<T>) -> (r: Option<[T; LEN]>)
    ensures
        match r {
            Some(array) => items@.len() == LEN && array@ == items@,
            None => items@.len() != LEN,
        },
{
    items.try_into().ok()
}

impl<T: XdrSerialize, const LEN: usize> XdrSerialize for [T; LEN] {
    open spec fn encode_error(&self) -> Option<XdrError> {
        first_error(self@)
    }

    open spec fn wire(&self) -> Seq<u8> {
        wire_all(self@)
    }

    fn len(&self) -> (n: usize) {
        len_all(self.as_slice())
    }

    fn serialize(&self, out: &mut Vec<u8>) -> (r: Result<(), XdrError>) {
        write_all(out, self.as_slice())
    }
}

impl<T: XdrDeserialize, const LEN: usize> XdrDeserialize for [T; LEN] {
    type Model = Seq<T::Model>;

    open spec fn model(&self) -> Seq<T::Model> {
        models(self@)
    }

    open spec fn parse(bytes: Seq<u8>) -> Result<(Seq<T::Model>, nat), XdrError> {
        parse_many::<T>(bytes, LEN as nat)
    }

    fn deserialize<R: ByteSource>(reader: &mut R) -> (r: Result<Self, XdrError>) {
        let items = read_many::<T, R>(reader, LEN)?;
        match vec_into_array::<T, LEN>(items) {
            Some(array) => Ok(array),
            None => vstd::pervasive::unreached(),
        }
    }
}

impl<T: XdrRoundTrip, const LEN: usize> XdrRoundTrip for [T; LEN] {
    proof fn lemma_round_trip(&self, rest: Seq<u8>) {
        lemma_many_round_trip(self@, rest);
    }
}

impl<T: XdrSerialize> XdrSerialize for &T {
    open spec fn encode_error(&self) -> Option<XdrError> {
        (**self).encode_error()
    }

    open spec fn wire(&self) -> Seq<u8> {
        (**self).wire()
    }

    fn len(&self) -> (n: usize) {
        (**self).len()
    }

    fn serialize(&self, out: &mut Vec<u8>) -> (r: Result<(), XdrError>) {
        (**self).serialize(out)
    }
}

} // verus!
