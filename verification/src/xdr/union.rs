//! Discriminated unions: a signed discriminant, then the arm that it selects.
//!
//! Which arm a discriminant selects is said by a case table. A discriminant
//! that the table does not list selects the default arm, which carries
//! nothing; the discriminant itself is kept, so no reply is lost for being
//! unknown.

use crate::error::XdrError;
use crate::xdr::bigendian::{be_u32, be_u64, bits_of_i32, bits_of_i64};
use crate::xdr::opaque::{counted, parse_counted};
use crate::xdr::source::ByteSource;
use crate::xdr::string::{parse_text, text_encode_error, text_wire};
use crate::xdr::{XdrDeserialize, XdrRoundTrip, XdrSerialize};
use vstd::prelude::*;

verus! {

broadcast use crate::xdr::bigendian::group_be_len;

/// What an arm of a union carries.
#[derive(Clone, Copy, Debug, PartialEq, Eq, Structural)]
pub enum ArmType {
    Void,
    Int,
    UnsignedInt,
    Hyper,
    UnsignedHyper,
    /// A 32-bit floating-point number, carried as its bits.
    Float,
    /// A 64-bit floating-point number, carried as its bits.
    Double,
    Bool,
    String,
    Opaque,
}

/// The value that an arm of a union carries.
#[derive(Debug, PartialEq, Eq)]
pub enum ArmValue {
    Void,
    Int(i32),
    UnsignedInt(u32),
    Hyper(i64),
    UnsignedHyper(u64),
    /// The bits of a 32-bit floating-point number.
    Float(u32),
    /// The bits of a 64-bit floating-point number.
    Double(u64),
    Bool(bool),
    String(String),
    Opaque(Vec<u8>),
}

/// The value of an arm, as contracts speak of it.
pub ghost enum ArmModel {
    Void,
    Int(i32),
    UnsignedInt(u32),
    Hyper(i64),
    UnsignedHyper(u64),
    Float(u32),
    Double(u64),
    Bool(bool),
    String(Seq<char>),
    Opaque(Seq<u8>),
}

/// A union: the discriminant and the value of the arm that it selected. The
/// default arm is `Void`.
#[derive(Debug, PartialEq, Eq)]
pub struct UnionValue {
    pub discriminant: i32,
    pub arm: ArmValue,
}

/// A union, as contracts speak of it.
pub ghost struct UnionValueModel {
    pub discriminant: i32,
    pub arm: ArmModel,
}

/// The arms of a union by discriminant. Where a discriminant is listed more
/// than once, its first entry counts.
#[derive(Debug, PartialEq, Eq)]
pub struct CaseTable {
    pub cases: Vec<(i32, ArmType)>,
}

/// The type of `arm`.
pub open spec fn arm_type(arm: ArmModel) -> ArmType {
    match arm {
        ArmModel::Void => ArmType::Void,
        ArmModel::Int(_) => ArmType::Int,
        ArmModel::UnsignedInt(_) => ArmType::UnsignedInt,
        ArmModel::Hyper(_) => ArmType::Hyper,
        ArmModel::UnsignedHyper(_) => ArmType::UnsignedHyper,
        ArmModel::Float(_) => ArmType::Float,
        ArmModel::Double(_) => ArmType::Double,
        ArmModel::Bool(_) => ArmType::Bool,
        ArmModel::String(_) => ArmType::String,
        ArmModel::Opaque(_) => ArmType::Opaque,
    }
}

/// Why `arm` has no encoding, or `None` when it has one.
pub open spec fn arm_encode_error(arm: ArmModel) -> Option<XdrError> {
    match arm {
        ArmModel::String(text) => text_encode_error(text),
        ArmModel::Opaque(data) => if data.len() > u32::MAX {
            Some(XdrError::TooLong)
        } else {
            None
        },
        _ => None,
    }
}

/// The bytes that stand for `arm` on the wire.
pub open spec fn arm_wire(arm: ArmModel) -> Seq<u8> {
    match arm {
        ArmModel::Void => Seq::empty(),
        ArmModel::Int(x) => be_u32(bits_of_i32(x)),
        ArmModel::UnsignedInt(x) => be_u32(x),
        ArmModel::Hyper(x) => be_u64(bits_of_i64(x)),
        ArmModel::UnsignedHyper(x) => be_u64(x),
        ArmModel::Float(bits) => be_u32(bits),
        ArmModel::Double(bits) => be_u64(bits),
        ArmModel::Bool(b) => b.wire(),
        ArmModel::String(text) => text_wire(text),
        ArmModel::Opaque(data) => counted(data),
    }
}

/// The arm of type `ty` that `bytes` start with and the number of bytes it
/// takes, or the reason why they start with none.
pub open spec fn parse_arm(ty: ArmType, bytes: Seq<u8>) -> Result<(ArmModel, nat), XdrError> {
    match ty {
        ArmType::Void => Ok((ArmModel::Void, 0)),
        ArmType::Int => match i32::parse(bytes) {
            Ok((x, k)) => Ok((ArmModel::Int(x), k)),
            Err(e) => Err(e),
        },
        ArmType::UnsignedInt => match u32::parse(bytes) {
            Ok((x, k)) => Ok((ArmModel::UnsignedInt(x), k)),
            Err(e) => Err(e),
        },
        ArmType::Hyper => match i64::parse(bytes) {
            Ok((x, k)) => Ok((ArmModel::Hyper(x), k)),
            Err(e) => Err(e),
        },
        ArmType::UnsignedHyper => match u64::parse(bytes) {
            Ok((x, k)) => Ok((ArmModel::UnsignedHyper(x), k)),
            Err(e) => Err(e),
        },
        ArmType::Float => match u32::parse(bytes) {
            Ok((x, k)) => Ok((ArmModel::Float(x), k)),
            Err(e) => Err(e),
        },
        ArmType::Double => match u64::parse(bytes) {
            Ok((x, k)) => Ok((ArmModel::Double(x), k)),
            Err(e) => Err(e),
        },
        ArmType::Bool => match bool::parse(bytes) {
            Ok((x, k)) => Ok((ArmModel::Bool(x), k)),
            Err(e) => Err(e),
        },
        ArmType::String => match parse_text(bytes) {
            Ok((x, k)) => Ok((ArmModel::String(x), k)),
            Err(e) => Err(e),
        },
        ArmType::Opaque => match parse_counted(bytes) {
            Ok((x, k)) => Ok((ArmModel::Opaque(x), k)),
            Err(e) => Err(e),
        },
    }
}

/// The type of the arm that `discriminant` selects among `cases`: that of the
/// first case that lists it, or `None` for the default arm.
pub open spec fn selected(cases: Seq<(i32, ArmType)>, discriminant: i32) -> Option<ArmType>
    decreases cases.len(),
{
    if cases.len() == 0 {
        None
    } else if cases.first().0 == discriminant {
        Some(cases.first().1)
    } else {
        selected(cases.drop_first(), discriminant)
    }
}

/// The union that `bytes` start with, read against `cases`, and the number
/// of bytes it takes, or the reason why they start with none.
pub open spec fn parse_union(cases: Seq<(i32, ArmType)>, bytes: Seq<u8>) -> Result<
    (UnionValueModel, nat),
    XdrError,
> {
    match i32::parse(bytes) {
        Err(e) => Err(e),
        Ok((discriminant, _)) => match selected(cases, discriminant) {
            None => Ok((UnionValueModel { discriminant, arm: ArmModel::Void }, 4)),
            Some(ty) => match parse_arm(ty, bytes.skip(4)) {
                Err(e) => Err(e),
                Ok((arm, k)) => Ok((UnionValueModel { discriminant, arm }, 4 + k)),
            },
        },
    }
}

/// Whether `value` is a union of the case table `cases`: its arm has the
/// type that its discriminant selects, and is void where it selects none.
pub open spec fn conforms(cases: Seq<(i32, ArmType)>, value: UnionValueModel) -> bool {
    match selected(cases, value.discriminant) {
        Some(ty) => arm_type(value.arm) == ty,
        None => value.arm is Void,
    }
}

impl View for ArmValue {
    type V = ArmModel;

    open spec fn view(&self) -> ArmModel {
        match self {
            ArmValue::Void => ArmModel::Void,
            ArmValue::Int(x) => ArmModel::Int(*x),
            ArmValue::UnsignedInt(x) => ArmModel::UnsignedInt(*x),
            ArmValue::Hyper(x) => ArmModel::Hyper(*x),
            ArmValue::UnsignedHyper(x) => ArmModel::UnsignedHyper(*x),
            ArmValue::Float(x) => ArmModel::Float(*x),
            ArmValue::Double(x) => ArmModel::Double(*x),
            ArmValue::Bool(x) => ArmModel::Bool(*x),
            ArmValue::String(x) => ArmModel::String(x@),
            ArmValue::Opaque(x) => ArmModel::Opaque(x@),
        }
    }
}

impl View for UnionValue {
    type V = UnionValueModel;

    open spec fn view(&self) -> UnionValueModel {
        UnionValueModel { discriminant: self.discriminant, arm: self.arm@ }
    }
}

impl XdrSerialize for ArmValue {
    open spec fn encode_error(&self) -> Option<XdrError> {
        arm_encode_error(self@)
    }

    open spec fn wire(&self) -> Seq<u8> {
        arm_wire(self@)
    }

    fn len(&self) -> (n: usize) {
        match self {
            ArmValue::Void => 0,
            ArmValue::Int(x) => XdrSerialize::len(x),
            ArmValue::UnsignedInt(x) => XdrSerialize::len(x),
            ArmValue::Hyper(x) => XdrSerialize::len(x),
            ArmValue::UnsignedHyper(x) => XdrSerialize::len(x),
            ArmValue::Float(x) => XdrSerialize::len(x),
            ArmValue::Double(x) => XdrSerialize::len(x),
            ArmValue::Bool(x) => XdrSerialize::len(x),
            ArmValue::String(x) => XdrSerialize::len(x),
            ArmValue::Opaque(x) => XdrSerialize::len(x),
        }
    }

    fn serialize(&self, out: &mut Vec<u8>) -> (r: Result<(), XdrError>) {
        match self {
            ArmValue::Void => {
                assert(out@ =~= old(out)@ + Seq::<u8>::empty());
                Ok(())
            },
            ArmValue::Int(x) => x.serialize(out),
            ArmValue::UnsignedInt(x) => x.serialize(out),
            ArmValue::Hyper(x) => x.serialize(out),
            ArmValue::UnsignedHyper(x) => x.serialize(out),
            ArmValue::Float(x) => x.serialize(out),
            ArmValue::Double(x) => x.serialize(out),
            ArmValue::Bool(x) => x.serialize(out),
            ArmValue::String(x) => x.serialize(out),
            ArmValue::Opaque(x) => x.serialize(out),
        }
    }
}

impl ArmValue {
    /// Reads an arm of type `ty`.
    pub fn deserialize<R: ByteSource>(ty: ArmType, reader: &mut R) -> (r: Result<Self, XdrError>)
        ensures
            match r {
                Ok(arm) => match parse_arm(ty, old(reader).remaining()) {
                    Ok((m, k)) => {
                        &&& arm@ == m
                        &&& k <= old(reader).remaining().len()
                        &&& final(reader).remaining() == old(reader).remaining().skip(k as int)
                    },
                    Err(_) => false,
                },
                Err(e) => parse_arm(ty, old(reader).remaining()) == Err::<(ArmModel, nat), XdrError>(
                    e,
                ),
            },
    {
        match ty {
            ArmType::Void => {
                assert(reader.remaining().skip(0) =~= reader.remaining());
                Ok(ArmValue::Void)
            },
            ArmType::Int => Ok(ArmValue::Int(i32::deserialize(reader)?)),
            ArmType::UnsignedInt => Ok(ArmValue::UnsignedInt(u32::deserialize(reader)?)),
            ArmType::Hyper => Ok(ArmValue::Hyper(i64::deserialize(reader)?)),
            ArmType::UnsignedHyper => Ok(ArmValue::UnsignedHyper(u64::deserialize(reader)?)),
            ArmType::Float => Ok(ArmValue::Float(u32::deserialize(reader)?)),
            ArmType::Double => Ok(ArmValue::Double(u64::deserialize(reader)?)),
            ArmType::Bool => Ok(ArmValue::Bool(bool::deserialize(reader)?)),
            ArmType::String => Ok(ArmValue::String(String::deserialize(reader)?)),
            ArmType::Opaque => Ok(ArmValue::Opaque(Vec::<u8>::deserialize(reader)?)),
        }
    }
}

/// An arm that was written is read back as it was, whatever follows it.
pub proof fn lemma_arm_round_trip(arm: ArmValue, rest: Seq<u8>)
    requires
        arm.encode_error() is None,
    ensures
        parse_arm(arm_type(arm@), arm.wire() + rest) == Ok::<(ArmModel, nat), XdrError>(
            (arm@, arm.wire().len()),
        ),
{
    match arm {
        ArmValue::Void => {},
        ArmValue::Int(x) => {
            x.lemma_round_trip(rest);
        },
        ArmValue::UnsignedInt(x) => {
            x.lemma_round_trip(rest);
        },
        ArmValue::Hyper(x) => {
            x.lemma_round_trip(rest);
        },
        ArmValue::UnsignedHyper(x) => {
            x.lemma_round_trip(rest);
        },
        ArmValue::Float(x) => {
            x.lemma_round_trip(rest);
        },
        ArmValue::Double(x) => {
            x.lemma_round_trip(rest);
        },
        ArmValue::Bool(x) => {
            x.lemma_round_trip(rest);
        },
        ArmValue::String(x) => {
            x.lemma_round_trip(rest);
        },
        ArmValue::Opaque(x) => {
            x.lemma_round_trip(rest);
        },
    }
}

impl XdrSerialize for UnionValue {
    open spec fn encode_error(&self) -> Option<XdrError> {
        arm_encode_error(self.arm@)
    }

    open spec fn wire(&self) -> Seq<u8> {
        be_u32(bits_of_i32(self.discriminant)) + arm_wire(self.arm@)
    }

    fn len(&self) -> (n: usize) {
        XdrSerialize::len(&self.discriminant).saturating_add(XdrSerialize::len(&self.arm))
    }

    fn serialize(&self, out: &mut Vec<u8>) -> (r: Result<(), XdrError>) {
        let start = out.len();
        self.discriminant.serialize(out)?;
        match self.arm.serialize(out) {
            Ok(_) => {
                assert(out@ =~= old(out)@ + self.wire());
                Ok(())
            },
            Err(e) => {
                out.truncate(start);
                assert(out@ =~= old(out)@);
                Err(e)
            },
        }
    }
}

impl CaseTable {
    /// The table of `cases`.
    pub fn new(cases: Vec<(i32, ArmType)>) -> (table: Self)
        ensures
            table.cases@ == cases@,
    {
        CaseTable { cases }
    }

    /// The type of the arm that `discriminant` selects, or `None` for the
    /// default arm.
    pub fn select(&self, discriminant: i32) -> (ty: Option<ArmType>)
        ensures
            ty == selected(self.cases@, discriminant),
    {
        let mut i: usize = 0;
        proof {
            assert(self.cases@.skip(0) =~= self.cases@);
        }
        while i < self.cases.len()
            invariant
                i <= self.cases@.len(),
                selected(self.cases@, discriminant) == selected(
                    self.cases@.skip(i as int),
                    discriminant,
                ),
            decreases self.cases@.len() - i,
        {
            proof {
                assert(self.cases@.skip(i as int).first() == self.cases@[i as int]);
                assert(self.cases@.skip(i as int).drop_first() =~= self.cases@.skip(i + 1));
            }
            if self.cases[i].0 == discriminant {
                return Some(self.cases[i].1);
            }
            i += 1;
        }
        None
    }

    /// Reads a union against this table: the discriminant, then the arm that
    /// it selects. A discriminant that the table does not list gives the
    /// default arm, with the discriminant as it was read.
    pub fn deserialize<R: ByteSource>(&self, reader: &mut R) -> (r: Result<UnionValue, XdrError>)
        ensures
            match r {
                Ok(value) => match parse_union(self.cases@, old(reader).remaining()) {
                    Ok((m, k)) => {
                        &&& value@ == m
                        &&& k <= old(reader).remaining().len()
                        &&& final(reader).remaining() == old(reader).remaining().skip(k as int)
                    },
                    Err(_) => false,
                },
                Err(e) => parse_union(self.cases@, old(reader).remaining()) == Err::<
                    (UnionValueModel, nat),
                    XdrError,
                >(e),
            },
    {
        let ghost all = reader.remaining();
        let discriminant = i32::deserialize(reader)?;
        match self.select(discriminant) {
            None => Ok(UnionValue { discriminant, arm: ArmValue::Void }),
            Some(ty) => {
                let arm = ArmValue::deserialize(ty, reader)?;
                proof {
                    let k = parse_arm(ty, all.skip(4))->Ok_0.1;
                    assert(all.skip(4).skip(k as int) =~= all.skip(4 + k as int));
                }
                Ok(UnionValue { discriminant, arm })
            },
        }
    }
}

/// A union of a case table that was written is read back against that
/// table as it was, whatever follows it.
pub proof fn lemma_union_round_trip(cases: Seq<(i32, ArmType)>, value: UnionValue, rest: Seq<u8>)
    requires
        conforms(cases, value@),
        value.encode_error() is None,
    ensures
        parse_union(cases, value.wire() + rest) == Ok::<(UnionValueModel, nat), XdrError>(
            (value@, value.wire().len()),
        ),
{
    let head = be_u32(bits_of_i32(value.discriminant));
    let all = value.wire() + rest;
    assert(all =~= head + (arm_wire(value.arm@) + rest));
    value.discriminant.lemma_round_trip(arm_wire(value.arm@) + rest);
    assert(all.skip(4) =~= arm_wire(value.arm@) + rest);
    lemma_arm_round_trip(value.arm, rest);
    if selected(cases, value.discriminant) is None {
        assert(arm_wire(value.arm@) =~= Seq::<u8>::empty());
    }
}

} // verus!
