use oncrpc::error::XdrError;
use oncrpc::xdr::ieee::{Double, Float};
use oncrpc::xdr::padding;
use oncrpc::xdr::source::{ByteSource, SliceReader};
use oncrpc::xdr::union::{ArmType, ArmValue, CaseTable, UnionValue};
use oncrpc::xdr::{XdrDeserialize, XdrSerialize};

fn encode<T: XdrSerialize>(value: &T) -> Vec<u8> {
    let mut out = Vec::new();
    value.serialize(&mut out).unwrap();
    out
}

fn decode<T: XdrDeserialize>(bytes: &[u8]) -> Result<T, XdrError> {
    let mut reader = SliceReader::new(bytes);
    T::deserialize(&mut reader)
}

fn round_trip<T: XdrSerialize + XdrDeserialize + PartialEq + std::fmt::Debug>(value: T) {
    let mut bytes = encode(&value);
    assert_eq!(bytes.len(), value.len());
    assert_eq!(bytes.len() % 4, 0);
    bytes.extend_from_slice(&[0xaa, 0xbb, 0xcc]);
    let mut reader = SliceReader::new(&bytes);
    assert_eq!(T::deserialize(&mut reader), Ok(value));
    assert_eq!(reader.len(), 3);
}

#[derive(Debug, PartialEq)]
struct Point {
    x: i32,
    y: i32,
}

impl XdrSerialize for Point {
    fn len(&self) -> usize {
        XdrSerialize::len(&self.x) + XdrSerialize::len(&self.y)
    }

    fn serialize(&self, out: &mut Vec<u8>) -> Result<(), XdrError> {
        self.x.serialize(out)?;
        self.y.serialize(out)
    }
}

impl XdrDeserialize for Point {
    type Model = ();

    fn deserialize<R: ByteSource>(reader: &mut R) -> Result<Self, XdrError> {
        Ok(Point { x: i32::deserialize(reader)?, y: i32::deserialize(reader)? })
    }
}

#[test]
fn u32_five_is_four_bytes_big_endian() {
    assert_eq!(encode(&5u32), vec![0x00, 0x00, 0x00, 0x05]);
}

#[test]
fn string_ab_is_counted_and_padded() {
    assert_eq!(encode(&String::from("ab")), vec![0, 0, 0, 2, b'a', b'b', 0, 0]);
}

#[test]
fn two_field_struct_round_trips() {
    let value = Point { x: 2, y: -5 };
    let bytes = encode(&value);
    assert_eq!(bytes, vec![0, 0, 0, 2, 0xff, 0xff, 0xff, 0xfb]);
    assert_eq!(decode::<Point>(&bytes), Ok(value));
}

fn int_float_table() -> CaseTable {
    CaseTable::new(vec![(0, ArmType::Int), (20, ArmType::Float)])
}

#[test]
fn union_case_20_carries_a_float() {
    let value = UnionValue { discriminant: 20, arm: ArmValue::Float(1.0f32.to_bits()) };
    let bytes = encode(&value);
    assert_eq!(bytes, vec![0, 0, 0, 20, 0x3f, 0x80, 0, 0]);
    let mut reader = SliceReader::new(&bytes);
    let decoded = int_float_table().deserialize(&mut reader).unwrap();
    assert_eq!(decoded.discriminant, 20);
    match decoded.arm {
        ArmValue::Float(bits) => assert_eq!(f32::from_bits(bits), 1.0f32),
        other => panic!("wrong arm {:?}", other),
    }
    assert_eq!(reader.len(), 0);
}

#[test]
fn union_case_0_carries_an_int() {
    let bytes = vec![0, 0, 0, 0, 0, 0, 0, 1];
    let mut reader = SliceReader::new(&bytes);
    let decoded = int_float_table().deserialize(&mut reader).unwrap();
    assert_eq!(decoded, UnionValue { discriminant: 0, arm: ArmValue::Int(1) });
}

#[test]
fn unknown_discriminant_gives_the_default_arm() {
    let bytes = vec![0, 0, 0, 99, 1, 2, 3, 4];
    let mut reader = SliceReader::new(&bytes);
    let decoded = int_float_table().deserialize(&mut reader).unwrap();
    assert_eq!(decoded, UnionValue { discriminant: 99, arm: ArmValue::Void });
    assert_eq!(reader.len(), 4);
}

#[test]
fn first_case_counts_where_a_discriminant_is_listed_twice() {
    let table = CaseTable::new(vec![(1, ArmType::Bool), (1, ArmType::Hyper)]);
    assert_eq!(table.select(1), Some(ArmType::Bool));
    assert_eq!(table.select(2), None);
}

#[test]
fn union_arm_that_is_cut_short_is_an_error() {
    let bytes = vec![0, 0, 0, 20, 0x3f, 0x80];
    let mut reader = SliceReader::new(&bytes);
    assert_eq!(int_float_table().deserialize(&mut reader), Err(XdrError::UnexpectedEof));
}

#[test]
fn every_arm_round_trips() {
    let arms = vec![
        (ArmType::Void, ArmValue::Void),
        (ArmType::Int, ArmValue::Int(-7)),
        (ArmType::UnsignedInt, ArmValue::UnsignedInt(0xffff_fff0)),
        (ArmType::Hyper, ArmValue::Hyper(i64::MIN)),
        (ArmType::UnsignedHyper, ArmValue::UnsignedHyper(u64::MAX)),
        (ArmType::Float, ArmValue::Float(2.5f32.to_bits())),
        (ArmType::Double, ArmValue::Double((-0.125f64).to_bits())),
        (ArmType::Bool, ArmValue::Bool(true)),
        (ArmType::String, ArmValue::String(String::from("tcp"))),
        (ArmType::Opaque, ArmValue::Opaque(vec![1, 2, 3, 4, 5])),
    ];
    for (i, (ty, arm)) in arms.into_iter().enumerate() {
        let table = CaseTable::new(vec![(i as i32 - 3, ty)]);
        let value = UnionValue { discriminant: i as i32 - 3, arm };
        let bytes = encode(&value);
        assert_eq!(bytes.len(), value.len());
        let mut reader = SliceReader::new(&bytes);
        assert_eq!(table.deserialize(&mut reader), Ok(value));
        assert_eq!(reader.len(), 0);
    }
}

#[test]
fn integers_round_trip() {
    for x in [0u32, 1, 5, 255, 256, 0x7fff_ffff, 0x8000_0000, u32::MAX] {
        round_trip(x);
    }
    for x in [0i32, 1, -1, -5, i32::MAX, i32::MIN] {
        round_trip(x);
    }
    for x in [0u64, 1, 0xffff_ffff, 0x1_0000_0000, u64::MAX] {
        round_trip(x);
    }
    for x in [0i64, -1, 1, i64::MAX, i64::MIN, -0x1_0000_0001] {
        round_trip(x);
    }
    round_trip(true);
    round_trip(false);
}

#[test]
fn integers_are_big_endian() {
    assert_eq!(encode(&0x0102_0304u32), vec![1, 2, 3, 4]);
    assert_eq!(encode(&-5i32), vec![0xff, 0xff, 0xff, 0xfb]);
    assert_eq!(encode(&0x0102_0304_0506_0708u64), vec![1, 2, 3, 4, 5, 6, 7, 8]);
    assert_eq!(encode(&-2i64), vec![0xff, 0xff, 0xff, 0xff, 0xff, 0xff, 0xff, 0xfe]);
    assert_eq!(encode(&true), vec![0, 0, 0, 1]);
    assert_eq!(encode(&false), vec![0, 0, 0, 0]);
}

#[test]
fn opaque_and_strings_round_trip() {
    for len in 0..10usize {
        let data: Vec<u8> = (0..len as u8).map(|b| b.wrapping_mul(37).wrapping_add(200)).collect();
        round_trip(data);
        let text: String = (0..len).map(|i| (b'a' + i as u8) as char).collect();
        round_trip(text);
    }
    round_trip([1u8, 2, 3, 4, 5]);
    round_trip([9u8; 8]);
    round_trip([0u8; 0]);
}

#[test]
fn arrays_round_trip() {
    round_trip(vec![1i32, -2, 3]);
    round_trip(Vec::<u32>::new());
    round_trip(vec![String::from("a"), String::from("bcd"), String::new()]);
    round_trip(vec![vec![1u8, 2, 3], vec![], vec![4u8]]);
    round_trip([7i64, -8, 9]);
    round_trip([String::from("x"), String::from("yz")]);
    round_trip(vec![Point { x: 1, y: 2 }, Point { x: -3, y: 4 }]);
}

#[test]
fn arrays_are_laid_out_element_by_element() {
    assert_eq!(encode(&vec![1u32, 2]), vec![0, 0, 0, 2, 0, 0, 0, 1, 0, 0, 0, 2]);
    assert_eq!(encode(&[1u32, 2]), vec![0, 0, 0, 1, 0, 0, 0, 2]);
    assert_eq!(encode(&[1u8, 2, 3, 4, 5]), vec![1, 2, 3, 4, 5, 0, 0, 0]);
    assert_eq!(encode(&vec![7u8]), vec![0, 0, 0, 1, 7, 0, 0, 0]);
}

#[test]
fn padding_fills_up_to_a_multiple_of_four() {
    assert_eq!(padding(0), 0);
    assert_eq!(padding(1), 3);
    assert_eq!(padding(2), 2);
    assert_eq!(padding(3), 1);
    assert_eq!(padding(4), 0);
    assert_eq!(padding(5), 3);
    for len in 0..40usize {
        let data = vec![0x5au8; len];
        assert_eq!(encode(&data).len(), 4 + len + ((4 - len % 4) % 4));
        let text = "x".repeat(len);
        assert_eq!(encode(&text).len(), 4 + len + ((4 - len % 4) % 4));
    }
}

#[test]
fn decoding_skips_the_padding() {
    let bytes = vec![0, 0, 0, 1, 7, 9, 9, 9, 0, 0, 0, 5];
    let mut reader = SliceReader::new(&bytes);
    assert_eq!(Vec::<u8>::deserialize(&mut reader), Ok(vec![7]));
    assert_eq!(u32::deserialize(&mut reader), Ok(5));
}

#[test]
fn short_input_is_an_error() {
    assert_eq!(decode::<u32>(&[0, 0, 0]), Err(XdrError::UnexpectedEof));
    assert_eq!(decode::<i64>(&[0, 0, 0, 0, 0, 0, 0]), Err(XdrError::UnexpectedEof));
    assert_eq!(decode::<Vec<u8>>(&[0, 0, 0, 2, 1]), Err(XdrError::UnexpectedEof));
    assert_eq!(decode::<Vec<u8>>(&[0, 0, 0, 2, 1, 2, 0]), Err(XdrError::UnexpectedEof));
    assert_eq!(decode::<String>(&[0, 0]), Err(XdrError::UnexpectedEof));
    assert_eq!(decode::<Vec<u32>>(&[0, 0, 0, 2, 0, 0, 0, 1]), Err(XdrError::UnexpectedEof));
    assert_eq!(decode::<[u8; 5]>(&[1, 2, 3, 4, 5, 0, 0]), Err(XdrError::UnexpectedEof));
    assert_eq!(decode::<[u32; 2]>(&[0, 0, 0, 1]), Err(XdrError::UnexpectedEof));
}

#[test]
fn invalid_utf8_is_an_error() {
    assert_eq!(decode::<String>(&[0, 0, 0, 2, 0xc3, 0x28, 0, 0]), Err(XdrError::InvalidUtf8));
    assert_eq!(decode::<String>(&[0, 0, 0, 2, 0xc3, 0xa9, 0, 0]), Ok(String::from("\u{e9}")));
}

#[test]
fn non_ascii_string_is_not_encoded() {
    let mut out = vec![1u8];
    assert_eq!(String::from("\u{e9}").serialize(&mut out), Err(XdrError::NotAscii));
    assert_eq!(out, vec![1u8]);
    let mut out = vec![9u8, 8];
    let texts = vec![String::from("ok"), String::from("\u{fc}")];
    assert_eq!(texts.serialize(&mut out), Err(XdrError::NotAscii));
    assert_eq!(out, vec![9u8, 8]);
    let texts = [String::from("fine"), String::from("\u{fc}")];
    assert_eq!(texts.serialize(&mut out), Err(XdrError::NotAscii));
    assert_eq!(out, vec![9u8, 8]);
    let value = UnionValue { discriminant: 3, arm: ArmValue::String(String::from("\u{e9}")) };
    assert_eq!(value.serialize(&mut out), Err(XdrError::NotAscii));
    assert_eq!(out, vec![9u8, 8]);
}

#[test]
fn floating_point_numbers_travel_as_their_bits() {
    let one = Float { bits: 1.0f32.to_bits() };
    assert_eq!(encode(&one), vec![0x3f, 0x80, 0, 0]);
    round_trip(one);
    round_trip(Float { bits: f32::NAN.to_bits() });
    let half = Double { bits: (-0.5f64).to_bits() };
    assert_eq!(encode(&half), vec![0xbf, 0xe0, 0, 0, 0, 0, 0, 0]);
    round_trip(half);
    assert_eq!(decode::<Double>(&[0; 7]), Err(XdrError::UnexpectedEof));
    assert_eq!(f32::from_bits(decode::<Float>(&[0x40, 0x20, 0, 0]).unwrap().bits), 2.5f32);
}

#[test]
fn boolean_other_than_zero_or_one_is_an_error() {
    assert_eq!(decode::<bool>(&[0, 0, 0, 2]), Err(XdrError::InvalidBool));
    assert_eq!(decode::<bool>(&[0, 0, 0, 1]), Ok(true));
}

#[test]
fn references_encode_what_they_point_to() {
    let x = 5u32;
    assert_eq!(encode(&&x), encode(&x));
    assert_eq!(XdrSerialize::len(&&x), 4);
}

#[test]
fn errors_have_messages() {
    assert_eq!(XdrError::UnexpectedEof.message(), "unexpected end of data");
    assert_eq!(XdrError::InvalidUtf8.message(), "string is not valid UTF-8");
}

#[test]
fn slice_reader_reads_in_order() {
    let bytes = [1u8, 2, 3, 4, 5];
    let mut reader = SliceReader::new(&bytes);
    assert_eq!(reader.read(2), Ok(vec![1, 2]));
    assert_eq!(reader.read_exact(2), Ok(vec![3, 4]));
    assert_eq!(reader.read(9), Ok(vec![5]));
    assert_eq!(reader.read(9), Ok(vec![]));
    assert_eq!(reader.read_exact(1), Err(XdrError::UnexpectedEof));
    assert_eq!(reader.read_exact(0), Ok(vec![]));
}
