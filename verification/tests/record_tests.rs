use oncrpc::client::{raw_union_len, RawResponseUnion, RpcClient};
use oncrpc::error::{ClientError, XdrError};
use oncrpc::message::{RpcCall, RpcReply};
use oncrpc::record::{FragmentHeader, FragmentReader};
use oncrpc::xdr::source::{ByteSource, SliceReader};
use oncrpc::xdr::{XdrDeserialize, XdrSerialize};

fn frame(chunks: &[&[u8]]) -> Vec<u8> {
    let mut out = Vec::new();
    for (i, chunk) in chunks.iter().enumerate() {
        let header = FragmentHeader::new(i + 1 == chunks.len(), chunk.len() as u32);
        header.serialize(&mut out).unwrap();
        out.extend_from_slice(chunk);
    }
    out
}

#[test]
fn header_packs_flag_and_length() {
    assert_eq!(FragmentHeader::new(true, 44).number, 0x8000_002c);
    assert_eq!(FragmentHeader::new(false, 44).number, 0x0000_002c);
    assert_eq!(FragmentHeader::new(true, 0).number, 0x8000_0000);
    assert_eq!(FragmentHeader::new(true, 0x7fff_ffff).number, 0xffff_ffff);
}

#[test]
fn header_unpacks_to_what_was_packed() {
    for len in [0u32, 1, 2, 255, 256, 65535, 0x1234_5678, 0x7fff_fffe, 0x7fff_ffff] {
        for flag in [true, false] {
            let header = FragmentHeader::new(flag, len);
            assert_eq!((header.is_last(), header.len()), (flag, len));
            let mut bytes = Vec::new();
            header.serialize(&mut bytes).unwrap();
            let mut reader = SliceReader::new(&bytes);
            assert_eq!(FragmentHeader::deserialize(&mut reader), Ok(header));
        }
    }
}

#[test]
fn payload_comes_back_whatever_the_fragments() {
    let payload: Vec<u8> = (0..=255u8).cycle().take(1000).collect();
    for sizes in [vec![1000usize], vec![1, 999], vec![500, 500], vec![3, 5, 7, 985], vec![999, 1]] {
        let mut chunks: Vec<&[u8]> = Vec::new();
        let mut at = 0;
        for size in &sizes {
            chunks.push(&payload[at..at + size]);
            at += size;
        }
        let stream = frame(&chunks);
        let mut reader = FragmentReader::new(SliceReader::new(&stream));
        assert_eq!(reader.read_exact(1000), Ok(payload.clone()));

        let mut reader = FragmentReader::new(SliceReader::new(&stream));
        let mut got = Vec::new();
        for step in [1usize, 2, 3, 4, 90, 400, 500] {
            got.extend(reader.read_exact(step).unwrap());
        }
        assert_eq!(got, payload);
        assert_eq!(reader.read_exact(1), Err(XdrError::UnexpectedEof));
    }
}

#[test]
fn one_byte_fragments_are_put_together() {
    let payload = [9u8, 8, 7, 6, 5];
    let chunks: Vec<&[u8]> = payload.chunks(1).collect();
    let stream = frame(&chunks);
    assert_eq!(stream.len(), 5 * 5);
    let mut reader = FragmentReader::new(SliceReader::new(&stream));
    assert_eq!(reader.read_exact(5), Ok(payload.to_vec()));
}

#[test]
fn empty_fragments_carry_nothing() {
    let stream = frame(&[&[1, 2], &[], &[3]]);
    let mut reader = FragmentReader::new(SliceReader::new(&stream));
    assert_eq!(reader.read_exact(3), Ok(vec![1, 2, 3]));
}

#[test]
fn read_stays_within_the_current_fragment() {
    let stream = frame(&[&[1, 2, 3], &[4, 5]]);
    let mut reader = FragmentReader::new(SliceReader::new(&stream));
    assert_eq!(reader.read(2), Ok(vec![1, 2]));
    assert_eq!(reader.read(10), Ok(vec![3]));
    assert_eq!(reader.read(10), Ok(vec![4, 5]));
    assert_eq!(reader.read(10), Err(XdrError::UnexpectedEof));
}

#[test]
fn truncated_streams_are_errors() {
    let mut stream = frame(&[&[1, 2, 3, 4]]);
    stream.truncate(6);
    let mut reader = FragmentReader::new(SliceReader::new(&stream));
    assert_eq!(reader.read_exact(2), Ok(vec![1, 2]));
    assert_eq!(reader.read_exact(1), Err(XdrError::UnexpectedEof));

    let mut stream = frame(&[&[1, 2], &[3]]);
    stream.truncate(8);
    let mut reader = FragmentReader::new(SliceReader::new(&stream));
    assert_eq!(reader.read_exact(3), Err(XdrError::UnexpectedEof));

    let mut reader = FragmentReader::new(SliceReader::new(&[]));
    assert_eq!(reader.read_exact(0), Ok(vec![]));
    assert_eq!(reader.read_exact(1), Err(XdrError::UnexpectedEof));
}

#[test]
fn values_decode_across_fragment_boundaries() {
    let stream = frame(&[&[0, 0], &[0, 5, 0xff], &[0xff, 0xff, 0xfe]]);
    let mut reader = FragmentReader::new(SliceReader::new(&stream));
    assert_eq!(u32::deserialize(&mut reader), Ok(5));
    assert_eq!(i32::deserialize(&mut reader), Ok(-2));
    let rest = reader.into_inner();
    assert_eq!(rest.len(), 0);
}

fn raw_reply(discriminant: i32, data: &[u8], chunk: usize) -> Vec<u8> {
    let mut message = Vec::new();
    RpcReply { header: RpcCall { xid: 123456, msg_type: 1 }, reply_state: 0, verifier: 0, accept_state: 0 }
        .serialize(&mut message)
        .unwrap();
    discriminant.serialize(&mut message).unwrap();
    data.to_vec().serialize(&mut message).unwrap();
    let chunks: Vec<&[u8]> = message.chunks(chunk).collect();
    frame(&chunks)
}

#[test]
fn raw_union_is_written_into_the_buffers() {
    let mut client = RpcClient::new(1, 1);
    client.send_request(1, &0u32).unwrap();
    let mut discriminant = 0i32;
    let mut data_length = 17usize;
    let mut data = [0u8; 5];
    let target = RawResponseUnion {
        discriminant: &mut discriminant,
        data_length: &mut data_length,
        data: &mut data,
    };
    assert_eq!(client.recv_raw_union(&raw_reply(-3, &[1, 2, 3, 4, 5], 7), target), Ok(()));
    assert_eq!(discriminant, -3);
    assert_eq!(data, [1, 2, 3, 4, 5]);
    assert_eq!(data_length, 17);
    assert_eq!(client.send_request(1, &0u32).map(|b| b.len()), Ok(48));
}

#[test]
fn raw_union_length_is_told_before_the_buffers_are_filled() {
    let reply = raw_reply(1, &[1, 2, 3, 4, 5], 100);
    assert_eq!(raw_union_len(&reply), Ok(5));
    assert_eq!(raw_union_len(&raw_reply(1, &[], 3)), Ok(0));
    let mut short = raw_reply(1, &[1, 2, 3, 4, 5], 100);
    short.truncate(4 + 24 + 6);
    short[3] = 30;
    assert_eq!(raw_union_len(&short), Err(ClientError::Xdr(XdrError::UnexpectedEof)));

    let mut client = RpcClient::new(1, 1);
    client.send_request(1, &0u32).unwrap();
    let mut discriminant = 4i32;
    let mut data_length = 0usize;
    let mut data = vec![7u8; raw_union_len(&reply).unwrap()];
    let target = RawResponseUnion {
        discriminant: &mut discriminant,
        data_length: &mut data_length,
        data: &mut data,
    };
    assert_eq!(client.recv_raw_union(&reply, target), Ok(()));
    assert_eq!(discriminant, 1);
    assert_eq!(data, vec![1, 2, 3, 4, 5]);
}

#[test]
fn raw_union_that_is_cut_short_leaves_the_buffers() {
    let mut reply = raw_reply(1, &[1, 2, 3, 4, 5], 100);
    reply.truncate(reply.len() - 4);
    reply[3] -= 4;
    assert_eq!(raw_union_len(&reply), Ok(5));
    let mut client = RpcClient::new(1, 1);
    client.send_request(1, &0u32).unwrap();
    let mut discriminant = 4i32;
    let mut data_length = 0usize;
    let mut data = [7u8; 5];
    let target = RawResponseUnion {
        discriminant: &mut discriminant,
        data_length: &mut data_length,
        data: &mut data,
    };
    assert_eq!(
        client.recv_raw_union(&reply, target),
        Err(ClientError::Xdr(XdrError::UnexpectedEof))
    );
    assert_eq!(discriminant, 4);
    assert_eq!(data, [7u8; 5]);
}

#[test]
fn read_hands_out_all_of_a_fragment_that_fits() {
    let stream = [0x80u8, 0, 0, 3, 1, 2, 3];
    let mut reader = FragmentReader::new(SliceReader::new(&stream));
    assert_eq!(reader.read(8), Ok(vec![1, 2, 3]));
    assert_eq!(reader.read(8), Err(XdrError::UnexpectedEof));
}

#[test]
fn read_passes_over_empty_fragments() {
    let stream = frame(&[&[], &[], &[1, 2], &[], &[3]]);
    let mut reader = FragmentReader::new(SliceReader::new(&stream));
    assert_eq!(reader.read(1), Ok(vec![1]));
    assert_eq!(reader.read(0), Ok(vec![]));
    assert_eq!(reader.read(5), Ok(vec![2]));
    assert_eq!(reader.read(5), Ok(vec![3]));
    assert_eq!(reader.read(5), Err(XdrError::UnexpectedEof));

    let stream = frame(&[&[9], &[]]);
    let mut reader = FragmentReader::new(SliceReader::new(&stream));
    assert_eq!(reader.read(4), Ok(vec![9]));
    assert_eq!(reader.read(4), Err(XdrError::UnexpectedEof));
}
