use rosbag::record::Record;
use rosbag::record_types::{BagHeader, Chunk, ChunkInfo, Compression, Connection, IndexData, MessageData};
use rosbag::{parse_bag_header, ChunkRecord, ChunkRecordsIterator, Cursor, Error, FieldIterator, IndexRecord,
    IndexRecordsIterator, MessageRecord, MessageRecordsIterator};
use std::io::{Read, Write};

fn le32(x: u32) -> Vec<u8> {
    x.to_le_bytes().to_vec()
}

fn field(name: &str, val: &[u8]) -> Vec<u8> {
    let mut v = le32((name.len() + 1 + val.len()) as u32);
    v.extend_from_slice(name.as_bytes());
    v.push(b'=');
    v.extend_from_slice(val);
    v
}

fn block(b: &[u8]) -> Vec<u8> {
    let mut v = le32(b.len() as u32);
    v.extend_from_slice(b);
    v
}

fn record(fields: &[Vec<u8>], body: &[u8]) -> Vec<u8> {
    let header: Vec<u8> = fields.concat();
    let mut v = block(&header);
    v.extend(block(body));
    v
}

fn time(s: u32, ns: u32) -> Vec<u8> {
    let mut v = le32(s);
    v.extend(le32(ns));
    v
}

const MD5_HEX: &str = "992ce8a1687cec8c8bd883ec73ca41d1";

fn md5_bytes() -> [u8; 16] {
    [0x99, 0x2c, 0xe8, 0xa1, 0x68, 0x7c, 0xec, 0x8c, 0x8b, 0xd8, 0x83, 0xec, 0x73, 0xca, 0x41, 0xd1]
}

fn connection_body(topic: &str) -> Vec<u8> {
    [
        field("topic", topic.as_bytes()),
        field("type", b"std_msgs/String"),
        field("md5sum", MD5_HEX.as_bytes()),
        field("message_definition", b"string data\n"),
    ]
    .concat()
}

fn connection_record(id: u32, topic: &str) -> Vec<u8> {
    record(&[field("op", &[0x07]), field("conn", &le32(id)), field("topic", topic.as_bytes())], &connection_body(topic))
}

fn message_record(conn: u32, s: u32, ns: u32, payload: &[u8]) -> Vec<u8> {
    record(&[field("op", &[0x02]), field("conn", &le32(conn)), field("time", &time(s, ns))], payload)
}

fn chunk_record(compression: &str, size: u32, payload: &[u8]) -> Vec<u8> {
    record(&[field("op", &[0x05]), field("compression", compression.as_bytes()), field("size", &le32(size))], payload)
}

fn index_data_record(ver: u32, conn: u32, count: u32, entries: &[(u32, u32, u32)]) -> Vec<u8> {
    let mut body = Vec::new();
    for (s, ns, off) in entries {
        body.extend(time(*s, *ns));
        body.extend(le32(*off));
    }
    record(&[field("op", &[0x04]), field("ver", &le32(ver)), field("conn", &le32(conn)), field("count", &le32(count))], &body)
}

fn chunk_info_record(chunk_pos: u64, start: (u32, u32), end: (u32, u32), entries: &[(u32, u32)]) -> Vec<u8> {
    let mut body = Vec::new();
    for (c, n) in entries {
        body.extend(le32(*c));
        body.extend(le32(*n));
    }
    record(
        &[
            field("op", &[0x06]),
            field("ver", &le32(1)),
            field("chunk_pos", &chunk_pos.to_le_bytes()),
            field("start_time", &time(start.0, start.1)),
            field("end_time", &time(end.0, end.1)),
            field("count", &le32(entries.len() as u32)),
        ],
        &body,
    )
}

fn decode(bytes: &[u8]) -> Result<Record<'_>, Error> {
    let mut c = Cursor::new(bytes);
    Record::next_record(&mut c)
}

#[test]
fn cursor_reads_advance_position() {
    let data = [1u8, 0, 0, 0, 2, 0, 0, 0, 9];
    let mut c = Cursor::new(&data);
    assert_eq!(c.next_u32().unwrap(), 1);
    assert_eq!(c.pos(), 4);
    assert_eq!(c.next_bytes(4).unwrap(), &[2, 0, 0, 0]);
    assert_eq!(c.left(), 1);
    assert_eq!(c.len(), 9);
}

#[test]
fn cursor_overrun_leaves_position() {
    let data = [5u8, 0, 0, 0, 1, 2];
    let mut c = Cursor::new(&data);
    assert!(c.next_chunk().is_err());
    assert_eq!(c.pos(), 0);
    assert!(c.next_bytes(7).is_err());
    assert_eq!(c.pos(), 0);
    c.seek(3).unwrap();
    assert!(c.next_u32().is_err());
    assert_eq!(c.pos(), 3);
    assert!(c.next_time().is_err());
    assert_eq!(c.pos(), 3);
    assert!(c.seek(7).is_err());
    assert_eq!(c.pos(), 3);
    assert!(c.seek(6).is_ok());
    assert_eq!(c.left(), 0);
}

#[test]
fn cursor_length_prefixed_block() {
    let data = [3u8, 0, 0, 0, 7, 8, 9, 1];
    let mut c = Cursor::new(&data);
    assert_eq!(c.next_chunk().unwrap(), &[7, 8, 9]);
    assert_eq!(c.pos(), 7);
}

#[test]
fn cursor_time_combines_seconds_and_nanoseconds() {
    let data = time(1, 500);
    let mut c = Cursor::new(&data);
    assert_eq!(c.next_time().unwrap(), 1_000_000_500);
    let data = time(u32::MAX, u32::MAX);
    let mut c = Cursor::new(&data);
    assert_eq!(c.next_time().unwrap(), 4_294_967_295 * 1_000_000_000 + 4_294_967_295);
}

#[test]
fn fields_are_parsed_in_order() {
    let block = [field("op", &[2]), field("conn", &le32(7)), field("x", b"a=b")].concat();
    let mut it = FieldIterator::new(&block);
    let (n, v) = it.next().unwrap().unwrap();
    assert_eq!((n, v), (&b"op"[..], &[2u8][..]));
    let (n, v) = it.next().unwrap().unwrap();
    assert_eq!((n, v), (&b"conn"[..], &[7u8, 0, 0, 0][..]));
    let (n, v) = it.next().unwrap().unwrap();
    assert_eq!((n, v), (&b"x"[..], &b"a=b"[..]));
    assert!(it.next().is_none());
}

#[test]
fn fields_round_trip() {
    let block = [field("op", &[2]), field("topic", b"/chatter"), field("empty", b"")].concat();
    let mut it = FieldIterator::new(&block);
    let mut out = Vec::new();
    while let Some(item) = it.next() {
        let (n, v) = item.unwrap();
        out.extend(field(std::str::from_utf8(n).unwrap(), v));
    }
    assert_eq!(out, block);
}

#[test]
fn field_grammar_errors() {
    let no_delim = block(b"abc");
    assert_eq!(FieldIterator::new(&no_delim).next(), Some(Err(Error::InvalidHeader)));
    let empty_name = block(b"=abc");
    assert_eq!(FieldIterator::new(&empty_name).next(), Some(Err(Error::InvalidHeader)));
    let bad_byte = block(b"a\x01=b");
    assert_eq!(FieldIterator::new(&bad_byte).next(), Some(Err(Error::InvalidHeader)));
    let short = vec![9u8, 0, 0, 0, b'a', b'='];
    assert_eq!(FieldIterator::new(&short).next(), Some(Err(Error::InvalidHeader)));
    let tiny = vec![1u8, 0];
    assert_eq!(FieldIterator::new(&tiny).next(), Some(Err(Error::InvalidHeader)));
    let value_bytes = block(b"a=\x01\xff");
    assert_eq!(FieldIterator::new(&value_bytes).next(), Some(Ok((&b"a"[..], &[1u8, 0xff][..]))));
}

#[test]
fn message_data_decodes() {
    let bytes = message_record(3, 1, 500, b"hello");
    match decode(&bytes).unwrap() {
        Record::MessageData(m) => {
            assert_eq!(m, MessageData { conn_id: 3, time: 1_000_000_500, data: b"hello" });
        }
        r => panic!("unexpected {:?}", r),
    }
}

#[test]
fn message_data_with_unknown_field_and_late_op() {
    let bytes = record(&[field("conn", &le32(3)), field("extra", b"zz"), field("time", &time(2, 3)), field("op", &[0x02])], b"p");
    let mut c = Cursor::new(&bytes);
    let r = Record::next_record(&mut c).unwrap();
    assert_eq!(r, Record::MessageData(MessageData { conn_id: 3, time: 2_000_000_003, data: b"p" }));
    assert_eq!(c.pos() as usize, bytes.len());
}

#[test]
fn bag_header_decodes() {
    let bytes = record(
        &[field("op", &[0x03]), field("index_pos", &0x0102_0304_0506_0708u64.to_le_bytes()), field("conn_count", &le32(2)), field("chunk_count", &le32(1))],
        &[b' '; 10],
    );
    let r = decode(&bytes).unwrap();
    assert_eq!(r, Record::BagHeader(BagHeader { index_pos: 0x0102_0304_0506_0708, conn_count: 2, chunk_count: 1 }));
    assert_eq!(r.get_type(), "BagHeader");
}

#[test]
fn connection_decodes() {
    let bytes = connection_record(4, "/chatter");
    match decode(&bytes).unwrap() {
        Record::Connection(c) => {
            assert_eq!(c.id, 4);
            assert_eq!(c.storage_topic, "/chatter");
            assert_eq!(c.topic, "/chatter");
            assert_eq!(c.tp, "std_msgs/String");
            assert_eq!(c.md5sum, md5_bytes());
            assert_eq!(c.message_definition, "string data\n");
            assert_eq!(c.caller_id, "");
            assert!(!c.latching);
        }
        r => panic!("unexpected {:?}", r),
    }
}

#[test]
fn connection_optional_fields() {
    let body = [
        field("topic", b"/t"),
        field("type", b"a/B"),
        field("md5sum", MD5_HEX.as_bytes()),
        field("callerid", b"/node"),
        field("latching", b"1"),
    ]
    .concat();
    let bytes = record(&[field("op", &[0x07]), field("conn", &le32(1)), field("topic", b"/s")], &body);
    match decode(&bytes).unwrap() {
        Record::Connection(c) => {
            assert_eq!(c.storage_topic, "/s");
            assert_eq!(c.topic, "/t");
            assert_eq!(c.caller_id, "/node");
            assert_eq!(c.message_definition, "");
            assert!(c.latching);
        }
        r => panic!("unexpected {:?}", r),
    }
}

#[test]
fn connection_body_errors() {
    let header = [field("op", &[0x07]), field("conn", &le32(1)), field("topic", b"/s")];
    let bad_md5 = [field("topic", b"/t"), field("type", b"a/B"), field("md5sum", b"992CE8A1687CEC8C8BD883EC73CA41D1")].concat();
    assert_eq!(decode(&record(&header, &bad_md5)), Err(Error::InvalidRecord));
    let short_md5 = [field("topic", b"/t"), field("type", b"a/B"), field("md5sum", b"99")].concat();
    assert_eq!(decode(&record(&header, &short_md5)), Err(Error::InvalidRecord));
    let bad_latch = [connection_body("/t"), field("latching", b"yes")].concat();
    assert_eq!(decode(&record(&header, &bad_latch)), Err(Error::InvalidRecord));
    let dup_topic = [connection_body("/t"), field("topic", b"/u")].concat();
    assert_eq!(decode(&record(&header, &dup_topic)), Err(Error::InvalidHeader));
    let no_type = [field("topic", b"/t"), field("md5sum", MD5_HEX.as_bytes())].concat();
    assert_eq!(decode(&record(&header, &no_type)), Err(Error::InvalidHeader));
    let bad_utf8 = [field("topic", b"/t\xff"), field("type", b"a/B"), field("md5sum", MD5_HEX.as_bytes())].concat();
    assert_eq!(decode(&record(&header, &bad_utf8)), Err(Error::InvalidHeader));
}

#[test]
fn index_data_entries_in_order() {
    let bytes = index_data_record(1, 9, 2, &[(1, 500, 0), (2, 7, 40)]);
    match decode(&bytes).unwrap() {
        Record::IndexData(x) => {
            assert_eq!((x.ver, x.conn_id), (1, 9));
            let mut it = x.entries();
            let e = it.next().unwrap();
            assert_eq!((e.time, e.offset), (1_000_000_500, 0));
            let e = it.next().unwrap();
            assert_eq!((e.time, e.offset), (2_000_000_007, 40));
            assert!(it.next().is_none());
        }
        r => panic!("unexpected {:?}", r),
    }
}

#[test]
fn index_data_body_errors() {
    assert_eq!(decode(&index_data_record(1, 9, 3, &[(1, 0, 0), (2, 0, 0)])), Err(Error::InvalidRecord));
    assert_eq!(decode(&index_data_record(2, 9, 1, &[(1, 0, 0)])), Err(Error::UnsupportedVersion));
    let ragged = record(&[field("op", &[0x04]), field("ver", &le32(1)), field("conn", &le32(1)), field("count", &le32(1))], &[0u8; 13]);
    assert_eq!(decode(&ragged), Err(Error::InvalidRecord));
    let mut cut = index_data_record(1, 9, 2, &[(1, 0, 0), (2, 0, 0)]);
    cut.truncate(cut.len() - 1);
    assert_eq!(decode(&cut), Err(Error::OutOfBounds));
}

#[test]
fn chunk_info_decodes() {
    let bytes = chunk_info_record(0x1_0000_0001, (1, 500), (3, 4), &[(0, 2), (5, 1)]);
    match decode(&bytes).unwrap() {
        Record::ChunkInfo(x) => {
            assert_eq!(x.ver, 1);
            assert_eq!(x.chunk_pos, 0x1_0000_0001);
            assert_eq!(x.start_time, 1_000_000_500);
            assert_eq!(x.end_time, 3_000_000_004);
            let mut it = x.entries();
            let e = it.next().unwrap();
            assert_eq!((e.conn_id, e.count), (0, 2));
            let e = it.next().unwrap();
            assert_eq!((e.conn_id, e.count), (5, 1));
            assert!(it.next().is_none());
        }
        r => panic!("unexpected {:?}", r),
    }
}

#[test]
fn chunk_info_body_errors() {
    let mut body = le32(9);
    body.extend([0u8; 5]);
    let header = [
        field("op", &[0x06]),
        field("ver", &le32(1)),
        field("chunk_pos", &0u64.to_le_bytes()),
        field("start_time", &time(0, 0)),
        field("end_time", &time(0, 0)),
        field("count", &le32(1)),
    ];
    let ragged = record(&header, &[0u8; 12]);
    assert_eq!(decode(&ragged), Err(Error::InvalidRecord));
    let wrong_count = record(&header, &[0u8; 16]);
    assert_eq!(decode(&wrong_count), Err(Error::InvalidRecord));
    let mut v2 = header.clone();
    v2[1] = field("ver", &le32(2));
    assert_eq!(decode(&record(&v2, &[0u8; 8])), Err(Error::UnsupportedVersion));
}

#[test]
fn missing_required_field_is_invalid_header() {
    assert_eq!(decode(&record(&[field("op", &[0x02]), field("conn", &le32(1))], b"")), Err(Error::InvalidHeader));
    assert_eq!(decode(&record(&[field("op", &[0x05]), field("compression", b"none")], b"")), Err(Error::InvalidHeader));
    assert_eq!(decode(&record(&[field("op", &[0x07]), field("conn", &le32(1))], &connection_body("/t"))), Err(Error::InvalidHeader));
    assert_eq!(decode(&record(&[field("op", &[0x04]), field("ver", &le32(1)), field("conn", &le32(1))], &[])), Err(Error::InvalidHeader));
    assert_eq!(
        decode(&record(&[field("op", &[0x06]), field("ver", &le32(1)), field("chunk_pos", &0u64.to_le_bytes()), field("count", &le32(0))], &[])),
        Err(Error::InvalidHeader)
    );
    assert_eq!(decode(&record(&[field("op", &[0x03]), field("conn_count", &le32(1)), field("chunk_count", &le32(1))], &[])), Err(Error::InvalidHeader));
}

#[test]
fn wrong_opcode_is_invalid_record() {
    let bytes = record(&[field("op", &[0x02]), field("conn", &le32(1)), field("time", &time(0, 0)), field("op", &[0x05])], b"");
    assert_eq!(decode(&bytes), Err(Error::InvalidRecord));
    let mut c = Cursor::new(&[]);
    let header = [field("op", &[0x04]), field("conn", &le32(1)), field("time", &time(0, 0))].concat();
    assert_eq!(MessageData::read(&header, &mut c), Err(Error::InvalidRecord));
    let unknown = record(&[field("op", &[0x09])], b"");
    assert_eq!(decode(&unknown), Err(Error::InvalidRecord));
    let no_op = record(&[field("conn", &le32(1))], b"");
    assert_eq!(decode(&no_op), Err(Error::InvalidRecord));
    let long_op = record(&[field("op", &[0x02, 0x02])], b"");
    assert_eq!(decode(&long_op), Err(Error::InvalidRecord));
}

#[test]
fn repeated_or_malformed_header_fields() {
    let dup = record(&[field("op", &[0x02]), field("conn", &le32(1)), field("conn", &le32(2)), field("time", &time(0, 0))], b"");
    assert_eq!(decode(&dup), Err(Error::InvalidHeader));
    let short = record(&[field("op", &[0x02]), field("conn", &[1, 0]), field("time", &time(0, 0))], b"");
    assert_eq!(decode(&short), Err(Error::InvalidHeader));
    let codec = chunk_record("zip", 0, b"");
    assert_eq!(decode(&codec), Err(Error::InvalidHeader));
}

#[test]
fn uncompressed_chunk_size_mismatch() {
    let inner = message_record(1, 0, 0, b"x");
    assert_eq!(decode(&chunk_record("none", inner.len() as u32 + 1, &inner)), Err(Error::InvalidRecord));
    let bytes = chunk_record("none", inner.len() as u32, &inner);
    let ok = decode(&bytes).unwrap();
    match ok {
        Record::Chunk(ch) => assert_eq!(ch.compression, Compression::Uncompressed),
        r => panic!("unexpected {:?}", r),
    }
}

fn bzip2_compress(data: &[u8]) -> Vec<u8> {
    let mut out = Vec::new();
    bzip2::read::BzEncoder::new(data, bzip2::Compression::default()).read_to_end(&mut out).unwrap();
    out
}

fn lz4_compress(data: &[u8]) -> Vec<u8> {
    let mut enc = lz4::EncoderBuilder::new().build(Vec::new()).unwrap();
    enc.write_all(data).unwrap();
    let (out, res) = enc.finish();
    res.unwrap();
    out
}

fn first_message(ch: &Chunk<'_>) -> (u32, u64, Vec<u8>) {
    let mut it = ch.messages();
    match it.next().unwrap().unwrap() {
        MessageRecord::MessageData(m) => (m.conn_id, m.time, m.data.to_vec()),
        r => panic!("unexpected {:?}", r),
    }
}

#[test]
fn bzip2_chunk_decompresses() {
    let inner = message_record(1, 2, 3, b"payload");
    let packed = bzip2_compress(&inner);
    assert_ne!(packed, inner);
    match decode(&chunk_record("bz2", inner.len() as u32, &packed)).unwrap() {
        Record::Chunk(ch) => {
            assert_eq!(ch.compression, Compression::Bzip2);
            assert_eq!(first_message(&ch), (1, 2_000_000_003, b"payload".to_vec()));
        }
        r => panic!("unexpected {:?}", r),
    }
    assert_eq!(decode(&chunk_record("bz2", inner.len() as u32 - 1, &packed)), Err(Error::InvalidRecord));
    match decode(&chunk_record("bz2", 4, b"not bzip2 data")) {
        Err(Error::Bzip2DecompressionError(_)) => {}
        r => panic!("unexpected {:?}", r),
    }
}

#[test]
fn lz4_chunk_decompresses() {
    let inner = message_record(1, 2, 3, b"payload");
    let packed = lz4_compress(&inner);
    match decode(&chunk_record("lz4", inner.len() as u32, &packed)).unwrap() {
        Record::Chunk(ch) => {
            assert_eq!(ch.compression, Compression::Lz4);
            assert_eq!(first_message(&ch), (1, 2_000_000_003, b"payload".to_vec()));
        }
        r => panic!("unexpected {:?}", r),
    }
    assert_eq!(decode(&chunk_record("lz4", inner.len() as u32 + 5, &packed)), Err(Error::InvalidRecord));
    match decode(&chunk_record("lz4", 4, b"not an lz4 frame")) {
        Err(Error::Lz4DecompressionError(_)) => {}
        r => panic!("unexpected {:?}", r),
    }
}

#[test]
fn chunk_from_expanded_checks_size() {
    let data = vec![1u8, 2, 3];
    assert_eq!(
        Chunk::from_expanded(Compression::Bzip2, 4, Ok(rosbag::record_types::ChunkData::Owned(data.clone()))),
        Err(Error::InvalidRecord)
    );
    assert!(Chunk::from_expanded(Compression::Bzip2, 3, Ok(rosbag::record_types::ChunkData::Owned(data))).is_ok());
    assert_eq!(
        Chunk::from_expanded(Compression::Lz4, 3, Err(Error::Lz4DecompressionError("bad".to_string()))),
        Err(Error::Lz4DecompressionError("bad".to_string()))
    );
}

#[test]
fn record_type_names() {
    let m = message_record(1, 0, 0, b"");
    assert_eq!(decode(&m).unwrap().get_type(), "MessageData");
    assert_eq!(decode(&connection_record(1, "/a")).unwrap().get_type(), "Connection");
    assert_eq!(decode(&index_data_record(1, 1, 0, &[])).unwrap().get_type(), "IndexData");
    assert_eq!(decode(&chunk_info_record(0, (0, 0), (0, 0), &[])).unwrap().get_type(), "ChunkInfo");
    assert_eq!(decode(&chunk_record("none", 0, b"")).unwrap().get_type(), "Chunk");
}

#[test]
fn unexpected_records_in_regions() {
    let msg = message_record(1, 0, 0, b"");
    let mut it = ChunkRecordsIterator::new(&msg, 0, msg.len() as u64).unwrap();
    assert_eq!(it.next(), Some(Err(Error::UnexpectedChunkSectionRecord("MessageData"))));
    let mut it = IndexRecordsIterator::new(&msg, 0).unwrap();
    assert_eq!(it.next(), Some(Err(Error::UnexpectedIndexSectionRecord("MessageData"))));
    let info = chunk_info_record(0, (0, 0), (0, 0), &[]);
    let mut it = MessageRecordsIterator::new(&info);
    assert_eq!(it.next(), Some(Err(Error::UnexpectedMessageRecord("ChunkInfo"))));
}

#[test]
fn region_constructors_and_seek_bounds() {
    let data = [0u8; 10];
    assert_eq!(ChunkRecordsIterator::new(&data, 4, 11).err(), Some(Error::OutOfBounds));
    assert_eq!(ChunkRecordsIterator::new(&data, 5, 4).err(), Some(Error::OutOfBounds));
    assert_eq!(IndexRecordsIterator::new(&data, 11).err(), Some(Error::OutOfBounds));
    let mut it = ChunkRecordsIterator::new(&data, 4, 8).unwrap();
    assert_eq!(it.seek(3), Err(Error::OutOfBounds));
    assert_eq!(it.seek(9), Err(Error::OutOfBounds));
    assert_eq!(it.seek(8), Ok(()));
    assert_eq!(it.next(), None);
    let mut it = IndexRecordsIterator::new(&data, 10).unwrap();
    assert_eq!(it.next(), None);
    assert_eq!(it.seek(9), Err(Error::OutOfBounds));
    let mut it = MessageRecordsIterator::new(&data);
    assert_eq!(it.seek(11), Err(Error::OutOfBounds));
    assert_eq!(it.seek(10), Ok(()));
    assert_eq!(it.next(), None);
}

#[test]
fn seek_into_a_record_fails_safely() {
    let msg = message_record(1, 0, 0, b"abc");
    let mut it = MessageRecordsIterator::new(&msg);
    it.seek(3).unwrap();
    assert!(matches!(it.next(), Some(Err(_))));
}

#[test]
fn error_from_out_of_bounds() {
    let e: Error = rosbag::OutOfBounds.into();
    assert_eq!(e, Error::OutOfBounds);
}

fn bag_header_record(index_pos: u64) -> Vec<u8> {
    record(
        &[field("op", &[0x03]), field("index_pos", &index_pos.to_le_bytes()), field("conn_count", &le32(1)), field("chunk_count", &le32(1))],
        &[b' '; 8],
    )
}

#[test]
fn bag_header_parse_errors() {
    assert_eq!(parse_bag_header(b"#ROSBAG"), Err(Error::OutOfBounds));
    let mut bad = b"#ROSBAG V1.2\n".to_vec();
    bad.extend(bag_header_record(0));
    assert_eq!(parse_bag_header(&bad), Err(Error::InvalidHeader));
    let mut no_op = b"#ROSBAG V2.0\n".to_vec();
    no_op.extend(record(&[field("index_pos", &0u64.to_le_bytes()), field("conn_count", &le32(1)), field("chunk_count", &le32(1))], b""));
    assert_eq!(parse_bag_header(&no_op), Err(Error::InvalidRecord));
}

#[test]
fn end_to_end_bag() {
    let conn = connection_record(0, "/chatter");
    let msg = message_record(0, 1, 500, b"hello");
    let payload = [conn.clone(), msg.clone()].concat();
    let chunk = chunk_record("none", payload.len() as u32, &payload);
    let index = index_data_record(1, 0, 1, &[(1, 500, conn.len() as u32)]);

    let header_len = 13 + bag_header_record(0).len();
    let chunk_pos = header_len as u64;
    let index_pos = chunk_pos + (chunk.len() + index.len()) as u64;
    let info = chunk_info_record(chunk_pos, (1, 500), (1, 500), &[(0, 1)]);
    let index_conn = connection_record(0, "/chatter");

    let mut bag = b"#ROSBAG V2.0\n".to_vec();
    bag.extend(bag_header_record(index_pos));
    bag.extend(&chunk);
    bag.extend(&index);
    bag.extend(&index_conn);
    bag.extend(&info);

    let (start, header) = parse_bag_header(&bag).unwrap();
    assert_eq!(start, chunk_pos);
    assert_eq!(header, BagHeader { index_pos, conn_count: 1, chunk_count: 1 });

    let mut chunks = ChunkRecordsIterator::new(&bag, start, header.index_pos).unwrap();
    let first = match chunks.next().unwrap().unwrap() {
        ChunkRecord::Chunk(ch) => ch,
        r => panic!("unexpected {:?}", r),
    };
    assert_eq!(first.compression, Compression::Uncompressed);
    let mut msgs = first.messages();
    match msgs.next().unwrap().unwrap() {
        MessageRecord::Connection(c) => {
            assert_eq!((c.id, c.topic, c.tp, c.md5sum), (0, "/chatter", "std_msgs/String", md5_bytes()));
        }
        r => panic!("unexpected {:?}", r),
    }
    match msgs.next().unwrap().unwrap() {
        MessageRecord::MessageData(m) => assert_eq!(m, MessageData { conn_id: 0, time: 1_000_000_500, data: b"hello" }),
        r => panic!("unexpected {:?}", r),
    }
    assert!(msgs.next().is_none());

    let entry = match chunks.next().unwrap().unwrap() {
        ChunkRecord::IndexData(x) => {
            assert_eq!((x.ver, x.conn_id), (1, 0));
            let mut it = x.entries();
            let e = it.next().unwrap();
            assert!(it.next().is_none());
            e
        }
        r => panic!("unexpected {:?}", r),
    };
    assert_eq!((entry.time, entry.offset), (1_000_000_500, conn.len() as u32));
    assert!(chunks.next().is_none());

    let mut msgs = first.messages();
    msgs.seek(entry.offset).unwrap();
    match msgs.next().unwrap().unwrap() {
        MessageRecord::MessageData(m) => assert_eq!(m.data, b"hello"),
        r => panic!("unexpected {:?}", r),
    }

    let mut index_records = IndexRecordsIterator::new(&bag, header.index_pos).unwrap();
    match index_records.next().unwrap().unwrap() {
        IndexRecord::Connection(c) => assert_eq!((c.id, c.storage_topic), (0, "/chatter")),
        r => panic!("unexpected {:?}", r),
    }
    let info_rec = match index_records.next().unwrap().unwrap() {
        IndexRecord::ChunkInfo(ci) => ci,
        r => panic!("unexpected {:?}", r),
    };
    assert_eq!((info_rec.chunk_pos, info_rec.start_time, info_rec.end_time), (chunk_pos, 1_000_000_500, 1_000_000_500));
    let e = info_rec.entries().next().unwrap();
    assert_eq!((e.conn_id, e.count), (0, 1));
    assert!(index_records.next().is_none());

    chunks.seek(info_rec.chunk_pos).unwrap();
    match chunks.next().unwrap().unwrap() {
        ChunkRecord::Chunk(again) => assert_eq!(again, first),
        r => panic!("unexpected {:?}", r),
    }
}

#[test]
fn index_section_rejects_chunk_records() {
    let chunk = chunk_record("none", 0, b"");
    let mut it = IndexRecordsIterator::new(&chunk, 0).unwrap();
    assert_eq!(it.next(), Some(Err(Error::UnexpectedIndexSectionRecord("Chunk"))));
    let header = [field("op", &[0x04]), field("ver", &le32(1)), field("conn", &le32(1))].concat();
    assert_eq!(IndexData::read(&header, &mut Cursor::new(&[])), Err(Error::InvalidHeader));
    let header = [field("op", &[0x06])].concat();
    assert_eq!(ChunkInfo::read(&header, &mut Cursor::new(&[])), Err(Error::InvalidHeader));
    let header = [field("op", &[0x07]), field("conn", &le32(1)), field("topic", b"/a")].concat();
    assert_eq!(Connection::read(&header, &mut Cursor::new(&[1, 0])), Err(Error::OutOfBounds));
}

#[test]
fn pre_body_failures_leave_cursor() {
    let body = block(&[0u8; 12]);
    let mut c = Cursor::new(&body);
    let header = [field("op", &[0x04]), field("ver", &le32(2)), field("conn", &le32(1)), field("count", &le32(1))].concat();
    assert_eq!(IndexData::read(&header, &mut c), Err(Error::UnsupportedVersion));
    assert_eq!(c.pos(), 0);
    let header = [field("op", &[0x06]), field("ver", &le32(1))].concat();
    assert_eq!(ChunkInfo::read(&header, &mut c), Err(Error::InvalidHeader));
    assert_eq!(c.pos(), 0);
    let header = [field("op", &[0x05]), field("size", &le32(3))].concat();
    assert_eq!(Chunk::read(&header, &mut c).err(), Some(Error::InvalidHeader));
    assert_eq!(c.pos(), 0);
    let header = [field("conn", &le32(1)), field("time", &time(0, 0))].concat();
    assert_eq!(MessageData::read(&header, &mut c), Err(Error::InvalidRecord));
    assert_eq!(c.pos(), 0);
    let header = [field("op", &[0x03]), field("conn_count", &le32(1))].concat();
    assert_eq!(BagHeader::read(&header, &mut c), Err(Error::InvalidHeader));
    assert_eq!(c.pos(), 0);
}

#[test]
fn compressed_chunk_outside_chunk_section() {
    let inner = message_record(1, 2, 3, b"payload");
    let chunk = chunk_record("bz2", inner.len() as u32, &bzip2_compress(&inner));
    let mut it = IndexRecordsIterator::new(&chunk, 0).unwrap();
    assert_eq!(it.next(), Some(Err(Error::UnexpectedIndexSectionRecord("Chunk"))));
    let chunk = chunk_record("lz4", inner.len() as u32, &lz4_compress(&inner));
    let mut it = MessageRecordsIterator::new(&chunk);
    assert_eq!(it.next(), Some(Err(Error::UnexpectedMessageRecord("Chunk"))));
}

#[test]
fn read_fields_walks_whole_block() {
    let block_bytes = [field("op", &[2]), field("topic", b"/chatter"), field("x", b"")].concat();
    let entries = rosbag::field_iter::read_fields(&block_bytes).unwrap();
    assert_eq!(entries.len(), 3);
    assert_eq!(entries[1], (&b"topic"[..], &b"/chatter"[..]));
    let mut out = Vec::new();
    for (n, v) in &entries {
        out.extend(field(std::str::from_utf8(n).unwrap(), v));
    }
    assert_eq!(out, block_bytes);
    let bad = [field("op", &[2]), block(b"noequals")].concat();
    assert_eq!(rosbag::field_iter::read_fields(&bad), Err(Error::InvalidHeader));
}

#[test]
fn codec_errors_carry_codec_message() {
    match decode(&chunk_record("bz2", 4, b"not bzip2 data")) {
        Err(Error::Bzip2DecompressionError(m)) => assert!(!m.is_empty()),
        r => panic!("unexpected {:?}", r),
    }
    match decode(&chunk_record("lz4", 4, b"not an lz4 frame")) {
        Err(Error::Lz4DecompressionError(m)) => assert!(!m.is_empty()),
        r => panic!("unexpected {:?}", r),
    }
}
