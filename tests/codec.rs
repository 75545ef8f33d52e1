use rbpf::codec::{decode_frame, decode_record, encode_frame, encode_record, RECORD_LEN};
use rbpf::frame::{read_be, ContextWrapper, ParseError, UnhandledProtocolError, PROTO_RESERVED};
use rbpf::log::{
    send_err_unhandled_protocol, send_from, send_from_rule, str_to_u8, WLogMessage, ERROR, WARN,
};
use rbpf::fanout::LogChannel;
use rbpf::hex::parse_hex_address;
use rbpf::network::{split_network, NetworkError};
use rbpf::packet::{ParseResult, PROTO_UDP};

fn sample_packet() -> ParseResult {
    ParseResult {
        source_port: 12345,
        destination_port: 53,
        destination_addr_v4: 0,
        source_addr_v4: 0,
        destination_addr_v6: 0x2001_0db8_0000_0000_0000_0000_0000_0002,
        source_addr_v6: 0x2001_0db8_0000_0000_0000_0000_0000_0001,
        proto: PROTO_UDP,
        input: false,
        output: true,
        v4: false,
        ifindex: 4,
    }
}

#[test]
fn slug_is_nul_padded() {
    let s = str_to_u8("OK IN v4");
    assert_eq!(s.len(), 128);
    assert_eq!(&s[..8], b"OK IN v4");
    assert!(s[8..].iter().all(|b| *b == 0));
    let long = "x".repeat(200);
    let cut = WLogMessage::str_to_u8(&long);
    assert_eq!(cut.len(), 128);
    assert!(cut.iter().all(|b| *b == b'x'));
}

#[test]
fn record_round_trip() {
    let pac = sample_packet();
    let msg = send_from_rule("OK OUT", 7, &pac, WARN, 0x0102_0304_0506_0708);
    let bytes = encode_record(&msg);
    assert_eq!(bytes.len(), RECORD_LEN);
    let back = decode_record(&bytes).unwrap();
    assert_eq!(back.message, msg.message);
    assert_eq!(back.rule_id, 7);
    assert_eq!(back.level, WARN);
    assert_eq!(back.timestamp, 0x0102_0304_0506_0708);
    assert_eq!(back.src_ip_high, msg.src_ip_high);
    assert_eq!(back.src_ip_low, msg.src_ip_low);
    assert_eq!(back.dst_ip_high, msg.dst_ip_high);
    assert_eq!(back.dst_ip_low, msg.dst_ip_low);
    assert_eq!(back.source_port, 12345);
    assert_eq!(back.destination_port, 53);
    assert_eq!(back.ifindex, 4);
    assert!(back.output && !back.input && back.udp && !back.tcp && !back.v4);
    assert_eq!(back.unhandled_protocol, msg.unhandled_protocol);
}

#[test]
fn record_layout_is_big_endian() {
    let mut msg = send_from("x", 0, 0);
    msg.rule_id = 0x0a0b_0c0d;
    msg.source_port = 0x1234;
    let bytes = encode_record(&msg);
    assert_eq!(&bytes[173..177], &[0x0a, 0x0b, 0x0c, 0x0d]);
    assert_eq!(&bytes[182..184], &[0x12, 0x34]);
    assert!(bytes[195..].iter().all(|b| *b == 0));
}

#[test]
fn record_of_wrong_size_rejected() {
    assert!(decode_record(&[0u8; 255]).is_none());
    assert!(decode_record(&[0u8; 257]).is_none());
    assert!(decode_record(&[]).is_none());
}

#[test]
fn unhandled_record_round_trip() {
    let err = UnhandledProtocolError {
        proto: 1,
        dst_v4: 5,
        src_v4: 6,
        dst_v6: 0,
        src_v6: 0,
        ifindex: 2,
        input: true,
        v4: true,
    };
    let msg = send_err_unhandled_protocol("UNHANDLED IN", &err, 11);
    assert_eq!(msg.level, ERROR);
    let back = decode_record(&encode_record(&msg)).unwrap();
    assert_eq!(back.unhandled_protocol, 1);
    assert_eq!(back.source_addr_v4, 6);
    assert_eq!(back.destination_addr_v4, 5);
    assert_eq!(err.proto_as_u8(), 1);
    let empty = UnhandledProtocolError::empty();
    assert_eq!(empty.proto, PROTO_RESERVED);
}

#[test]
fn frame_round_trip() {
    let payload = b"{\"rule_id\":7}".to_vec();
    let mut stream = encode_frame(&payload);
    assert_eq!(&stream[..4], &[0, 0, 0, payload.len() as u8]);
    stream.extend_from_slice(&encode_frame(b"next"));
    let (first, used) = decode_frame(&stream).unwrap();
    assert_eq!(first, payload);
    assert_eq!(used, 4 + payload.len());
    let (second, used2) = decode_frame(&stream[used..]).unwrap();
    assert_eq!(second, b"next".to_vec());
    assert_eq!(used2, 8);
}

#[test]
fn incomplete_frames_wait() {
    assert!(decode_frame(&[0, 0]).is_none());
    assert!(decode_frame(&[0, 0, 0, 5, 1, 2]).is_none());
    let (empty, used) = decode_frame(&[0, 0, 0, 0]).unwrap();
    assert!(empty.is_empty());
    assert_eq!(used, 4);
}

#[test]
fn big_endian_reads() {
    let bytes = [0x12u8, 0x34, 0x56, 0x78, 0x9a];
    assert_eq!(read_be(&bytes, 0, 2), 0x1234);
    assert_eq!(read_be(&bytes, 1, 4), 0x3456_789a);
    assert_eq!(read_be(&bytes, 2, 0), 0);
}

#[test]
fn parser_reports_each_outcome() {
    let mut frame = vec![0u8; 12];
    frame.extend_from_slice(&[0x86, 0xDD]);
    frame.extend_from_slice(&[0u8; 40]);
    frame[14 + 6] = 17;
    frame[14 + 8 + 15] = 1;
    frame.extend_from_slice(&[0x30, 0x39, 0x00, 0x35, 0, 0, 0, 0]);
    let ctx = ContextWrapper::from_usize(0, frame.len(), 4);
    let pac = ctx.parse(&frame, false).ok().unwrap();
    assert_eq!(pac.source_addr_v6, 1);
    assert_eq!(pac.source_port, 12345);
    assert_eq!(pac.destination_port, 53);
    assert!(pac.output && !pac.input && !pac.v4);
    assert!(matches!(ctx.ptr_at_u(frame.len(), 1), Err(ParseError::Truncated)));
    assert_eq!(ctx.ptr_at_u(14, 40).ok(), Some(14));
    let short = ContextWrapper::from_usize(0, 60, 4);
    assert!(matches!(short.parse(&frame, false), Err(ParseError::Truncated)));
    let v4 = ctx.to_parse_result(&frame, true, true);
    assert!(matches!(v4, Err(ParseError::UnhandledProtocol(_))));
}

#[test]
fn hex_addresses() {
    assert_eq!(
        parse_hex_address(b"0x20010db8000000000000000000000001"),
        Some(0x2001_0db8_0000_0000_0000_0000_0000_0001)
    );
    assert_eq!(parse_hex_address(b"0xFFff"), Some(0xffff));
    assert_eq!(parse_hex_address(b"0x0"), Some(0));
    assert_eq!(parse_hex_address(b"0xffffffffffffffffffffffffffffffff"), Some(u128::MAX));
    assert_eq!(parse_hex_address(b"0x"), None);
    assert_eq!(parse_hex_address(b"0x1g"), None);
    assert_eq!(parse_hex_address(b"1x12"), None);
    assert_eq!(parse_hex_address(b"0x100000000000000000000000000000000"), None);
    assert_eq!(parse_hex_address(b"2001:db8::1"), None);
}

#[test]
fn channel_delivers_in_order_and_drops_when_full() {
    let mut ch = LogChannel::new(2);
    assert!(ch.offer(encode_frame(b"a")));
    assert!(ch.offer(encode_frame(b"b")));
    assert!(!ch.offer(encode_frame(b"c")));
    assert_eq!(ch.dropped_count(), 1);
    assert_eq!(ch.len(), 2);
    assert_eq!(decode_frame(&ch.take().unwrap()).unwrap().0, b"a".to_vec());
    assert!(ch.offer(encode_frame(b"d")));
    assert_eq!(decode_frame(&ch.take().unwrap()).unwrap().0, b"b".to_vec());
    assert_eq!(decode_frame(&ch.take().unwrap()).unwrap().0, b"d".to_vec());
    assert!(ch.take().is_none());
    assert_eq!(ch.len(), 0);
    let mut none = LogChannel::new(0);
    assert!(!none.offer(vec![1]));
    assert!(none.take().is_none());
}

#[test]
fn network_texts_split() {
    assert_eq!(split_network(b"10.0.0.0/8"), Ok((8, 8)));
    assert_eq!(split_network(b"10.1.2.3"), Ok((8, 0)));
    assert_eq!(split_network(b""), Ok((0, 0)));
    assert_eq!(split_network(b"2001:db8::/32"), Ok((10, 32)));
    assert_eq!(split_network(b"0x20010db8/128"), Ok((10, 128)));
    assert_eq!(split_network(b"1.2.3.4/255"), Ok((7, 255)));
    assert_eq!(split_network(b"1.2.3.4/256"), Err(NetworkError::BadPrefix));
    assert_eq!(split_network(b"1.2.3.4/"), Err(NetworkError::BadPrefix));
    assert_eq!(split_network(b"1.2.3.4/1x"), Err(NetworkError::BadPrefix));
    assert_eq!(split_network(b"1.2.3.4/1024"), Err(NetworkError::BadPrefix));
    assert_eq!(split_network(b"1.2.3.4/8/9"), Err(NetworkError::BadPrefix));
}
