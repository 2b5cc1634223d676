use oxidevault::error::ProtocolError;
use oxidevault::mc_server::protocol::{
    frame_packet, process_varint_byte, read_string, read_varint_from_slice, write_string,
    write_varint,
};

fn encoded(value: i32) -> Vec<u8> {
    let mut buf = Vec::new();
    write_varint(&mut buf, value).unwrap();
    buf
}

#[test]
fn test_varint_encoding() {
    let mut buf = Vec::new();
    write_varint(&mut buf, 0).unwrap();
    assert_eq!(buf, vec![0]);

    let mut buf = Vec::new();
    write_varint(&mut buf, 127).unwrap();
    assert_eq!(buf, vec![127]);

    let mut buf = Vec::new();
    write_varint(&mut buf, 128).unwrap();
    assert_eq!(buf, vec![0x80, 0x01]);
}

#[test]
fn test_varint_decoding() {
    assert_eq!(read_varint_from_slice(&[0]).unwrap(), (0, 1));
    assert_eq!(read_varint_from_slice(&[127]).unwrap(), (127, 1));
    assert_eq!(read_varint_from_slice(&[0x80, 0x01]).unwrap(), (128, 2));
}

#[test]
fn test_string_encoding() {
    let mut buf = Vec::new();
    write_string(&mut buf, "test").unwrap();
    assert_eq!(buf, vec![4, b't', b'e', b's', b't']);
}

#[test]
fn test_string_decoding() {
    let data = vec![4, b't', b'e', b's', b't'];
    assert_eq!(read_string(&data).unwrap(), "test");
}

#[test]
fn varint_round_trip_on_boundary_values() {
    for v in [0, 1, 127, 128, 255, 300, 2147483647, -1, -2147483648] {
        let bytes = encoded(v);
        assert!(!bytes.is_empty() && bytes.len() <= 5);
        assert_eq!(read_varint_from_slice(&bytes).unwrap(), (v, bytes.len()));
    }
}

#[test]
fn varint_known_encodings() {
    assert_eq!(encoded(1), vec![0x01]);
    assert_eq!(encoded(255), vec![0xFF, 0x01]);
    assert_eq!(encoded(300), vec![0xAC, 0x02]);
    assert_eq!(encoded(25565), vec![0xDD, 0xC7, 0x01]);
    assert_eq!(encoded(2097151), vec![0xFF, 0xFF, 0x7F]);
    assert_eq!(encoded(2147483647), vec![0xFF, 0xFF, 0xFF, 0xFF, 0x07]);
    assert_eq!(encoded(-1), vec![0xFF, 0xFF, 0xFF, 0xFF, 0x0F]);
    assert_eq!(encoded(-2147483648), vec![0x80, 0x80, 0x80, 0x80, 0x08]);
}

#[test]
fn varint_appends_to_what_the_buffer_holds() {
    let mut buf = vec![9, 9];
    write_varint(&mut buf, 300).unwrap();
    assert_eq!(buf, vec![9, 9, 0xAC, 0x02]);
}

#[test]
fn varint_decoding_ignores_what_follows() {
    assert_eq!(read_varint_from_slice(&[0xAC, 0x02, 0xFF, 0xFF]).unwrap(), (300, 2));
}

#[test]
fn varint_five_continuation_bytes_are_too_large() {
    assert_eq!(
        read_varint_from_slice(&[0x80, 0x80, 0x80, 0x80, 0x80]),
        Err(ProtocolError::VarIntTooLarge)
    );
    assert_eq!(
        read_varint_from_slice(&[0xFF, 0xFF, 0xFF, 0xFF, 0xFF, 0x01]),
        Err(ProtocolError::VarIntTooLarge)
    );
}

#[test]
fn varint_running_out_of_data() {
    assert_eq!(read_varint_from_slice(&[]), Err(ProtocolError::UnexpectedEndOfData));
    assert_eq!(read_varint_from_slice(&[0x80]), Err(ProtocolError::UnexpectedEndOfData));
    assert_eq!(
        read_varint_from_slice(&[0x80, 0x80, 0x80, 0x80]),
        Err(ProtocolError::UnexpectedEndOfData)
    );
}

#[test]
fn varint_fifth_byte_drops_bits_beyond_the_32nd() {
    assert_eq!(read_varint_from_slice(&[0xFF, 0xFF, 0xFF, 0xFF, 0x7F]).unwrap(), (-1, 5));
    assert_eq!(read_varint_from_slice(&[0x80, 0x80, 0x80, 0x80, 0x10]).unwrap(), (0, 5));
}

#[test]
fn process_varint_byte_steps() {
    let mut result = 0;
    let mut shift = 0;
    assert_eq!(process_varint_byte(0xAC, &mut result, &mut shift), Ok(false));
    assert_eq!((result, shift), (0x2C, 7));
    assert_eq!(process_varint_byte(0x02, &mut result, &mut shift), Ok(true));
    assert_eq!((result, shift), (300, 7));

    let mut result = 0;
    let mut shift = 28;
    assert_eq!(
        process_varint_byte(0x81, &mut result, &mut shift),
        Err(ProtocolError::VarIntTooLarge)
    );
    assert_eq!((result, shift), (0x1000_0000, 35));
}

#[test]
fn string_round_trip_ascii_and_multibyte() {
    for s in ["", "test", "localhost", "héllo wörld", "日本語", "💖 server"] {
        let mut buf = Vec::new();
        write_string(&mut buf, s).unwrap();
        assert_eq!(buf.len(), encoded(s.len() as i32).len() + s.len());
        assert_eq!(read_string(&buf).unwrap(), s);
    }
}

#[test]
fn string_length_counts_bytes_not_characters() {
    let mut buf = Vec::new();
    write_string(&mut buf, "é").unwrap();
    assert_eq!(buf, vec![2, 0xC3, 0xA9]);
}

#[test]
fn string_longer_than_one_length_byte() {
    let s = "a".repeat(200);
    let mut buf = Vec::new();
    write_string(&mut buf, &s).unwrap();
    assert_eq!(&buf[..2], &[0xC8, 0x01]);
    assert_eq!(read_string(&buf).unwrap(), s);
}

#[test]
fn string_truncated() {
    assert_eq!(read_string(&[5, b't', b'e', b's', b't']), Err(ProtocolError::TruncatedString));
    assert_eq!(read_string(&[1]), Err(ProtocolError::TruncatedString));
}

#[test]
fn string_negative_length_is_truncated() {
    assert_eq!(
        read_string(&[0xFF, 0xFF, 0xFF, 0xFF, 0x0F, b'a']),
        Err(ProtocolError::TruncatedString)
    );
}

#[test]
fn string_with_malformed_length() {
    assert_eq!(read_string(&[]), Err(ProtocolError::UnexpectedEndOfData));
    assert_eq!(
        read_string(&[0x80, 0x80, 0x80, 0x80, 0x80, 0x00]),
        Err(ProtocolError::VarIntTooLarge)
    );
}

#[test]
fn string_invalid_utf8_is_replaced() {
    assert_eq!(read_string(&[3, b'a', 0xFF, b'b']).unwrap(), "a\u{FFFD}b");
}

#[test]
fn string_ignores_trailing_bytes() {
    assert_eq!(read_string(&[2, b'o', b'k', b'!', b'!']).unwrap(), "ok");
}

#[test]
fn frame_prefixes_the_payload_length() {
    assert_eq!(frame_packet(&[]), vec![0]);
    assert_eq!(frame_packet(&[0x00]), vec![1, 0x00]);
    let payload = vec![7u8; 130];
    let framed = frame_packet(&payload);
    assert_eq!(&framed[..2], &[0x82, 0x01]);
    assert_eq!(&framed[2..], &payload[..]);
}
