use bca_protocol::communication::encode_frame;
use bca_protocol::communication::decode_frame;
use bca_protocol::communication::CBCATcpError;
use bca_protocol::communication::CBCATcpPayload;
use bca_protocol::communication::CBCATcpPayloadType;

#[test]
fn round_trip_all_kinds() {
    let kinds = [
        CBCATcpPayloadType::Error,
        CBCATcpPayloadType::Data,
        CBCATcpPayloadType::Debug,
        CBCATcpPayloadType::Reqwest,
    ];
    for kind in kinds {
        let bytes = encode_frame(kind, "hello world".to_string()).unwrap();
        let (t, content) = decode_frame(&bytes, kind).unwrap();
        assert_eq!(t, kind);
        assert_eq!(content, "hello world");
    }
}

#[test]
fn round_trip_empty_content() {
    let bytes = encode_frame(CBCATcpPayloadType::Data, String::new()).unwrap();
    assert_eq!(bytes.len(), 8);
    let (t, content) = decode_frame(&bytes, CBCATcpPayloadType::Data).unwrap();
    assert_eq!(t, CBCATcpPayloadType::Data);
    assert_eq!(content, "");
}

#[test]
fn round_trip_multibyte_content() {
    let text = "héllo — ☃ world";
    let bytes = encode_frame(CBCATcpPayloadType::Reqwest, text.to_string()).unwrap();
    let (_, content) = decode_frame(&bytes, CBCATcpPayloadType::Reqwest).unwrap();
    assert_eq!(content, text);
}

#[test]
fn encode_layout_and_padding() {
    let bytes = encode_frame(CBCATcpPayloadType::Data, "abc".to_string()).unwrap();
    // header: code "01", separator, five-digit length; body: one zero-padded chunk
    assert_eq!(&bytes[0..8], b"01000003");
    assert_eq!(&bytes[8..16], b"abc\0\0\0\0\0");
    assert_eq!(bytes.len(), 16);
}

#[test]
fn build_response_is_header_plus_raw_content() {
    let p = CBCATcpPayload::spawn(CBCATcpPayloadType::Data, "abc".to_string());
    let bytes = p.build_response();
    assert_eq!(&bytes, b"01000003abc");
}

#[test]
fn malformed_length_field() {
    // a length field that is not a numeral must fail as Malformed
    let mut data: Vec<u8> = Vec::new();
    data.extend_from_slice(b"010abcde");
    let r = decode_frame(&data, CBCATcpPayloadType::Data);
    assert_eq!(r, Err(CBCATcpError::Malformed));
}

#[test]
fn short_header_is_malformed() {
    let data: Vec<u8> = vec![48, 49, 48];
    let r = decode_frame(&data, CBCATcpPayloadType::Data);
    assert_eq!(r, Err(CBCATcpError::Malformed));
}

#[test]
fn unexpected_type_refused_but_error_passes() {
    let bytes = encode_frame(CBCATcpPayloadType::Data, "x".to_string()).unwrap();
    let r = decode_frame(&bytes, CBCATcpPayloadType::Reqwest);
    assert_eq!(r, Err(CBCATcpError::UnexpectedType));

    let err_bytes = encode_frame(CBCATcpPayloadType::Error, "boom".to_string()).unwrap();
    let (t, content) = decode_frame(&err_bytes, CBCATcpPayloadType::Reqwest).unwrap();
    assert_eq!(t, CBCATcpPayloadType::Error);
    assert_eq!(content, "boom");
}

#[test]
fn zero_bytes_inside_content_are_dropped() {
    // the documented limitation: a genuine zero byte is stripped with the padding
    let bytes = encode_frame(CBCATcpPayloadType::Data, "a\u{0}b".to_string()).unwrap();
    let (_, content) = decode_frame(&bytes, CBCATcpPayloadType::Data).unwrap();
    assert_eq!(content, "ab");
}

#[test]
fn oversized_content_is_refused() {
    let big = "x".repeat(100000);
    assert!(encode_frame(CBCATcpPayloadType::Data, big).is_none());
    let just_fits = "x".repeat(99999);
    assert!(encode_frame(CBCATcpPayloadType::Data, just_fits).is_some());
}

#[test]
fn type_codes_read_back() {
    assert!(CBCATcpPayloadType::from_str("00").is_error());
    assert!(CBCATcpPayloadType::from_str("01").is_data());
    assert!(CBCATcpPayloadType::from_str("02").is_debug());
    assert!(CBCATcpPayloadType::from_str("03").is_reqwest());
    assert!(CBCATcpPayloadType::from_str("04").is_unknown());
    assert!(CBCATcpPayloadType::from_str("7").is_unknown());
    assert!(CBCATcpPayloadType::from_str("").is_unknown());
}

#[test]
fn decode_response_reads_kind_and_tail() {
    let mut data: Vec<u8> = Vec::new();
    data.extend_from_slice(b"03000005hello");
    let p = CBCATcpPayload::decode_response(&data).unwrap();
    assert!(p.payload_type.is_reqwest());
    assert_eq!(p.payload_content, "hello");
}

#[test]
fn spawn_records_byte_length() {
    let p = CBCATcpPayload::spawn(CBCATcpPayloadType::Data, "héllo".to_string());
    assert_eq!(p.payload_size, 6);
}
