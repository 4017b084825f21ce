use bytes::{Bytes, BytesMut};
use stun_server::{Address, Attribute, Class, Error, Message, Method, TransactionId};

const BINDING_REQUEST: &[u8; 20] =
    b"\0\x01\0\0!\x12\xa4B\xb0\xb8?\0\xda\x0c\xa2\xc3(\xe1\xf2\x85";
const BINDING_RESPONSE: &[u8; 20] = b"\x01\x01\0\0!\x12\xa4B\xc3>bhW \xc0\x8e\xd8\xf1y\x88";

fn binding_request() -> Message {
    Message {
        class: Class::Request,
        method: Method::Binding,
        transaction_id: TransactionId([176, 184, 63, 0, 218, 12, 162, 195, 40, 225, 242, 133]),
        attributes: vec![],
    }
}

fn binding_response() -> Message {
    Message {
        class: Class::SuccessResponse,
        method: Method::Binding,
        transaction_id: TransactionId([195, 62, 98, 104, 87, 32, 192, 142, 216, 241, 121, 136]),
        attributes: vec![],
    }
}

fn sample_id() -> TransactionId {
    TransactionId([183, 231, 167, 1, 188, 52, 214, 134, 250, 135, 223, 174])
}

fn encoded(message: &Message) -> Vec<u8> {
    assert!(message.is_valid());
    let mut buffer = BytesMut::new();
    message.encode(&mut buffer);
    assert_eq!(message.to_bytes(), Some(buffer.to_vec()));
    buffer.to_vec()
}

#[test]
fn it_encodes_a_binding_request() {
    let mut buffer = BytesMut::new();
    let message = binding_request();
    message.encode(&mut buffer);

    let mut expected_buffer = BytesMut::with_capacity(0);
    expected_buffer.extend_from_slice(BINDING_REQUEST);

    assert_eq!(buffer, expected_buffer);
}

#[test]
fn it_encodes_a_binding_response() {
    let mut buffer = BytesMut::new();
    let message = binding_response();
    message.encode(&mut buffer);

    let mut expected_buffer = BytesMut::with_capacity(0);
    expected_buffer.extend_from_slice(BINDING_RESPONSE);

    assert_eq!(buffer, expected_buffer);
}

#[test]
fn it_decodes_a_binding_request() {
    let mut encoded = Bytes::copy_from_slice(BINDING_REQUEST);
    let message = Message::decode(&mut encoded).unwrap();
    let expected = binding_request();

    assert_eq!(message, expected);
}

#[test]
fn it_decodes_a_binding_response() {
    let mut encoded = Bytes::copy_from_slice(BINDING_RESPONSE);
    let message = Message::decode(&mut encoded).unwrap();
    let expected = binding_response();

    assert_eq!(message, expected);
}

#[test]
fn fixed_request_vector_decodes_field_by_field() {
    let bytes: [u8; 20] = [
        0x00, 0x01, 0x00, 0x00, 0x21, 0x12, 0xA4, 0x42, 0xB0, 0xB8, 0x3F, 0x00, 0xDA, 0x0C, 0xA2,
        0xC3, 0x28, 0xE1, 0xF2, 0x85,
    ];
    let mut buffer = Bytes::copy_from_slice(&bytes);
    let message = Message::decode(&mut buffer).unwrap();
    assert_eq!(message.class, Class::Request);
    assert_eq!(message.method, Method::Binding);
    assert_eq!(message.transaction_id.0, [176, 184, 63, 0, 218, 12, 162, 195, 40, 225, 242, 133]);
    assert!(message.attributes.is_empty());
    assert_eq!(buffer.len(), 0);
}

#[test]
fn fixed_response_vector_decodes_field_by_field() {
    let bytes: [u8; 20] = [
        0x01, 0x01, 0x00, 0x00, 0x21, 0x12, 0xA4, 0x42, 0xC3, 0x3E, 0x62, 0x68, 0x57, 0x20, 0xC0,
        0x8E, 0xD8, 0xF1, 0x79, 0x88,
    ];
    let mut buffer = Bytes::copy_from_slice(&bytes);
    let message = Message::decode(&mut buffer).unwrap();
    assert_eq!(message.class, Class::SuccessResponse);
    assert_eq!(message.method, Method::Binding);
    assert_eq!(message.transaction_id.0, [195, 62, 98, 104, 87, 32, 192, 142, 216, 241, 121, 136]);
    assert!(message.attributes.is_empty());
}

#[test]
fn a_wrong_magic_cookie_is_refused() {
    for at in 4..8 {
        let mut bytes = *BINDING_REQUEST;
        bytes[at] ^= 0x01;
        let mut buffer = Bytes::copy_from_slice(&bytes);
        assert_eq!(Message::decode(&mut buffer), Err(Error::BadMagicCookie));
        assert_eq!(&buffer[..], &bytes[..]);
    }
}

#[test]
fn fewer_than_twenty_bytes_are_too_short() {
    for length in 0..20 {
        let mut buffer = Bytes::copy_from_slice(&BINDING_REQUEST[..length]);
        assert_eq!(Message::decode(&mut buffer), Err(Error::TooShort));
        assert_eq!(buffer.len(), length);
    }
}

#[test]
fn an_unsupported_method_is_refused_before_the_cookie_is_read() {
    let mut bytes = *BINDING_REQUEST;
    bytes[1] = 0x02;
    let mut buffer = Bytes::copy_from_slice(&bytes);
    assert_eq!(Message::decode(&mut buffer), Err(Error::UnsupportedMethod(2)));

    bytes[4] = 0;
    let mut buffer = Bytes::copy_from_slice(&bytes);
    assert_eq!(Message::decode(&mut buffer), Err(Error::UnsupportedMethod(2)));
    assert_eq!(buffer.len(), 20);
}

#[test]
fn a_buffer_shorter_than_the_announced_section_is_an_underrun() {
    let mut bytes = BINDING_REQUEST.to_vec();
    bytes[3] = 8;
    bytes.extend_from_slice(&[0x00, 0x06, 0x00, 0x03, b'a', b'b', b'c']);
    let mut buffer = Bytes::copy_from_slice(&bytes);
    assert_eq!(Message::decode(&mut buffer), Err(Error::AttributeUnderrun));
    assert_eq!(buffer.len(), 27);
}

#[test]
fn a_record_that_crosses_the_end_of_the_section_is_an_overrun() {
    // the section is 8 bytes, the record in it claims a value of 5 (8 padded)
    let mut bytes = BINDING_REQUEST.to_vec();
    bytes[3] = 8;
    bytes.extend_from_slice(&[0x00, 0x06, 0x00, 0x05, b'a', b'b', b'c', b'd', b'e', 0, 0, 0]);
    let mut buffer = Bytes::copy_from_slice(&bytes);
    assert_eq!(Message::decode(&mut buffer), Err(Error::AttributeOverrun));
    assert_eq!(buffer.len(), 32);

    // a section of 6 bytes leaves 2 after its first record: no room for a header
    let mut bytes = BINDING_REQUEST.to_vec();
    bytes[3] = 6;
    bytes.extend_from_slice(&[0x00, 0x06, 0x00, 0x00, 0x00, 0x07]);
    let mut buffer = Bytes::copy_from_slice(&bytes);
    assert_eq!(Message::decode(&mut buffer), Err(Error::AttributeOverrun));
}

#[test]
fn an_unknown_comprehension_required_attribute_is_reported() {
    let mut bytes = BINDING_REQUEST.to_vec();
    bytes[3] = 12;
    bytes.extend_from_slice(&[0x00, 0x06, 0x00, 0x02, b'h', b'i', 0, 0]);
    bytes.extend_from_slice(&[0x7F, 0xFF, 0x00, 0x00]);
    let mut buffer = Bytes::copy_from_slice(&bytes);
    assert_eq!(Message::decode(&mut buffer), Err(Error::ComprehensionRequiredUnknown(0x7FFF)));
    assert_eq!(buffer.len(), 32);
}

#[test]
fn an_unknown_comprehension_optional_attribute_does_not_stop_the_reading() {
    let mut bytes = BINDING_REQUEST.to_vec();
    bytes[3] = 16;
    bytes.extend_from_slice(&[0x80, 0x00, 0x00, 0x03, 9, 8, 7, 0]);
    bytes.extend_from_slice(&[0x00, 0x07, 0x00, 0x02, b'p', b'w', 0, 0]);
    let mut buffer = Bytes::copy_from_slice(&bytes);
    let message = Message::decode(&mut buffer).unwrap();
    assert_eq!(
        message.attributes,
        vec![
            Attribute::Unknown { type_code: 0x8000, value: vec![9, 8, 7] },
            Attribute::Password(b"pw".to_vec()),
        ]
    );
}

#[test]
fn decoding_stops_where_the_message_ends() {
    let mut bytes = BINDING_RESPONSE.to_vec();
    bytes[3] = 8;
    bytes.extend_from_slice(&[0x00, 0x06, 0x00, 0x03, b'a', b'b', b'c', 0]);
    bytes.extend_from_slice(&[0xDE, 0xAD, 0xBE]);
    let mut buffer = Bytes::copy_from_slice(&bytes);
    let message = Message::decode(&mut buffer).unwrap();
    assert_eq!(message.attributes, vec![Attribute::Username(b"abc".to_vec())]);
    assert_eq!(&buffer[..], &[0xDE, 0xAD, 0xBE]);
}

#[test]
fn a_message_with_every_kind_of_attribute_round_trips() {
    let message = Message::binding_response(
        vec![
            Attribute::XorMappedAddress(Address::ipv4([192, 0, 2, 1], 32853)),
            Attribute::Username(b"evtj:h6vY".to_vec()),
            Attribute::Password(vec![]),
            Attribute::ErrorCode { code: 0x0000_0414, reason: b"Unknown Attribute".to_vec() },
            Attribute::UnknownAttributes(vec![0x0001, 0x7F00, 0xFFFF]),
            Attribute::XorMappedAddress(Address::ipv6(
                [32, 1, 13, 184, 18, 52, 86, 120, 0, 17, 34, 51, 68, 85, 102, 119],
                443,
            )),
            Attribute::Unknown { type_code: 0x8022, value: b"test vector".to_vec() },
            Attribute::FingerPrint(vec![0xE5, 0x7A, 0x3B, 0xCF]),
        ],
        sample_id(),
    );
    let bytes = encoded(&message);
    assert_eq!(bytes.len() % 4, 0);
    assert_eq!(usize::from(bytes[2]) * 256 + usize::from(bytes[3]), bytes.len() - 20);

    let mut buffer = Bytes::from(bytes);
    let decoded = Message::decode(&mut buffer).unwrap();
    assert_eq!(decoded, message);
    assert_eq!(buffer.len(), 0);
}

#[test]
fn the_header_length_field_counts_the_padded_records() {
    let message = Message::binding_response(
        vec![Attribute::Username(b"abc".to_vec()), Attribute::Password(b"12345".to_vec())],
        sample_id(),
    );
    let bytes = encoded(&message);
    let mut expected = vec![0x01, 0x01, 0x00, 0x14, 0x21, 0x12, 0xA4, 0x42];
    expected.extend_from_slice(&sample_id().0);
    expected.extend_from_slice(&[0x00, 0x06, 0x00, 0x03, b'a', b'b', b'c', 0]);
    expected.extend_from_slice(&[0x00, 0x07, 0x00, 0x05, b'1', b'2', b'3', b'4', b'5', 0, 0, 0]);
    assert_eq!(bytes, expected);
}

#[test]
fn encoding_appends_to_what_the_buffer_holds() {
    let mut buffer = BytesMut::new();
    buffer.extend_from_slice(&[0xAA, 0xBB]);
    binding_request().encode(&mut buffer);
    assert_eq!(&buffer[..2], &[0xAA, 0xBB]);
    assert_eq!(&buffer[2..], &BINDING_REQUEST[..]);
}

#[test]
fn a_binding_request_has_a_fresh_transaction_id() {
    let first = Message::binding_request(vec![]);
    let second = Message::binding_request(vec![Attribute::Username(b"u".to_vec())]);
    assert_eq!(first.class, Class::Request);
    assert_eq!(first.method, Method::Binding);
    assert!(first.attributes.is_empty());
    assert_eq!(second.attributes, vec![Attribute::Username(b"u".to_vec())]);
    assert_ne!(first.transaction_id, second.transaction_id);

    let bytes = encoded(&first);
    assert_eq!(&bytes[..8], &[0x00, 0x01, 0x00, 0x00, 0x21, 0x12, 0xA4, 0x42]);
    assert_eq!(&bytes[8..], &first.transaction_id.0);
}

#[test]
fn a_binding_response_reuses_the_transaction_id_of_the_request() {
    let mut buffer = Bytes::copy_from_slice(BINDING_REQUEST);
    let request = Message::decode(&mut buffer).unwrap();
    let response = Message::binding_response(
        vec![Attribute::XorMappedAddress(Address::ipv4([127, 0, 0, 1], 3478))],
        request.transaction_id,
    );
    assert_eq!(response.class, Class::SuccessResponse);
    assert_eq!(response.method, Method::Binding);
    assert_eq!(response.transaction_id, request.transaction_id);

    let bytes = encoded(&response);
    assert_eq!(&bytes[8..20], &BINDING_REQUEST[8..20]);
    let mut buffer = Bytes::from(bytes);
    assert_eq!(Message::decode(&mut buffer).unwrap(), response);
}

#[test]
fn a_message_that_cannot_be_sent_is_not_valid() {
    // 16 records of 4096 bytes are 65536 bytes: one too many for the length field
    let big = Attribute::Username(vec![0x61; 4092]);
    let mut attributes = vec![big.clone(); 15];
    attributes.push(Attribute::Username(vec![0x61; 4088]));
    let fits = Message::binding_response(attributes.clone(), sample_id());
    assert!(fits.is_valid());
    let bytes = encoded(&fits);
    assert_eq!(bytes.len(), 20 + 65532);
    assert_eq!(&bytes[2..4], &[0xFF, 0xFC]);
    let mut buffer = Bytes::from(bytes);
    assert_eq!(Message::decode(&mut buffer).unwrap(), fits);

    attributes.push(Attribute::Password(vec![]));
    let too_long = Message::binding_response(attributes, sample_id());
    assert!(!too_long.is_valid());
    assert_eq!(too_long.to_bytes(), None);

    let bad_address = Message::binding_response(
        vec![Attribute::XorMappedAddress(Address {
            address: vec![10, 0, 0],
            port: 1,
            ip_kind: stun_server::IPKind::IPv4,
        })],
        sample_id(),
    );
    assert!(!bad_address.is_valid());
}

#[test]
fn to_bytes_gives_the_fixed_vectors() {
    assert_eq!(binding_request().to_bytes(), Some(BINDING_REQUEST.to_vec()));
    assert_eq!(binding_response().to_bytes(), Some(BINDING_RESPONSE.to_vec()));
}

#[test]
fn the_two_top_bits_of_the_type_field_are_not_looked_at() {
    let mut bytes = *BINDING_REQUEST;
    bytes[0] = 0xC1;
    let mut buffer = Bytes::copy_from_slice(&bytes);
    let message = Message::decode(&mut buffer).unwrap();
    assert_eq!(message.class, Class::SuccessResponse);
    assert_eq!(message.method, Method::Binding);
}
