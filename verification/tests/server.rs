use bytes::{Bytes, BytesMut};
use stun_server::server::respond;
use stun_server::{Address, Attribute, Class, Message, Method, TransactionId};

fn message_of_class(class: Class) -> Message {
    Message {
        class,
        method: Method::Binding,
        transaction_id: TransactionId([176, 184, 63, 0, 218, 12, 162, 195, 40, 225, 242, 133]),
        attributes: vec![Attribute::Username(b"user".to_vec())],
    }
}

#[test]
fn a_binding_request_is_answered_with_the_source_address() {
    let request = message_of_class(Class::Request);
    let source = Address::ipv4([203, 0, 113, 7], 54321);
    let response = respond(&request, source.clone()).unwrap();
    assert_eq!(
        response,
        Message {
            class: Class::SuccessResponse,
            method: Method::Binding,
            transaction_id: request.transaction_id,
            attributes: vec![Attribute::XorMappedAddress(source)],
        }
    );
    assert!(response.is_valid());

    let mut buffer = BytesMut::new();
    response.encode(&mut buffer);
    let mut expected = vec![0x01, 0x01, 0x00, 0x0C, 0x21, 0x12, 0xA4, 0x42];
    expected.extend_from_slice(&request.transaction_id.0);
    expected.extend_from_slice(&[0x00, 0x20, 0x00, 0x08, 0x00, 0x01]);
    expected.extend_from_slice(&[0xD4 ^ 0x21, 0x31 ^ 0x12]);
    expected.extend_from_slice(&[203 ^ 0x21, 0x12, 113 ^ 0xA4, 7 ^ 0x42]);
    assert_eq!(buffer.to_vec(), expected);
}

#[test]
fn an_ipv6_source_is_answered_too() {
    let request = message_of_class(Class::Request);
    let source = Address::ipv6([0, 0, 0, 0, 0, 0, 0, 0, 0, 0, 0, 0, 0, 0, 0, 1], 3478);
    let response = respond(&request, source.clone()).unwrap();
    assert!(response.is_valid());
    let mut buffer = BytesMut::new();
    response.encode(&mut buffer);
    assert_eq!(buffer.len(), 44);
    let mut bytes = Bytes::from(buffer.to_vec());
    let decoded = Message::decode(&mut bytes).unwrap();
    assert_eq!(decoded.attributes, vec![Attribute::XorMappedAddress(source)]);
    assert_eq!(decoded.transaction_id, request.transaction_id);
}

#[test]
fn only_requests_are_answered() {
    let source = Address::ipv4([203, 0, 113, 7], 54321);
    for class in [Class::Indication, Class::SuccessResponse, Class::FailureResponse] {
        assert_eq!(respond(&message_of_class(class), source.clone()), None);
    }
}
