use stun_server::{Class, Method};

const BINGING_REQUEST: u16 = 0b000000000;
const BINGING_INDICATION_RESPONSE: u16 = 0b000010000;
const BINGING_SUCCESS: u16 = 0b100000000;
const BINGING_FAILURE_RESPONSE: u16 = 0b100010000;

#[test]
fn it_encodes_all_classes() {
    let encoded = Class::Request.encode();
    assert_eq!(encoded, BINGING_REQUEST);

    let encoded = Class::Indication.encode();
    assert_eq!(encoded, BINGING_INDICATION_RESPONSE);

    let encoded = Class::SuccessResponse.encode();
    assert_eq!(encoded, BINGING_SUCCESS);

    let encoded = Class::FailureResponse.encode();
    assert_eq!(encoded, BINGING_FAILURE_RESPONSE);
}

#[test]
fn it_decodes_all_classes() {
    let decoded = Class::decode(BINGING_REQUEST).unwrap();
    assert_eq!(decoded, Class::Request);

    let decoded = Class::decode(BINGING_INDICATION_RESPONSE).unwrap();
    assert_eq!(decoded, Class::Indication);

    let decoded = Class::decode(BINGING_SUCCESS).unwrap();
    assert_eq!(decoded, Class::SuccessResponse);

    let decoded = Class::decode(BINGING_FAILURE_RESPONSE).unwrap();
    assert_eq!(decoded, Class::FailureResponse);
}

#[test]
fn class_numbers_go_both_ways() {
    let classes = [
        (Class::Request, 0u16),
        (Class::Indication, 1),
        (Class::SuccessResponse, 2),
        (Class::FailureResponse, 3),
    ];
    for (class, code) in classes {
        assert_eq!(class.code(), code);
        assert_eq!(u16::from(&class), code);
        assert_eq!(Class::from_code(code), Some(class));
    }
    assert_eq!(Class::from_code(4), None);
    assert_eq!(Class::from_code(0xFFFF), None);
}

#[test]
fn class_decoding_ignores_the_method_bits() {
    // every bit set but C0: C1 alone decides
    assert_eq!(Class::decode(0xFFEF).unwrap(), Class::SuccessResponse);
    // every bit set but C1
    assert_eq!(Class::decode(0xFEFF).unwrap(), Class::Indication);
    assert_eq!(Class::decode(0xFFFF).unwrap(), Class::FailureResponse);
    assert_eq!(Class::decode(0xFEEF).unwrap(), Class::Request);
}

#[test]
fn header_field_round_trips_for_every_class() {
    let expected = [
        (Class::Request, 0x0001u16),
        (Class::Indication, 0x0011),
        (Class::SuccessResponse, 0x0101),
        (Class::FailureResponse, 0x0111),
    ];
    for (class, field) in expected {
        let encoded = class.encode() | Method::Binding.encode();
        assert_eq!(encoded, field);
        assert_eq!(encoded & 0xC000, 0);
        assert_eq!(Class::decode(encoded).unwrap(), class);
        assert_eq!(Method::decode(encoded).unwrap(), Method::Binding);
    }
}
