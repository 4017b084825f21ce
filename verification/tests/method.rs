use stun_server::{Error, Method};

#[test]
fn it_encodes_all_methods() {
    let encoded = Method::Binding.encode();
    assert_eq!(encoded, (&Method::Binding).into());
}

#[test]
fn it_decodes_all_methods() {
    let decoded = Method::decode((&Method::Binding).into()).unwrap();
    assert_eq!(decoded, Method::Binding);
}

#[test]
fn a_non_binding_method_is_refused_with_its_number() {
    assert_eq!(Method::decode(0x0002), Err(Error::UnsupportedMethod(0x002)));
    assert_eq!(Method::decode(0x0000), Err(Error::UnsupportedMethod(0x000)));
    assert_eq!(Method::from_code(0x002), None);
    assert_eq!(Method::from_code(0x001), Some(Method::Binding));
}

#[test]
fn method_bits_are_gathered_around_the_class_bits() {
    // M4 stands at bit 5, M7 at bit 9, M11 at bit 13
    assert_eq!(Method::decode(0x0020), Err(Error::UnsupportedMethod(0x010)));
    assert_eq!(Method::decode(0x0200), Err(Error::UnsupportedMethod(0x080)));
    assert_eq!(Method::decode(0x2000), Err(Error::UnsupportedMethod(0x800)));
    // all twelve method bits set, both class bits clear
    assert_eq!(Method::decode(0x3EEF), Err(Error::UnsupportedMethod(0xFFF)));
    // the class bits and the two top bits are not part of the method
    assert_eq!(Method::decode(0xC111).unwrap(), Method::Binding);
}

#[test]
fn method_number_of_binding_is_one() {
    assert_eq!(Method::Binding.code(), 0x001);
    let code: u16 = (&Method::Binding).into();
    assert_eq!(code, 0x001);
    assert_eq!(Method::Binding.encode(), 0x0001);
}
