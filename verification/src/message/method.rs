//! The method of a message, and its twelve bits in the message type field.
//!
//! The method number is split in three groups that leave room for the two
//! class bits: `M0`-`M3` stand at bits 0-3 of the field, `M4`-`M6` at bits 5-7
//! and `M7`-`M11` at bits 9-13.

use vstd::prelude::*;
use vstd::std_specs::convert::FromSpecImpl;
use crate::error::Error;

verus! {

#[derive(Debug, Clone, Copy, PartialEq, Eq, Structural)]
pub enum Method {
    Binding,
}

/// The twelve-bit number of a method.
pub open spec fn method_code(method: Method) -> u16 {
    match method {
        Method::Binding => 0x001,
    }
}

/// The method with a given number, if there is one.
pub open spec fn method_from_code(code: u16) -> Option<Method> {
    if code == 0x001 {
        Some(Method::Binding)
    } else {
        None
    }
}

/// A twelve-bit method number spread over the method positions of a message
/// type field; the class positions and the two top bits are zero.
pub open spec fn spread_method(code: u16) -> u16 {
    (code & 0x000F) | ((code & 0x0070) << 1) | ((code & 0x0F80) << 2)
}

/// The twelve-bit method number that a message type field carries, whatever
/// its other bits are.
pub open spec fn gather_method(field: u16) -> u16 {
    (field & 0x000F) | ((field >> 1) & 0x0070) | ((field >> 2) & 0x0F80)
}

/// What decoding the method of a message type field gives.
pub open spec fn method_of_field(field: u16) -> Result<Method, Error> {
    match method_from_code(gather_method(field)) {
        Some(method) => Ok(method),
        None => Err(Error::UnsupportedMethod(gather_method(field))),
    }
}

impl Method {
    /// The number of this method.
    pub fn code(&self) -> (code: u16)
        ensures
            code == method_code(*self),
    {
        match self {
            Method::Binding => 0x001,
        }
    }

    /// The method with the given number, or `None` where no method has it.
    pub fn from_code(code: u16) -> (method: Option<Method>)
        ensures
            method == method_from_code(code),
    {
        if code == 0x001 {
            Some(Method::Binding)
        } else {
            None
        }
    }

    /// The method bits of a message type field, both class bits zero.
    pub fn encode(&self) -> (field: u16)
        ensures
            field == spread_method(method_code(*self)),
            field & 0xC110 == 0,
    {
        let method: u16 = self.code() & 0xFFF;
        let method_part_0_3: u16 = method & 0x000F;
        let method_part_4_6: u16 = (method & 0x0070) << 1;
        let method_part_7_11: u16 = (method & 0x0F80) << 2;
        let code = self.code();
        assert({
            &&& (code & 0xFFF) & 0x000F == code & 0x000F
            &&& (code & 0xFFF) & 0x0070 == code & 0x0070
            &&& (code & 0xFFF) & 0x0F80 == code & 0x0F80
            &&& ((code & 0x000F) | ((code & 0x0070) << 1) | ((code & 0x0F80) << 2)) & 0xC110 == 0
        }) by (bit_vector);
        method_part_0_3 | method_part_4_6 | method_part_7_11
    }

    /// Reads the method out of a message type field. The class bits are not
    /// looked at. A method number other than that of Binding is reported, with
    /// the number, and never accepted.
    pub fn decode(value: u16) -> (method: Result<Method, Error>)
        ensures
            method == method_of_field(value),
    {
        let method_part_0_3: u16 = value & 0xf;
        let method_part_4_6: u16 = (value >> 1) & 0x70;
        let method_part_7_11: u16 = (value >> 2) & 0xf80;
        let method: u16 = method_part_0_3 | method_part_4_6 | method_part_7_11;
        match Method::from_code(method) {
            Some(m) => Ok(m),
            None => Err(Error::UnsupportedMethod(method)),
        }
    }
}

impl From<&Method> for u16 {
    fn from(value: &Method) -> (code: u16) {
        value.code()
    }
}

impl FromSpecImpl<&Method> for u16 {
    open spec fn obeys_from_spec() -> bool {
        true
    }

    open spec fn from_spec(value: &Method) -> u16 {
        method_code(*value)
    }
}

/// Gathering the method bits of a spread twelve-bit number gives the number
/// back, whatever stands at the class positions and in the two top bits.
pub proof fn lemma_method_bits_roundtrip(code: u16, other_bits: u16)
    requires
        code <= 0x0FFF,
        other_bits & 0x3EEF == 0,
    ensures
        gather_method(spread_method(code) | other_bits) == code,
{
    assert(gather_method(spread_method(code) | other_bits) == code) by (bit_vector)
        requires
            code <= 0x0FFF,
            other_bits & 0x3EEF == 0,
    ;
}

/// Decoding the method bits of a method gives that method back, whatever
/// stands at the class positions and in the two top bits.
pub proof fn lemma_method_roundtrip(method: Method, other_bits: u16)
    requires
        other_bits & 0x3EEF == 0,
    ensures
        method_of_field(spread_method(method_code(method)) | other_bits) == Ok::<Method, Error>(
            method,
        ),
{
    lemma_method_bits_roundtrip(method_code(method), other_bits);
}

} // verus!
