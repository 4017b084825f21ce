//! The class of a message, and its two bits in the message type field.
//!
//! ```text
//!  13 12 11 10  9  8  7  6  5  4  3  2  1  0
//! +--+--+--+--+--+--+--+--+--+--+--+--+--+--+
//! |M |M |M |M |M |C |M |M |M |C |M |M |M |M |
//! |11|10|9 |8 |7 |1 |6 |5 |4 |0 |3 |2 |1 |0 |
//! +--+--+--+--+--+--+--+--+--+--+--+--+--+--+
//! ```
//!
//! `C1` and `C0` are the class, `M11` to `M0` the method.

use vstd::prelude::*;
use vstd::std_specs::convert::FromSpecImpl;
use crate::error::Error;

verus! {

#[derive(Debug, Clone, Copy, PartialEq, Eq, Structural)]
pub enum Class {
    Request,
    Indication,
    SuccessResponse,
    FailureResponse,
}

/// The number of a class, from 0 to 3.
pub open spec fn class_code(class: Class) -> u16 {
    match class {
        Class::Request => 0,
        Class::Indication => 1,
        Class::SuccessResponse => 2,
        Class::FailureResponse => 3,
    }
}

/// The class bits of a message type field: `C0` at bit 4 and `C1` at bit 8.
pub open spec fn class_bits(class: Class) -> u16 {
    match class {
        Class::Request => 0x000,
        Class::Indication => 0x010,
        Class::SuccessResponse => 0x100,
        Class::FailureResponse => 0x110,
    }
}

/// The class that a message type field carries, whatever its other bits are.
pub open spec fn class_of_field(field: u16) -> Class {
    let c0 = (field >> 4) & 1 == 1;
    let c1 = (field >> 8) & 1 == 1;
    if c1 {
        if c0 { Class::FailureResponse } else { Class::SuccessResponse }
    } else {
        if c0 { Class::Indication } else { Class::Request }
    }
}

/// The class with a given number, if the number is one of 0 to 3.
pub open spec fn class_from_code(code: u16) -> Option<Class> {
    if code == 0 {
        Some(Class::Request)
    } else if code == 1 {
        Some(Class::Indication)
    } else if code == 2 {
        Some(Class::SuccessResponse)
    } else if code == 3 {
        Some(Class::FailureResponse)
    } else {
        None
    }
}

impl Class {
    /// The number of this class.
    pub fn code(&self) -> (code: u16)
        ensures
            code == class_code(*self),
    {
        match self {
            Class::Request => 0,
            Class::Indication => 1,
            Class::SuccessResponse => 2,
            Class::FailureResponse => 3,
        }
    }

    /// The class with the given number, or `None` where the number is above 3.
    pub fn from_code(code: u16) -> (class: Option<Class>)
        ensures
            class == class_from_code(code),
    {
        match code {
            0 => Some(Class::Request),
            1 => Some(Class::Indication),
            2 => Some(Class::SuccessResponse),
            3 => Some(Class::FailureResponse),
            _ => None,
        }
    }

    /// The class bits of a message type field, all method bits zero.
    pub fn encode(&self) -> (field: u16)
        ensures
            field == class_bits(*self),
    {
        let class: u16 = self.code();
        let class_part_0: u16 = (class & 0x1) << 4;
        let class_part_1: u16 = (class & 0x2) << 7;
        assert(class < 4 ==> ((class & 0x1) << 4) | ((class & 0x2) << 7) == (if class == 0 {
            0x000u16
        } else if class == 1 {
            0x010u16
        } else if class == 2 {
            0x100u16
        } else {
            0x110u16
        })) by (bit_vector);
        class_part_0 | class_part_1
    }

    /// Reads the class out of a message type field. The method bits are not
    /// looked at, so this succeeds on every field.
    pub fn decode(value: u16) -> (class: Result<Class, Error>)
        ensures
            class == Ok::<Class, Error>(class_of_field(value)),
    {
        let class_part_0: u16 = (value >> 4) & 0x1;
        let class_part_1: u16 = (value >> 7) & 0x2;
        assert({
            &&& ((value >> 4) & 0x1) <= 1
            &&& ((value >> 8) & 0x1) <= 1
            &&& ((value >> 7) & 0x2) == 2 * ((value >> 8) & 0x1)
        }) by (bit_vector);
        let class: u16 = class_part_0 + class_part_1;
        if class == 0 {
            Ok(Class::Request)
        } else if class == 1 {
            Ok(Class::Indication)
        } else if class == 2 {
            Ok(Class::SuccessResponse)
        } else {
            Ok(Class::FailureResponse)
        }
    }
}

impl From<&Class> for u16 {
    fn from(value: &Class) -> (code: u16) {
        value.code()
    }
}

impl FromSpecImpl<&Class> for u16 {
    open spec fn obeys_from_spec() -> bool {
        true
    }

    open spec fn from_spec(value: &Class) -> u16 {
        class_code(*value)
    }
}

/// Decoding the class bits of a class gives that class back, whatever bits
/// stand at the method's positions beside them.
pub proof fn lemma_class_roundtrip(class: Class, method_bits: u16)
    requires
        method_bits & 0x0110 == 0,
    ensures
        class_of_field(class_bits(class) | method_bits) == class,
{
    let bits = class_bits(class);
    assert(bits & 0x0110 == bits ==> {
        &&& ((bits | method_bits) >> 4) & 1 == (bits >> 4) & 1
        &&& ((bits | method_bits) >> 8) & 1 == (bits >> 8) & 1
    }) by (bit_vector)
        requires
            method_bits & 0x0110 == 0,
    ;
    assert(0x000u16 & 0x0110 == 0x000 && (0x000u16 >> 4) & 1 == 0 && (0x000u16 >> 8) & 1 == 0
        && 0x010u16 & 0x0110 == 0x010 && (0x010u16 >> 4) & 1 == 1 && (0x010u16 >> 8) & 1 == 0
        && 0x100u16 & 0x0110 == 0x100 && (0x100u16 >> 4) & 1 == 0 && (0x100u16 >> 8) & 1 == 1
        && 0x110u16 & 0x0110 == 0x110 && (0x110u16 >> 4) & 1 == 1 && (0x110u16 >> 8) & 1 == 1)
        by (bit_vector);
}

} // verus!
