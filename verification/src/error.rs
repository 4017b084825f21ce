//! The failures that decoding can report.

use vstd::prelude::*;

verus! {

/// Why a sequence of bytes was not accepted as a message or as a part of one.
#[derive(Debug, Clone, Copy, PartialEq, Eq, Structural)]
pub enum Error {
    /// Fewer bytes are available than the fixed-size field being read needs.
    TooShort,
    /// The four bytes after the length field are not the magic cookie.
    BadMagicCookie,
    /// The message type carries a method other than Binding; the payload is
    /// the twelve-bit method number that was found.
    UnsupportedMethod(u16),
    /// An attribute record would extend past the end of the attribute section.
    AttributeOverrun,
    /// The buffer ends before the attribute section that the header announces.
    AttributeUnderrun,
    /// An attribute of the comprehension-required range has a type code that is
    /// not recognized; the payload is that type code.
    ComprehensionRequiredUnknown(u16),
    /// The value of an address attribute does not describe an address.
    AddressParse,
}

} // verus!
