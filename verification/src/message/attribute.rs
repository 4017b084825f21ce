//! Attributes: the type-length-value records that follow the header.
//!
//! ```text
//!  0                   1                   2                   3
//!  0 1 2 3 4 5 6 7 8 9 0 1 2 3 4 5 6 7 8 9 0 1 2 3 4 5 6 7 8 9 0 1
//! +-+-+-+-+-+-+-+-+-+-+-+-+-+-+-+-+-+-+-+-+-+-+-+-+-+-+-+-+-+-+-+-+
//! |         Type                  |            Length             |
//! +-+-+-+-+-+-+-+-+-+-+-+-+-+-+-+-+-+-+-+-+-+-+-+-+-+-+-+-+-+-+-+-+
//! |                         Value (variable)                ....
//! +-+-+-+-+-+-+-+-+-+-+-+-+-+-+-+-+-+-+-+-+-+-+-+-+-+-+-+-+-+-+-+-+
//! ```
//!
//! The length counts the value before padding. The value is followed by zero
//! to three padding bytes, so that every record ends on a 32-bit boundary.
//! Type codes below `0x8000` must be understood by the receiver; those from
//! `0x8000` on may be skipped.

use vstd::prelude::*;
use vstd::slice::{slice_subrange, slice_to_vec};
use bytes::{Bytes, BytesMut};
use crate::buffer::{
    be16, be32, buffer_limit, duplicate, get_u16, lemma_u16_at_be16, lemma_u32_at_be32,
    put_slice, put_u16, remaining, split_to, to_vec, u16_at, u32_at, unread, written,
};
use crate::error::Error;
use crate::message::message::MAGIC_COOKIE;
use crate::message::transaction_id::TransactionId;
use crate::utils::{address_length, Address, AddressView, IPKind};

verus! {

pub const USERNAME: u16 = 0x0006;

pub const PASSWORD: u16 = 0x0007;

pub const ERROR_CODE: u16 = 0x0009;

pub const UNKNOWN_ATTRIBUTES: u16 = 0x000A;

pub const XOR_MAPPED_ADDRESS: u16 = 0x0020;

pub const FINGERPRINT: u16 = 0x8028;

/// The first type code of the comprehension-optional range.
pub const COMPREHENSION_OPTIONAL: u16 = 0x8000;

/// The family byte of an IPv4 address.
pub const FAMILY_IPV4: u8 = 0x01;

/// The family byte of an IPv6 address.
pub const FAMILY_IPV6: u8 = 0x02;

/// The number of bytes of the type and length fields together.
pub const ATTRIBUTE_HEADER_LENGTH: usize = 4;

/// An attribute of a message.
///
/// Text is kept as the bytes that travel on the wire, and so is the
/// fingerprint. Of an error code only the layout is read: its first 32-bit
/// word and the reason that follows.
#[derive(Debug, Clone, PartialEq, Eq)]
pub enum Attribute {
    Username(Vec<u8>),
    Password(Vec<u8>),
    ErrorCode { code: u32, reason: Vec<u8> },
    FingerPrint(Vec<u8>),
    XorMappedAddress(Address),
    /// The type codes that the peer did not understand.
    UnknownAttributes(Vec<u16>),
    /// An attribute of any other type, with its value as it was received.
    Unknown { type_code: u16, value: Vec<u8> },
}

/// What an [`Attribute`] stands for in contracts.
pub enum AttributeView {
    Username(Seq<u8>),
    Password(Seq<u8>),
    ErrorCode { code: u32, reason: Seq<u8> },
    FingerPrint(Seq<u8>),
    XorMappedAddress(AddressView),
    UnknownAttributes(Seq<u16>),
    Unknown { type_code: u16, value: Seq<u8> },
}

impl View for Attribute {
    type V = AttributeView;

    open spec fn view(&self) -> AttributeView {
        match self {
            Attribute::Username(text) => AttributeView::Username(text@),
            Attribute::Password(text) => AttributeView::Password(text@),
            Attribute::ErrorCode { code, reason } => AttributeView::ErrorCode {
                code: *code,
                reason: reason@,
            },
            Attribute::FingerPrint(bytes) => AttributeView::FingerPrint(bytes@),
            Attribute::XorMappedAddress(address) => AttributeView::XorMappedAddress(address@),
            Attribute::UnknownAttributes(codes) => AttributeView::UnknownAttributes(codes@),
            Attribute::Unknown { type_code, value } => AttributeView::Unknown {
                type_code: *type_code,
                value: value@,
            },
        }
    }
}

/// Whether a type code is one that has a variant of its own.
pub open spec fn is_recognized(code: u16) -> bool {
    code == USERNAME || code == PASSWORD || code == ERROR_CODE || code == UNKNOWN_ATTRIBUTES
        || code == XOR_MAPPED_ADDRESS || code == FINGERPRINT
}

/// The number of padding bytes after a value of `length` bytes: 0 to 3.
pub open spec fn padding(length: int) -> int {
    (4 - length % 4) % 4
}

/// `count` zero bytes.
pub open spec fn zeros(count: int) -> Seq<u8> {
    Seq::new(count as nat, |i: int| 0u8)
}

/// The family byte of a family.
pub open spec fn family_byte(kind: IPKind) -> u8 {
    match kind {
        IPKind::IPv4 => FAMILY_IPV4,
        IPKind::IPv6 => FAMILY_IPV6,
    }
}

/// The port with the upper half of the magic cookie XOR-ed in. Applying this
/// twice gives the port back.
pub open spec fn xor_port(port: u16) -> u16 {
    port ^ ((MAGIC_COOKIE >> 16) as u16)
}

/// The key of the address transform: the four bytes of the magic cookie, then
/// the transaction id.
pub open spec fn xor_key(transaction_id: Seq<u8>) -> Seq<u8> {
    be32(MAGIC_COOKIE) + transaction_id
}

/// Each byte of `data` XOR-ed with the byte of `key` at the same place.
/// Applying this twice with one key gives `data` back.
pub open spec fn xor_bytes(data: Seq<u8>, key: Seq<u8>) -> Seq<u8>
    recommends
        data.len() <= key.len(),
{
    Seq::new(data.len(), |i: int| data[i] ^ key[i])
}

/// The bytes of a list of type codes, two for each, in order.
pub open spec fn code_list_bytes(codes: Seq<u16>) -> Seq<u8> {
    Seq::new(2 * codes.len(), |i: int| be16(codes[i / 2])[i % 2])
}

/// The list of type codes that an even number of bytes holds.
pub open spec fn code_list_of_bytes(bytes: Seq<u8>) -> Seq<u16> {
    Seq::new(bytes.len() / 2, |i: int| u16_at(bytes, 2 * i))
}

impl AttributeView {
    /// The type code that the attribute is sent under.
    pub open spec fn code(self) -> u16 {
        match self {
            AttributeView::Username(_) => USERNAME,
            AttributeView::Password(_) => PASSWORD,
            AttributeView::ErrorCode { .. } => ERROR_CODE,
            AttributeView::FingerPrint(_) => FINGERPRINT,
            AttributeView::XorMappedAddress(_) => XOR_MAPPED_ADDRESS,
            AttributeView::UnknownAttributes(_) => UNKNOWN_ATTRIBUTES,
            AttributeView::Unknown { type_code, .. } => type_code,
        }
    }

    /// The number of bytes of the value, before padding.
    pub open spec fn value_len(self) -> int {
        match self {
            AttributeView::Username(text) => text.len() as int,
            AttributeView::Password(text) => text.len() as int,
            AttributeView::ErrorCode { reason, .. } => reason.len() as int + 4,
            AttributeView::FingerPrint(bytes) => bytes.len() as int,
            AttributeView::XorMappedAddress(address) => address.address.len() as int + 4,
            AttributeView::UnknownAttributes(codes) => codes.len() as int * 2,
            AttributeView::Unknown { value, .. } => value.len() as int,
        }
    }

    /// The number of bytes of the whole record: type, length, value, padding.
    pub open spec fn record_len(self) -> int {
        ATTRIBUTE_HEADER_LENGTH + self.value_len() + padding(self.value_len())
    }

    /// The attribute can be sent: its record fits in the attribute section of
    /// a message, and an address has the length of its family.
    pub open spec fn wf(self) -> bool {
        &&& self.record_len() <= u16::MAX
        &&& match self {
            AttributeView::XorMappedAddress(address) => address.wf(),
            _ => true,
        }
    }

    /// The attribute is of an unrecognized type that the receiver must
    /// understand.
    pub open spec fn is_comprehension_required_unknown(self) -> bool {
        match self {
            AttributeView::Unknown { type_code, .. } => type_code < COMPREHENSION_OPTIONAL,
            _ => false,
        }
    }

    /// The attribute is what decoding its own record gives: it can be sent,
    /// and where it is of the catch-all variant, its type code has no variant
    /// of its own.
    pub open spec fn is_canonical(self) -> bool {
        &&& self.wf()
        &&& match self {
            AttributeView::Unknown { type_code, .. } => !is_recognized(type_code),
            _ => true,
        }
    }

    /// The value as it travels, before padding.
    pub open spec fn value(self, transaction_id: Seq<u8>) -> Seq<u8> {
        match self {
            AttributeView::Username(text) => text,
            AttributeView::Password(text) => text,
            AttributeView::ErrorCode { code, reason } => be32(code) + reason,
            AttributeView::FingerPrint(bytes) => bytes,
            AttributeView::XorMappedAddress(address) => seq![0u8, family_byte(address.ip_kind)]
                + be16(xor_port(address.port)) + xor_bytes(
                address.address,
                xor_key(transaction_id),
            ),
            AttributeView::UnknownAttributes(codes) => code_list_bytes(codes),
            AttributeView::Unknown { value, .. } => value,
        }
    }

    /// The whole record as it travels.
    pub open spec fn record(self, transaction_id: Seq<u8>) -> Seq<u8> {
        be16(self.code()) + be16(self.value_len() as u16) + self.value(transaction_id) + zeros(
            padding(self.value_len()),
        )
    }
}

/// What the value of an address attribute stands for. The first byte is
/// reserved and not looked at; the second is the family.
pub open spec fn address_of_value(value: Seq<u8>, transaction_id: Seq<u8>) -> Result<
    AddressView,
    Error,
> {
    if value.len() < 4 {
        Err(Error::TooShort)
    } else if value[1] != FAMILY_IPV4 && value[1] != FAMILY_IPV6 {
        Err(Error::AddressParse)
    } else {
        let kind = if value[1] == FAMILY_IPV4 {
            IPKind::IPv4
        } else {
            IPKind::IPv6
        };
        if value.len() < 4 + address_length(kind) {
            Err(Error::TooShort)
        } else if value.len() > 4 + address_length(kind) {
            Err(Error::AddressParse)
        } else {
            Ok(
                AddressView {
                    address: xor_bytes(value.skip(4), xor_key(transaction_id)),
                    port: xor_port(u16_at(value, 2)),
                    ip_kind: kind,
                },
            )
        }
    }
}

/// What a value received under a type code stands for.
pub open spec fn attribute_of_value(code: u16, value: Seq<u8>, transaction_id: Seq<u8>) -> Result<
    AttributeView,
    Error,
> {
    if code == USERNAME {
        Ok(AttributeView::Username(value))
    } else if code == PASSWORD {
        Ok(AttributeView::Password(value))
    } else if code == FINGERPRINT {
        Ok(AttributeView::FingerPrint(value))
    } else if code == ERROR_CODE {
        if value.len() < 4 {
            Err(Error::TooShort)
        } else {
            Ok(AttributeView::ErrorCode { code: u32_at(value, 0), reason: value.skip(4) })
        }
    } else if code == UNKNOWN_ATTRIBUTES {
        if value.len() % 2 != 0 {
            Err(Error::TooShort)
        } else {
            Ok(AttributeView::UnknownAttributes(code_list_of_bytes(value)))
        }
    } else if code == XOR_MAPPED_ADDRESS {
        match address_of_value(value, transaction_id) {
            Ok(address) => Ok(AttributeView::XorMappedAddress(address)),
            Err(error) => Err(error),
        }
    } else {
        Ok(AttributeView::Unknown { type_code: code, value })
    }
}

/// What the first record of an attribute section stands for, and the number
/// of bytes that the record takes. A record that does not end within the
/// section is an overrun.
pub open spec fn attribute_of_record(section: Seq<u8>, transaction_id: Seq<u8>) -> Result<
    (AttributeView, int),
    Error,
> {
    if section.len() < ATTRIBUTE_HEADER_LENGTH {
        Err(Error::AttributeOverrun)
    } else {
        let code = u16_at(section, 0);
        let length = u16_at(section, 2) as int;
        let end = ATTRIBUTE_HEADER_LENGTH + length + padding(length);
        if end > section.len() {
            Err(Error::AttributeOverrun)
        } else {
            match attribute_of_value(
                code,
                section.subrange(ATTRIBUTE_HEADER_LENGTH as int, ATTRIBUTE_HEADER_LENGTH + length),
                transaction_id,
            ) {
                Ok(attribute) => Ok((attribute, end)),
                Err(error) => Err(error),
            }
        }
    }
}

/// Appends the two big-endian bytes of a 16-bit number.
fn push_u16(bytes: &mut Vec<u8>, value: u16)
    ensures
        final(bytes)@ == old(bytes)@ + be16(value),
{
    bytes.push((value / 0x100) as u8);
    bytes.push((value % 0x100) as u8);
    assert(bytes@ =~= old(bytes)@ + be16(value));
}

/// Appends the four big-endian bytes of a 32-bit number.
fn push_u32(bytes: &mut Vec<u8>, value: u32)
    ensures
        final(bytes)@ == old(bytes)@ + be32(value),
{
    bytes.push((value / 0x100_0000) as u8);
    bytes.push((value / 0x1_0000 % 0x100) as u8);
    bytes.push((value / 0x100 % 0x100) as u8);
    bytes.push((value % 0x100) as u8);
    assert(bytes@ =~= old(bytes)@ + be32(value));
}

/// The 16-bit number whose big-endian bytes stand at `at` and `at + 1`.
fn read_u16(bytes: &[u8], at: usize) -> (value: u16)
    requires
        at + 2 <= bytes@.len(),
    ensures
        value == u16_at(bytes@, at as int),
{
    let high: u16 = bytes[at] as u16;
    let low: u16 = bytes[at + 1] as u16;
    high * 0x100 + low
}

/// The 32-bit number whose big-endian bytes stand at `at` to `at + 3`.
fn read_u32(bytes: &[u8], at: usize) -> (value: u32)
    requires
        at + 4 <= bytes@.len(),
    ensures
        value == u32_at(bytes@, at as int),
{
    let b0: u32 = bytes[at] as u32;
    let b1: u32 = bytes[at + 1] as u32;
    let b2: u32 = bytes[at + 2] as u32;
    let b3: u32 = bytes[at + 3] as u32;
    b0 * 0x100_0000 + b1 * 0x1_0000 + b2 * 0x100 + b3
}

/// The number of padding bytes after a value of `length` bytes.
pub fn padding_for(length: usize) -> (count: usize)
    ensures
        count == padding(length as int),
        count < 4,
        (length + count) % 4 == 0,
{
    (4 - length % 4) % 4
}

/// The port transform of an address attribute, the same in both directions.
pub fn xor_port_with_cookie(port: u16) -> (result: u16)
    ensures
        result == xor_port(port),
{
    port ^ ((MAGIC_COOKIE >> 16) as u16)
}

/// The key of the address transform for a transaction: sixteen bytes.
pub fn xor_key_for(transaction_id: &TransactionId) -> (key: Vec<u8>)
    ensures
        key@ == xor_key(transaction_id@),
        key@.len() == 16,
{
    let mut key: Vec<u8> = Vec::new();
    push_u32(&mut key, MAGIC_COOKIE);
    let id = transaction_id.as_bytes();
    let mut i: usize = 0;
    while i < 12
        invariant
            i <= 12,
            id@ == transaction_id@,
            id@.len() == 12,
            key@ == be32(MAGIC_COOKIE) + id@.take(i as int),
        decreases 12 - i,
    {
        key.push(id[i]);
        assert(key@ =~= be32(MAGIC_COOKIE) + id@.take(i + 1));
        i += 1;
    }
    assert(id@.take(12) =~= id@);
    key
}

/// The address transform, the same in both directions: each byte of `data`
/// XOR-ed with the byte of `key` at the same place.
pub fn xor_with_key(data: &[u8], key: &[u8]) -> (result: Vec<u8>)
    requires
        data@.len() <= key@.len(),
    ensures
        result@ == xor_bytes(data@, key@),
{
    let mut result: Vec<u8> = Vec::new();
    let mut i: usize = 0;
    while i < data.len()
        invariant
            i <= data@.len(),
            data@.len() <= key@.len(),
            result@ == xor_bytes(data@.take(i as int), key@),
        decreases data@.len() - i,
    {
        result.push(data[i] ^ key[i]);
        assert(result@ =~= xor_bytes(data@.take(i + 1), key@));
        i += 1;
    }
    assert(data@.take(data@.len() as int) =~= data@);
    result
}

/// The bytes of a list of type codes, two for each, in order.
fn code_list_to_bytes(codes: &Vec<u16>) -> (bytes: Vec<u8>)
    ensures
        bytes@ == code_list_bytes(codes@),
{
    let mut bytes: Vec<u8> = Vec::new();
    let mut i: usize = 0;
    while i < codes.len()
        invariant
            i <= codes@.len(),
            bytes@ == code_list_bytes(codes@.take(i as int)),
        decreases codes@.len() - i,
    {
        push_u16(&mut bytes, codes[i]);
        assert(bytes@ =~= code_list_bytes(codes@.take(i + 1)));
        i += 1;
    }
    assert(codes@.take(codes@.len() as int) =~= codes@);
    bytes
}

/// The list of type codes that an even number of bytes holds.
fn code_list_from_bytes(bytes: &[u8]) -> (codes: Vec<u16>)
    requires
        bytes@.len() % 2 == 0,
    ensures
        codes@ == code_list_of_bytes(bytes@),
{
    let mut codes: Vec<u16> = Vec::new();
    let total: usize = bytes.len();
    let count: usize = total / 2;
    let mut i: usize = 0;
    while i < count
        invariant
            i <= count,
            total == bytes@.len(),
            count == total / 2,
            codes@.len() == i,
            forall|j: int| 0 <= j < i ==> codes@[j] == u16_at(bytes@, 2 * j),
        decreases count - i,
    {
        codes.push(read_u16(bytes, 2 * i));
        i += 1;
    }
    assert(codes@ =~= code_list_of_bytes(bytes@));
    codes
}

impl Attribute {
    /// The type code that the attribute is sent under.
    pub fn code(&self) -> (code: u16)
        ensures
            code == self@.code(),
    {
        match self {
            Attribute::Username(_) => USERNAME,
            Attribute::Password(_) => PASSWORD,
            Attribute::ErrorCode { .. } => ERROR_CODE,
            Attribute::FingerPrint(_) => FINGERPRINT,
            Attribute::XorMappedAddress(_) => XOR_MAPPED_ADDRESS,
            Attribute::UnknownAttributes(_) => UNKNOWN_ATTRIBUTES,
            Attribute::Unknown { type_code, .. } => *type_code,
        }
    }

    /// The number of bytes of the value, before padding; `None` where the
    /// number does not fit the machine.
    fn value_len(&self) -> (length: Option<usize>)
        ensures
            match length {
                Some(length) => length == self@.value_len(),
                None => self@.value_len() > usize::MAX,
            },
    {
        match self {
            Attribute::Username(text) => Some(text.len()),
            Attribute::Password(text) => Some(text.len()),
            Attribute::ErrorCode { reason, .. } => reason.len().checked_add(4),
            Attribute::FingerPrint(bytes) => Some(bytes.len()),
            Attribute::XorMappedAddress(address) => address.address.len().checked_add(4),
            Attribute::UnknownAttributes(codes) => codes.len().checked_mul(2),
            Attribute::Unknown { value, .. } => Some(value.len()),
        }
    }

    /// Whether the attribute can be sent: its record fits in the attribute
    /// section of a message, and an address has the length of its family.
    pub fn is_valid(&self) -> (valid: bool)
        ensures
            valid == self@.wf(),
    {
        let fits = match self.value_len() {
            Some(length) => length <= 0xFFFF - 4 && length + padding_for(length) <= 0xFFFF - 4,
            None => false,
        };
        match self {
            Attribute::XorMappedAddress(address) => fits && address.is_valid(),
            _ => fits,
        }
    }

    /// The number of bytes of the whole record: type, length, value, padding.
    pub fn record_len(&self) -> (length: u16)
        requires
            self@.wf(),
        ensures
            length == self@.record_len(),
    {
        match self.value_len() {
            Some(length) => (ATTRIBUTE_HEADER_LENGTH + length + padding_for(length)) as u16,
            None => 0,
        }
    }

    /// Whether the attribute is of an unrecognized type that the receiver
    /// must understand.
    pub fn is_comprehension_required_unknown(&self) -> (required: bool)
        ensures
            required == self@.is_comprehension_required_unknown(),
    {
        match self {
            Attribute::Unknown { type_code, .. } => *type_code < COMPREHENSION_OPTIONAL,
            _ => false,
        }
    }

    /// The value as it travels, before padding. For an address this is where
    /// the XOR transform is applied.
    pub fn value(&self, transaction_id: &TransactionId) -> (value: Vec<u8>)
        requires
            self@.wf(),
        ensures
            value@ == self@.value(transaction_id@),
            value@.len() == self@.value_len(),
    {
        match self {
            Attribute::Username(text) => slice_to_vec(text.as_slice()),
            Attribute::Password(text) => slice_to_vec(text.as_slice()),
            Attribute::FingerPrint(bytes) => slice_to_vec(bytes.as_slice()),
            Attribute::Unknown { value, .. } => slice_to_vec(value.as_slice()),
            Attribute::ErrorCode { code, reason } => {
                let mut value: Vec<u8> = Vec::new();
                push_u32(&mut value, *code);
                let mut rest = slice_to_vec(reason.as_slice());
                value.append(&mut rest);
                value
            },
            Attribute::UnknownAttributes(codes) => code_list_to_bytes(codes),
            Attribute::XorMappedAddress(address) => {
                let mut value: Vec<u8> = Vec::new();
                value.push(0u8);
                value.push(
                    match address.ip_kind {
                        IPKind::IPv4 => FAMILY_IPV4,
                        IPKind::IPv6 => FAMILY_IPV6,
                    },
                );
                push_u16(&mut value, xor_port_with_cookie(address.port));
                let key = xor_key_for(transaction_id);
                let mut masked = xor_with_key(address.address.as_slice(), key.as_slice());
                value.append(&mut masked);
                assert(value@ =~= self@.value(transaction_id@));
                value
            },
        }
    }

    /// Appends the record of the attribute to the buffer: type code, length of
    /// the value before padding, the value, and zero bytes up to the next
    /// multiple of four. Returns the number of bytes appended.
    pub fn encode(&self, buffer: &mut BytesMut, transaction_id: &TransactionId) -> (length: u16)
        requires
            self@.wf(),
            written(*old(buffer)).len() + self@.record_len() <= buffer_limit(),
        ensures
            written(*final(buffer)) == written(*old(buffer)) + self@.record(transaction_id@),
            length == self@.record_len(),
            length == self@.record(transaction_id@).len(),
            length % 4 == 0,
    {
        let value = self.value(transaction_id);
        let length: usize = value.len();
        let pad: usize = padding_for(length);
        let zero_bytes: [u8; 3] = [0u8, 0u8, 0u8];
        put_u16(buffer, self.code());
        put_u16(buffer, length as u16);
        put_slice(buffer, value.as_slice());
        let pad_bytes = slice_subrange(zero_bytes.as_slice(), 0, pad);
        put_slice(buffer, pad_bytes);
        proof {
            assert(pad_bytes@ =~= zeros(pad as int));
            assert(written(*buffer) =~= written(*old(buffer)) + self@.record(transaction_id@));
        }
        (ATTRIBUTE_HEADER_LENGTH + length + pad) as u16
    }
}

/// The address that the value of an address attribute stands for. This is
/// where the XOR transform is undone.
pub fn address_from_value(value: &[u8], transaction_id: &TransactionId) -> (result: Result<
    Address,
    Error,
>)
    ensures
        match address_of_value(value@, transaction_id@) {
            Ok(address) => result is Ok && result.unwrap()@ == address,
            Err(error) => result == Err::<Address, Error>(error),
        },
{
    if value.len() < 4 {
        return Err(Error::TooShort);
    }
    let family: u8 = value[1];
    let ip_kind = if family == FAMILY_IPV4 {
        IPKind::IPv4
    } else if family == FAMILY_IPV6 {
        IPKind::IPv6
    } else {
        return Err(Error::AddressParse);
    };
    let length: usize = ip_kind.address_length();
    if value.len() < 4 + length {
        return Err(Error::TooShort);
    }
    if value.len() > 4 + length {
        return Err(Error::AddressParse);
    }
    let port: u16 = xor_port_with_cookie(read_u16(value, 2));
    let key = xor_key_for(transaction_id);
    let masked = slice_subrange(value, 4, value.len());
    assert(masked@ =~= value@.skip(4));
    let address = xor_with_key(masked, key.as_slice());
    Ok(Address { address, port, ip_kind })
}

impl Attribute {
    /// The attribute that a value received under a type code stands for.
    ///
    /// Text, fingerprint and the values of unrecognized types are taken as
    /// they are. An error code needs four bytes before its reason, and a list
    /// of type codes an even number of bytes: otherwise `TooShort`. An address
    /// whose value is cut short gives `TooShort`; one of an unknown family, or
    /// with bytes left over, gives `AddressParse`.
    pub fn from_value(code: u16, value: Vec<u8>, transaction_id: &TransactionId) -> (result:
        Result<Attribute, Error>)
        ensures
            match attribute_of_value(code, value@, transaction_id@) {
                Ok(attribute) => result is Ok && result.unwrap()@ == attribute,
                Err(error) => result == Err::<Attribute, Error>(error),
            },
    {
        if code == USERNAME {
            Ok(Attribute::Username(value))
        } else if code == PASSWORD {
            Ok(Attribute::Password(value))
        } else if code == FINGERPRINT {
            Ok(Attribute::FingerPrint(value))
        } else if code == ERROR_CODE {
            if value.len() < 4 {
                Err(Error::TooShort)
            } else {
                let number: u32 = read_u32(value.as_slice(), 0);
                let reason = slice_to_vec(slice_subrange(value.as_slice(), 4, value.len()));
                assert(reason@ =~= value@.skip(4));
                Ok(Attribute::ErrorCode { code: number, reason })
            }
        } else if code == UNKNOWN_ATTRIBUTES {
            if value.len() % 2 != 0 {
                Err(Error::TooShort)
            } else {
                Ok(Attribute::UnknownAttributes(code_list_from_bytes(value.as_slice())))
            }
        } else if code == XOR_MAPPED_ADDRESS {
            match address_from_value(value.as_slice(), transaction_id) {
                Ok(address) => Ok(Attribute::XorMappedAddress(address)),
                Err(error) => Err(error),
            }
        } else {
            Ok(Attribute::Unknown { type_code: code, value })
        }
    }

    /// Reads one record from the front of the buffer, which must end where the
    /// attribute section ends.
    ///
    /// On success the record is consumed, padding included. Where fewer than
    /// four bytes are left, or the record would end after the buffer does, the
    /// result is `AttributeOverrun`. A type code without a variant of its own
    /// gives the catch-all variant, whatever its range. On every failure the
    /// buffer is left as it was.
    pub fn decode(buffer: &mut Bytes, transaction_id: &TransactionId) -> (result: Result<
        Attribute,
        Error,
    >)
        ensures
            match attribute_of_record(unread(*old(buffer)), transaction_id@) {
                Ok((attribute, taken)) => {
                    &&& result is Ok
                    &&& result.unwrap()@ == attribute
                    &&& unread(*final(buffer)) == unread(*old(buffer)).skip(taken)
                },
                Err(error) => {
                    &&& result == Err::<Attribute, Error>(error)
                    &&& unread(*final(buffer)) == unread(*old(buffer))
                },
            },
    {
        if remaining(buffer) < ATTRIBUTE_HEADER_LENGTH {
            return Err(Error::AttributeOverrun);
        }
        let ghost section = unread(*buffer);
        let mut cursor = duplicate(buffer);
        let code: u16 = get_u16(&mut cursor);
        let length: usize = get_u16(&mut cursor) as usize;
        let padded: usize = length + padding_for(length);
        assert(unread(cursor) =~= section.skip(4));
        assert(length == u16_at(section, 2));
        if remaining(&cursor) < padded {
            return Err(Error::AttributeOverrun);
        }
        let record = split_to(&mut cursor, padded);
        let mut value = to_vec(&record);
        value.truncate(length);
        proof {
            assert(value@ =~= section.subrange(4, 4 + length));
            assert(unread(cursor) =~= section.skip(4 + padded));
        }
        match Attribute::from_value(code, value, transaction_id) {
            Ok(attribute) => {
                *buffer = cursor;
                Ok(attribute)
            },
            Err(error) => Err(error),
        }
    }
}

/// The port transform undoes itself.
pub proof fn lemma_xor_port_involution(port: u16)
    ensures
        xor_port(xor_port(port)) == port,
{
    let mask = (MAGIC_COOKIE >> 16) as u16;
    assert((port ^ mask) ^ mask == port) by (bit_vector);
}

/// The address transform undoes itself: applied twice with one key, it gives
/// the bytes it started from.
pub proof fn lemma_xor_bytes_involution(data: Seq<u8>, key: Seq<u8>)
    requires
        data.len() <= key.len(),
    ensures
        xor_bytes(xor_bytes(data, key), key) == data,
{
    assert forall|i: int| 0 <= i < data.len() implies (data[i] ^ key[i]) ^ key[i] == data[i] by {
        let d = data[i];
        let k = key[i];
        assert((d ^ k) ^ k == d) by (bit_vector);
    }
    assert(xor_bytes(xor_bytes(data, key), key) =~= data);
}

/// An address written as the value of an address attribute and read back
/// under the same transaction id is the address it was: family, port and
/// address bytes.
pub proof fn lemma_address_roundtrip(address: AddressView, transaction_id: Seq<u8>)
    requires
        address.wf(),
        transaction_id.len() == 12,
    ensures
        address_of_value(
            AttributeView::XorMappedAddress(address).value(transaction_id),
            transaction_id,
        ) == Ok::<AddressView, Error>(address),
{
    let key = xor_key(transaction_id);
    let value = AttributeView::XorMappedAddress(address).value(transaction_id);
    let masked = xor_bytes(address.address, key);
    assert(value.len() == 4 + address.address.len());
    assert(value[1] == family_byte(address.ip_kind));
    assert(value.subrange(2, 4) =~= be16(xor_port(address.port)));
    lemma_u16_at_be16(value, 2, xor_port(address.port));
    lemma_xor_port_involution(address.port);
    assert(value.skip(4) =~= masked);
    lemma_xor_bytes_involution(address.address, key);
}

/// A list of type codes written as bytes and read back is the list it was.
pub proof fn lemma_code_list_roundtrip(codes: Seq<u16>)
    ensures
        code_list_bytes(codes).len() == 2 * codes.len(),
        code_list_of_bytes(code_list_bytes(codes)) == codes,
{
    let bytes = code_list_bytes(codes);
    assert(bytes.len() / 2 == codes.len());
    assert forall|i: int| 0 <= i < codes.len() implies u16_at(bytes, 2 * i) == codes[i] by {
        let high = 2 * i;
        let low = 2 * i + 1;
        assert(high / 2 == i && high % 2 == 0);
        assert(low / 2 == i && low % 2 == 1);
        assert(bytes[high] == be16(codes[i])[0]);
        assert(bytes[low] == be16(codes[i])[1]);
    }
    assert(code_list_of_bytes(bytes) =~= codes);
}

/// The value of an attribute, read back under its type code and the same
/// transaction id, is the attribute it was.
pub proof fn lemma_value_roundtrip(attribute: AttributeView, transaction_id: Seq<u8>)
    requires
        attribute.is_canonical(),
        transaction_id.len() == 12,
    ensures
        attribute.value(transaction_id).len() == attribute.value_len(),
        attribute_of_value(attribute.code(), attribute.value(transaction_id), transaction_id)
            == Ok::<AttributeView, Error>(attribute),
{
    let value = attribute.value(transaction_id);
    match attribute {
        AttributeView::ErrorCode { code, reason } => {
            assert(value.subrange(0, 4) =~= be32(code));
            lemma_u32_at_be32(value, 0, code);
            assert(value.skip(4) =~= reason);
        },
        AttributeView::XorMappedAddress(address) => {
            lemma_address_roundtrip(address, transaction_id);
        },
        AttributeView::UnknownAttributes(codes) => {
            lemma_code_list_roundtrip(codes);
        },
        _ => {},
    }
}

/// The layout of a record: it is a multiple of four bytes long, its length
/// field holds the length of the value before padding, the value follows the
/// four header bytes, and what follows the value is zero to three zero bytes.
pub proof fn lemma_record_layout(attribute: AttributeView, transaction_id: Seq<u8>)
    requires
        attribute.wf(),
    ensures
        attribute.record(transaction_id).len() == attribute.record_len(),
        attribute.record_len() % 4 == 0,
        0 <= padding(attribute.value_len()) <= 3,
        u16_at(attribute.record(transaction_id), 0) == attribute.code(),
        u16_at(attribute.record(transaction_id), 2) == attribute.value_len(),
        attribute.record(transaction_id).subrange(4, 4 + attribute.value_len())
            == attribute.value(transaction_id),
        attribute.record(transaction_id).skip(4 + attribute.value_len()) == zeros(
            padding(attribute.value_len()),
        ),
{
    let record = attribute.record(transaction_id);
    let length = attribute.value_len();
    assert(attribute.value(transaction_id).len() == length);
    assert(record.subrange(0, 2) =~= be16(attribute.code()));
    lemma_u16_at_be16(record, 0, attribute.code());
    assert(record.subrange(2, 4) =~= be16(length as u16));
    lemma_u16_at_be16(record, 2, length as u16);
    assert(record.subrange(4, 4 + length) =~= attribute.value(transaction_id));
    assert(record.skip(4 + length) =~= zeros(padding(length)));
}

/// The record of an attribute, read back from the front of a section under
/// the same transaction id, is the attribute it was, and exactly the record
/// is taken, whatever follows it.
pub proof fn lemma_record_roundtrip(
    attribute: AttributeView,
    transaction_id: Seq<u8>,
    rest: Seq<u8>,
)
    requires
        attribute.is_canonical(),
        transaction_id.len() == 12,
    ensures
        attribute_of_record(attribute.record(transaction_id) + rest, transaction_id) == Ok::<
            (AttributeView, int),
            Error,
        >((attribute, attribute.record_len())),
{
    let record = attribute.record(transaction_id);
    let section = record + rest;
    let length = attribute.value_len();
    lemma_record_layout(attribute, transaction_id);
    lemma_value_roundtrip(attribute, transaction_id);
    assert(section.subrange(0, 2) =~= be16(attribute.code()));
    lemma_u16_at_be16(section, 0, attribute.code());
    assert(section.subrange(2, 4) =~= be16(length as u16));
    lemma_u16_at_be16(section, 2, length as u16);
    assert(section.subrange(4, 4 + length) =~= attribute.value(transaction_id));
}

} // verus!
