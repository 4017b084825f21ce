//! The whole message: a 20-byte header followed by the attribute section.
//!
//! ```text
//!  0                   1                   2                   3
//!  0 1 2 3 4 5 6 7 8 9 0 1 2 3 4 5 6 7 8 9 0 1 2 3 4 5 6 7 8 9 0 1
//! +-+-+-+-+-+-+-+-+-+-+-+-+-+-+-+-+-+-+-+-+-+-+-+-+-+-+-+-+-+-+-+-+
//! |0 0|       Message Type        |         Message Length        |
//! +-+-+-+-+-+-+-+-+-+-+-+-+-+-+-+-+-+-+-+-+-+-+-+-+-+-+-+-+-+-+-+-+
//! |                         Magic Cookie                          |
//! +-+-+-+-+-+-+-+-+-+-+-+-+-+-+-+-+-+-+-+-+-+-+-+-+-+-+-+-+-+-+-+-+
//! |                                                               |
//! |                     Transaction ID (96 bits)                  |
//! |                                                               |
//! +-+-+-+-+-+-+-+-+-+-+-+-+-+-+-+-+-+-+-+-+-+-+-+-+-+-+-+-+-+-+-+-+
//! ```
//!
//! All fields are big-endian. The message length counts the attribute section
//! only, never the header.

use vstd::prelude::*;
use vstd::slice::slice_to_vec;
use bytes::{Bytes, BytesMut};
use crate::buffer::{
    as_slice, be16, be32, buffer_limit, duplicate, get_u16, get_u32, lemma_u16_at_be16,
    lemma_u32_at_be32, put_slice, put_u16, put_u32, remaining, split_to, u16_at, u32_at,
    unread, with_capacity, written,
};
use crate::error::Error;
use crate::message::attribute::{
    attribute_of_record, lemma_record_layout, lemma_record_roundtrip, padding, Attribute,
    AttributeView,
};
use crate::message::class::{class_bits, class_of_field, lemma_class_roundtrip, Class};
use crate::message::method::{
    lemma_method_roundtrip, method_code, method_of_field, spread_method, Method,
};
use crate::message::transaction_id::{TransactionId, TRANSACTION_ID_LENGTH};

verus! {

/// The fixed value of bytes 4 to 7 of every message.
pub const MAGIC_COOKIE: u32 = 0x2112A442;

/// The number of bytes of the header.
pub const MESSAGE_HEADER_LENGTH: usize = 20;

/// A message: what it is about, which exchange it belongs to, and what it
/// carries.
#[derive(Debug, Clone, PartialEq, Eq)]
pub struct Message {
    pub class: Class,
    pub method: Method,
    pub transaction_id: TransactionId,
    pub attributes: Vec<Attribute>,
}

/// What a [`Message`] stands for in contracts.
pub struct MessageView {
    pub class: Class,
    pub method: Method,
    pub transaction_id: Seq<u8>,
    pub attributes: Seq<AttributeView>,
}

impl View for Message {
    type V = MessageView;

    open spec fn view(&self) -> MessageView {
        MessageView {
            class: self.class,
            method: self.method,
            transaction_id: self.transaction_id@,
            attributes: self.attributes@.map_values(|attribute: Attribute| attribute@),
        }
    }
}

/// The message type field of a class and a method: their bits interleaved,
/// the two top bits zero.
pub open spec fn message_type(class: Class, method: Method) -> u16 {
    class_bits(class) | spread_method(method_code(method))
}

/// The number of bytes of the records of a list of attributes.
pub open spec fn section_len(attributes: Seq<AttributeView>) -> int
    decreases attributes.len(),
{
    if attributes.len() == 0 {
        0
    } else {
        section_len(attributes.drop_last()) + attributes.last().record_len()
    }
}

/// The records of a list of attributes, one after the other.
pub open spec fn records(attributes: Seq<AttributeView>, transaction_id: Seq<u8>) -> Seq<u8>
    decreases attributes.len(),
{
    if attributes.len() == 0 {
        Seq::empty()
    } else {
        records(attributes.drop_last(), transaction_id) + attributes.last().record(
            transaction_id,
        )
    }
}

impl MessageView {
    /// The message can be sent: the transaction id has twelve bytes, every
    /// attribute can be sent, and the attribute section is short enough for
    /// its length to be written in the header.
    pub open spec fn wf(self) -> bool {
        &&& self.transaction_id.len() == TRANSACTION_ID_LENGTH
        &&& forall|i: int| 0 <= i < self.attributes.len() ==> (#[trigger] self.attributes[i]).wf()
        &&& section_len(self.attributes) <= u16::MAX
    }

    /// The message as it travels: message type, length of the attribute
    /// section, magic cookie, transaction id, attribute section.
    pub open spec fn bytes(self) -> Seq<u8> {
        be16(message_type(self.class, self.method)) + be16(section_len(self.attributes) as u16)
            + be32(MAGIC_COOKIE) + self.transaction_id + records(
            self.attributes,
            self.transaction_id,
        )
    }
}

/// What an attribute section stands for: its records in order. The first
/// record that cannot be read, or that is of an unrecognized type of the
/// comprehension-required range, decides the failure. Unrecognized types of
/// the comprehension-optional range are kept and do not stop the reading.
pub open spec fn attributes_of_section(section: Seq<u8>, transaction_id: Seq<u8>) -> Result<
    Seq<AttributeView>,
    Error,
>
    decreases section.len(),
{
    if section.len() == 0 {
        Ok(Seq::empty())
    } else {
        match attribute_of_record(section, transaction_id) {
            Err(error) => Err(error),
            Ok((attribute, taken)) => {
                if attribute.is_comprehension_required_unknown() {
                    Err(Error::ComprehensionRequiredUnknown(attribute.code()))
                } else {
                    match attributes_of_section(section.skip(taken), transaction_id) {
                        Ok(rest) => Ok(seq![attribute] + rest),
                        Err(error) => Err(error),
                    }
                }
            },
        }
    }
}

/// A list of attributes already read, put in front of what reading the rest
/// gives.
pub open spec fn read_before(
    done: Seq<AttributeView>,
    rest: Result<Seq<AttributeView>, Error>,
) -> Result<Seq<AttributeView>, Error> {
    match rest {
        Ok(rest) => Ok(done + rest),
        Err(error) => Err(error),
    }
}

/// The number of bytes that the message at the front of `bytes` announces for
/// itself: the header and the attribute section.
pub open spec fn announced_len(bytes: Seq<u8>) -> int {
    MESSAGE_HEADER_LENGTH + u16_at(bytes, 2)
}

/// What a sequence of bytes stands for, read as a message from its front.
/// The checks are made in the order of the fields, so the first field that
/// is wrong decides the failure.
pub open spec fn message_of_bytes(bytes: Seq<u8>) -> Result<MessageView, Error> {
    if bytes.len() < MESSAGE_HEADER_LENGTH {
        Err(Error::TooShort)
    } else {
        match method_of_field(u16_at(bytes, 0)) {
            Err(error) => Err(error),
            Ok(method) => {
                if u32_at(bytes, 4) != MAGIC_COOKIE {
                    Err(Error::BadMagicCookie)
                } else if bytes.len() < announced_len(bytes) {
                    Err(Error::AttributeUnderrun)
                } else {
                    let transaction_id = bytes.subrange(8, MESSAGE_HEADER_LENGTH as int);
                    match attributes_of_section(
                        bytes.subrange(MESSAGE_HEADER_LENGTH as int, announced_len(bytes)),
                        transaction_id,
                    ) {
                        Err(error) => Err(error),
                        Ok(attributes) => Ok(
                            MessageView {
                                class: class_of_field(u16_at(bytes, 0)),
                                method,
                                transaction_id,
                                attributes,
                            },
                        ),
                    }
                }
            },
        }
    }
}

/// The records of a longer list start with the records of a shorter one.
pub proof fn lemma_section_len_take(attributes: Seq<AttributeView>, count: int)
    requires
        0 <= count <= attributes.len(),
    ensures
        0 <= section_len(attributes.take(count)) <= section_len(attributes),
        count < attributes.len() ==> section_len(attributes.take(count + 1)) == section_len(
            attributes.take(count),
        ) + attributes[count].record_len(),
    decreases attributes.len() - count,
{
    if count < attributes.len() {
        assert(attributes.take(count + 1).drop_last() =~= attributes.take(count));
        lemma_section_len_take(attributes, count + 1);
        lemma_section_len_nonnegative(attributes.take(count));
    } else {
        assert(attributes.take(count) =~= attributes);
        lemma_section_len_nonnegative(attributes);
    }
}

/// A list of attributes takes no less than zero bytes.
pub proof fn lemma_section_len_nonnegative(attributes: Seq<AttributeView>)
    ensures
        0 <= section_len(attributes),
    decreases attributes.len(),
{
    if attributes.len() > 0 {
        lemma_section_len_nonnegative(attributes.drop_last());
    }
}

/// The records of a list of attributes have the length that `section_len`
/// gives, whatever the transaction id.
pub proof fn lemma_records_len(attributes: Seq<AttributeView>, transaction_id: Seq<u8>)
    ensures
        records(attributes, transaction_id).len() == section_len(attributes),
    decreases attributes.len(),
{
    if attributes.len() > 0 {
        lemma_records_len(attributes.drop_last(), transaction_id);
        lemma_section_len_nonnegative(attributes.drop_last());
    }
}

impl Message {
    /// A binding request with a fresh transaction id.
    pub fn binding_request(attributes: Vec<Attribute>) -> (message: Message)
        ensures
            message@.class == Class::Request,
            message@.method == Method::Binding,
            message@.transaction_id.len() == TRANSACTION_ID_LENGTH,
            message.attributes == attributes,
    {
        Message {
            class: Class::Request,
            method: Method::Binding,
            transaction_id: TransactionId::new(),
            attributes,
        }
    }

    /// The successful response to a binding request. The transaction id is
    /// that of the request being answered.
    pub fn binding_response(attributes: Vec<Attribute>, transaction_id: TransactionId) -> (message:
        Message)
        ensures
            message == (Message {
                class: Class::SuccessResponse,
                method: Method::Binding,
                transaction_id,
                attributes,
            }),
    {
        Message {
            class: Class::SuccessResponse,
            method: Method::Binding,
            transaction_id,
            attributes,
        }
    }

    /// Whether the message can be sent: every attribute can, and the
    /// attribute section is short enough for its length to be written in the
    /// header.
    pub fn is_valid(&self) -> (valid: bool)
        ensures
            valid == self@.wf(),
    {
        let ghost views = self@.attributes;
        let mut total: usize = 0;
        let mut i: usize = 0;
        while i < self.attributes.len()
            invariant
                i <= self.attributes@.len(),
                views == self@.attributes,
                views.len() == self.attributes@.len(),
                total == section_len(views.take(i as int)),
                total <= u16::MAX,
                forall|j: int| 0 <= j < i ==> (#[trigger] views[j]).wf(),
            decreases self.attributes@.len() - i,
        {
            let attribute = &self.attributes[i];
            assert(views[i as int] == attribute@);
            if !attribute.is_valid() {
                return false;
            }
            let length: usize = attribute.record_len() as usize;
            proof {
                lemma_section_len_take(views, i as int);
                lemma_section_len_take(views, i + 1);
            }
            if total + length > 0xFFFF {
                return false;
            }
            total = total + length;
            i += 1;
        }
        assert(views.take(i as int) =~= views);
        true
    }

    /// The message as it travels, or `None` where it cannot be sent.
    pub fn to_bytes(&self) -> (bytes: Option<Vec<u8>>)
        ensures
            match bytes {
                Some(bytes) => self@.wf() && bytes@ == self@.bytes(),
                None => !self@.wf(),
            },
    {
        if !self.is_valid() {
            return None;
        }
        let mut buffer = with_capacity(MESSAGE_HEADER_LENGTH);
        self.encode(&mut buffer);
        assert(written(buffer) =~= self@.bytes());
        Some(slice_to_vec(as_slice(&buffer)))
    }

    /// Appends the message to the buffer: the 16-bit message type, the length
    /// of the attribute section, the magic cookie, the transaction id, and
    /// the attribute section. The attributes are written to a buffer of their
    /// own first, since the length is not known before.
    pub fn encode(&self, buf: &mut BytesMut)
        requires
            self@.wf(),
            written(*old(buf)).len() + MESSAGE_HEADER_LENGTH + section_len(self@.attributes)
                <= buffer_limit(),
        ensures
            written(*final(buf)) == written(*old(buf)) + self@.bytes(),
    {
        let ghost views = self@.attributes;
        let ghost id = self.transaction_id@;
        let class: u16 = self.class.encode();
        let method: u16 = self.method.encode();
        proof {
            lemma_section_len_nonnegative(views);
        }
        put_u16(buf, class | method);

        let mut body = with_capacity(256);
        let mut message_length: u16 = 0;
        let mut i: usize = 0;
        while i < self.attributes.len()
            invariant
                i <= self.attributes@.len(),
                self@.wf(),
                views == self@.attributes,
                id == self.transaction_id@,
                views.len() == self.attributes@.len(),
                written(body) == records(views.take(i as int), id),
                message_length == section_len(views.take(i as int)),
            decreases self.attributes@.len() - i,
        {
            let attribute = &self.attributes[i];
            proof {
                assert(views[i as int] == attribute@);
                lemma_section_len_take(views, i as int);
                lemma_section_len_take(views, i + 1);
                lemma_records_len(views.take(i as int), id);
                assert(views.take(i + 1).drop_last() =~= views.take(i as int));
            }
            let length: u16 = attribute.encode(&mut body, &self.transaction_id);
            message_length = message_length + length;
            i += 1;
        }
        proof {
            assert(views.take(i as int) =~= views);
            lemma_records_len(views, id);
        }
        put_u16(buf, message_length);
        put_u32(buf, MAGIC_COOKIE);
        put_slice(buf, self.transaction_id.as_bytes());
        put_slice(buf, as_slice(&body));
        assert(written(*buf) =~= written(*old(buf)) + self@.bytes());
    }
}

impl Message {
    /// Reads one message from the front of the buffer.
    ///
    /// The checks follow the order of the fields. Fewer than twenty bytes give
    /// `TooShort`. A method other than Binding gives `UnsupportedMethod`. A
    /// wrong magic cookie gives `BadMagicCookie`. A buffer that ends before the
    /// announced attribute section does gives `AttributeUnderrun`. Within the
    /// section, a record that would end after the section does gives
    /// `AttributeOverrun`, and an unrecognized type code below `0x8000` gives
    /// `ComprehensionRequiredUnknown`; unrecognized codes from `0x8000` on are
    /// kept in the catch-all variant. The class bits and the two top bits of
    /// the message type never make the reading fail.
    ///
    /// On success exactly the header and the announced section are consumed.
    /// On every failure the buffer is left as it was.
    #[verifier::loop_isolation(false)]
    pub fn decode(buffer: &mut Bytes) -> (result: Result<Message, Error>)
        ensures
            match message_of_bytes(unread(*old(buffer))) {
                Ok(message) => {
                    &&& result is Ok
                    &&& result.unwrap()@ == message
                    &&& unread(*final(buffer)) == unread(*old(buffer)).skip(
                        announced_len(unread(*old(buffer))),
                    )
                },
                Err(error) => {
                    &&& result == Err::<Message, Error>(error)
                    &&& unread(*final(buffer)) == unread(*old(buffer))
                },
            },
    {
        if remaining(buffer) < MESSAGE_HEADER_LENGTH {
            return Err(Error::TooShort);
        }
        let ghost bytes = unread(*buffer);
        let mut cursor = duplicate(buffer);

        let message_type: u16 = get_u16(&mut cursor);
        let class = match Class::decode(message_type) {
            Ok(class) => class,
            Err(error) => {
                return Err(error);
            },
        };
        let method = match Method::decode(message_type) {
            Ok(method) => method,
            Err(error) => {
                return Err(error);
            },
        };
        let message_length: usize = get_u16(&mut cursor) as usize;
        assert(unread(cursor) =~= bytes.skip(4));
        let magic_cookie: u32 = get_u32(&mut cursor);
        assert(unread(cursor) =~= bytes.skip(8));
        if magic_cookie != MAGIC_COOKIE {
            return Err(Error::BadMagicCookie);
        }
        let transaction_id = match TransactionId::decode(&mut cursor) {
            Ok(transaction_id) => transaction_id,
            Err(error) => {
                return Err(error);
            },
        };
        let ghost id = transaction_id@;
        proof {
            assert(id =~= bytes.subrange(8, 20));
            assert(unread(cursor) =~= bytes.skip(20));
        }
        if remaining(&cursor) < message_length {
            return Err(Error::AttributeUnderrun);
        }
        let mut section = split_to(&mut cursor, message_length);
        let ghost whole = unread(section);
        proof {
            assert(whole =~= bytes.subrange(20, announced_len(bytes)));
            assert(unread(cursor) =~= bytes.skip(announced_len(bytes)));
        }

        let mut attributes: Vec<Attribute> = Vec::new();
        assert(attributes@.map_values(|attribute: Attribute| attribute@) =~= Seq::<
            AttributeView,
        >::empty());
        assert(Seq::<AttributeView>::empty() + Seq::<AttributeView>::empty() =~= Seq::<
            AttributeView,
        >::empty());
        while remaining(&section) > 0
            invariant
                id == transaction_id@,
                unread(*buffer) == bytes,
                attributes_of_section(whole, id) == read_before(
                    attributes@.map_values(|attribute: Attribute| attribute@),
                    attributes_of_section(unread(section), id),
                ),
            decreases unread(section).len(),
        {
            let ghost done = attributes@.map_values(|attribute: Attribute| attribute@);
            let ghost left = unread(section);
            let attribute = match Attribute::decode(&mut section, &transaction_id) {
                Ok(attribute) => attribute,
                Err(error) => {
                    return Err(error);
                },
            };
            if attribute.is_comprehension_required_unknown() {
                return Err(Error::ComprehensionRequiredUnknown(attribute.code()));
            }
            let ghost view = attribute@;
            attributes.push(attribute);
            proof {
                let now = attributes@.map_values(|attribute: Attribute| attribute@);
                assert(now =~= done + seq![view]);
                match attributes_of_section(unread(section), id) {
                    Ok(rest) => {
                        assert(done + (seq![view] + rest) =~= now + rest);
                    },
                    Err(_) => {},
                }
            }
        }
        proof {
            let done = attributes@.map_values(|attribute: Attribute| attribute@);
            assert(done + Seq::<AttributeView>::empty() =~= done);
        }
        *buffer = cursor;
        Ok(Message { class, method, transaction_id, attributes })
    }
}

/// Reading the class and the method out of the message type field of a class
/// and a method gives that class and that method.
pub proof fn lemma_message_type_roundtrip(class: Class, method: Method)
    ensures
        class_of_field(message_type(class, method)) == class,
        method_of_field(message_type(class, method)) == Ok::<Method, Error>(method),
        message_type(class, method) & 0xC000 == 0,
{
    let class_part = class_bits(class);
    let method_part = spread_method(method_code(method));
    let code = method_code(method);
    assert(((code & 0x000F) | ((code & 0x0070) << 1) | ((code & 0x0F80) << 2)) & 0xC110 == 0)
        by (bit_vector);
    assert(method_part & 0xC110 == 0 ==> method_part & 0x0110 == 0) by (bit_vector);
    assert(class_part & 0x0110 == class_part ==> class_part & 0x3EEF == 0 && (class_part
        | method_part) == (method_part | class_part) && (method_part & 0xC110 == 0 ==> (class_part
        | method_part) & 0xC000 == 0)) by (bit_vector);
    assert(0x000u16 & 0x0110 == 0x000 && 0x010u16 & 0x0110 == 0x010 && 0x100u16 & 0x0110 == 0x100
        && 0x110u16 & 0x0110 == 0x110) by (bit_vector);
    lemma_class_roundtrip(class, method_part);
    lemma_method_roundtrip(method, class_part);
}

/// The records of a list are the record of its first attribute, then the
/// records of the others.
pub proof fn lemma_records_front(
    first: AttributeView,
    others: Seq<AttributeView>,
    transaction_id: Seq<u8>,
)
    ensures
        records(seq![first] + others, transaction_id) == first.record(transaction_id) + records(
            others,
            transaction_id,
        ),
    decreases others.len(),
{
    let all = seq![first] + others;
    if others.len() == 0 {
        assert(all.drop_last() =~= Seq::<AttributeView>::empty());
        assert(records(all.drop_last(), transaction_id) =~= Seq::<u8>::empty());
        assert(records(all, transaction_id) =~= first.record(transaction_id) + records(
            others,
            transaction_id,
        ));
    } else {
        assert(all.drop_last() =~= seq![first] + others.drop_last());
        assert(all.last() == others.last());
        lemma_records_front(first, others.drop_last(), transaction_id);
        assert(records(all, transaction_id) =~= first.record(transaction_id) + records(
            others,
            transaction_id,
        ));
    }
}

/// The attributes that reading a message back can give: each can be sent, is
/// what reading its own record gives, and is not of an unrecognized type that
/// the receiver must understand.
pub open spec fn all_supported(attributes: Seq<AttributeView>) -> bool {
    forall|i: int|
        0 <= i < attributes.len() ==> {
            &&& (#[trigger] attributes[i]).is_canonical()
            &&& !attributes[i].is_comprehension_required_unknown()
        }
}

/// Reading a section that starts with the record of a supported attribute
/// gives that attribute, then what reading the rest of the section gives.
pub proof fn lemma_section_front(first: AttributeView, transaction_id: Seq<u8>, rest: Seq<u8>)
    requires
        first.is_canonical(),
        !first.is_comprehension_required_unknown(),
        transaction_id.len() == 12,
    ensures
        attributes_of_section(first.record(transaction_id) + rest, transaction_id) == read_before(
            seq![first],
            attributes_of_section(rest, transaction_id),
        ),
{
    let record = first.record(transaction_id);
    let section = record + rest;
    let taken = first.record_len();
    lemma_record_layout(first, transaction_id);
    lemma_record_roundtrip(first, transaction_id, rest);
    assert(record.len() == taken);
    assert(4 <= taken) by {
        assert(first.value_len() >= 0);
        assert(padding(first.value_len()) >= 0);
    }
    assert(section.len() == taken + rest.len());
    assert(section.skip(taken) =~= rest);
}

/// The records of a list of supported attributes, read back as an attribute
/// section under the same transaction id, are the list it was.
pub proof fn lemma_section_roundtrip(attributes: Seq<AttributeView>, transaction_id: Seq<u8>)
    requires
        all_supported(attributes),
        transaction_id.len() == 12,
    ensures
        attributes_of_section(records(attributes, transaction_id), transaction_id) == Ok::<
            Seq<AttributeView>,
            Error,
        >(attributes),
    decreases attributes.len(),
{
    if attributes.len() == 0 {
        assert(records(attributes, transaction_id) =~= Seq::<u8>::empty());
        assert(attributes =~= Seq::<AttributeView>::empty());
    } else {
        let first = attributes[0];
        let others = attributes.skip(1);
        let tail = records(others, transaction_id);
        assert(attributes =~= seq![first] + others);
        assert(records(attributes, transaction_id) == records(
            seq![first] + others,
            transaction_id,
        ));
        assert(first.is_canonical() && !first.is_comprehension_required_unknown());
        assert(all_supported(others)) by {
            assert forall|i: int| 0 <= i < others.len() implies {
                &&& (#[trigger] others[i]).is_canonical()
                &&& !others[i].is_comprehension_required_unknown()
            } by {
                assert(others[i] == attributes[i + 1]);
            }
        }
        lemma_records_front(first, others, transaction_id);
        lemma_section_front(first, transaction_id, tail);
        lemma_section_roundtrip(others, transaction_id);
        assert(attributes_of_section(tail, transaction_id) == Ok::<Seq<AttributeView>, Error>(
            others,
        ));
        assert(attributes_of_section(first.record(transaction_id) + tail, transaction_id)
            == Ok::<Seq<AttributeView>, Error>(seq![first] + others));
    }
}

/// A message written as bytes and read back is the message it was, provided
/// it can be sent and holds supported attributes only. The same holds with
/// any bytes after it: reading stops where the message ends.
pub proof fn lemma_decode_encode(message: MessageView, rest: Seq<u8>)
    requires
        message.wf(),
        all_supported(message.attributes),
    ensures
        message_of_bytes(message.bytes() + rest) == Ok::<MessageView, Error>(message),
        announced_len(message.bytes() + rest) == message.bytes().len(),
{
    let id = message.transaction_id;
    let field = message_type(message.class, message.method);
    let length = section_len(message.attributes);
    let section = records(message.attributes, id);
    let bytes = message.bytes() + rest;
    lemma_section_len_nonnegative(message.attributes);
    lemma_records_len(message.attributes, id);
    assert(bytes.subrange(0, 2) =~= be16(field));
    lemma_u16_at_be16(bytes, 0, field);
    assert(bytes.subrange(2, 4) =~= be16(length as u16));
    lemma_u16_at_be16(bytes, 2, length as u16);
    assert(bytes.subrange(4, 8) =~= be32(MAGIC_COOKIE));
    lemma_u32_at_be32(bytes, 4, MAGIC_COOKIE);
    assert(bytes.subrange(8, 20) =~= id);
    assert(bytes.subrange(20, 20 + length) =~= section);
    lemma_message_type_roundtrip(message.class, message.method);
    lemma_section_roundtrip(message.attributes, id);
}

/// Twenty bytes or more whose method is supported and whose bytes 4 to 7 are
/// not the magic cookie are refused for the cookie, whatever follows.
pub proof fn lemma_bad_magic_cookie(bytes: Seq<u8>)
    requires
        bytes.len() >= MESSAGE_HEADER_LENGTH,
        method_of_field(u16_at(bytes, 0)) is Ok,
        u32_at(bytes, 4) != MAGIC_COOKIE,
    ensures
        message_of_bytes(bytes) == Err::<MessageView, Error>(Error::BadMagicCookie),
{
}

/// Fewer than twenty bytes are refused as too short, whatever they are.
pub proof fn lemma_short_header(bytes: Seq<u8>)
    requires
        bytes.len() < MESSAGE_HEADER_LENGTH,
    ensures
        message_of_bytes(bytes) == Err::<MessageView, Error>(Error::TooShort),
{
}

} // verus!
