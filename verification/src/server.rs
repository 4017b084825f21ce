//! What a server answers. Receiving and sending are left to the caller: this
//! module only decides, from a message that was read and the address it came
//! from, which message goes back.

use vstd::prelude::*;
use crate::message::attribute::{Attribute, AttributeView};
use crate::message::class::Class;
use crate::message::message::{section_len, Message, MessageView};
use crate::message::method::Method;
use crate::utils::{Address, AddressView};

verus! {

/// The answer to a message that came from `source`. A binding request is
/// answered with a success response that carries the same transaction id and
/// the source address as its only attribute. Nothing else is answered.
pub open spec fn response_to(request: MessageView, source: AddressView) -> Option<MessageView> {
    if request.class == Class::Request && request.method == Method::Binding {
        Some(
            MessageView {
                class: Class::SuccessResponse,
                method: Method::Binding,
                transaction_id: request.transaction_id,
                attributes: seq![AttributeView::XorMappedAddress(source)],
            },
        )
    } else {
        None
    }
}

/// The answer to a message that came from `source`, or `None` where the
/// message is not one that a server answers: the caller has to report such a
/// message as unsupported. An answer to a source whose address has the length
/// of its family can be sent.
pub fn respond(request: &Message, source: Address) -> (response: Option<Message>)
    ensures
        match response_to(request@, source@) {
            Some(expected) => response is Some && response.unwrap()@ == expected,
            None => response is None,
        },
        response is Some && source@.wf() ==> response.unwrap()@.wf(),
{
    match (request.class, request.method) {
        (Class::Request, Method::Binding) => {
            let ghost attribute = AttributeView::XorMappedAddress(source@);
            let attributes = vec![Attribute::XorMappedAddress(source)];
            let response = Message::binding_response(attributes, request.transaction_id);
            proof {
                let views = response@.attributes;
                assert(views =~= seq![attribute]);
                assert(views.drop_last() =~= Seq::<AttributeView>::empty());
                assert(section_len(views.drop_last()) == 0);
                assert(section_len(views) == attribute.record_len());
            }
            Some(response)
        },
        _ => None,
    }
}

} // verus!
