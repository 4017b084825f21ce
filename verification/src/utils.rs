//! Transport addresses as the codec sees them: a family, a port and the
//! address bytes in network order.

use vstd::prelude::*;
use vstd::slice::slice_to_vec;

verus! {

/// The family of an address.
#[derive(Debug, Clone, Copy, PartialEq, Eq, Structural)]
pub enum IPKind {
    IPv4,
    IPv6,
}

/// The number of address bytes of a family: 4 or 16.
pub open spec fn address_length(kind: IPKind) -> nat {
    match kind {
        IPKind::IPv4 => 4,
        IPKind::IPv6 => 16,
    }
}

/// A transport address.
#[derive(Debug, Clone, PartialEq, Eq)]
pub struct Address {
    pub address: Vec<u8>,
    pub port: u16,
    pub ip_kind: IPKind,
}

/// What an [`Address`] stands for in contracts.
pub struct AddressView {
    pub address: Seq<u8>,
    pub port: u16,
    pub ip_kind: IPKind,
}

impl AddressView {
    /// The address has as many bytes as its family asks for.
    pub open spec fn wf(self) -> bool {
        self.address.len() == address_length(self.ip_kind)
    }
}

impl View for Address {
    type V = AddressView;

    open spec fn view(&self) -> AddressView {
        AddressView { address: self.address@, port: self.port, ip_kind: self.ip_kind }
    }
}

impl IPKind {
    /// The number of address bytes of this family.
    pub fn address_length(&self) -> (length: usize)
        ensures
            length == address_length(*self),
    {
        match self {
            IPKind::IPv4 => 4,
            IPKind::IPv6 => 16,
        }
    }
}

impl Address {
    /// An IPv4 address from its four bytes and a port.
    pub fn ipv4(address: [u8; 4], port: u16) -> (result: Address)
        ensures
            result@ == (AddressView { address: address@, port, ip_kind: IPKind::IPv4 }),
            result@.wf(),
    {
        Address { address: slice_to_vec(address.as_slice()), port, ip_kind: IPKind::IPv4 }
    }

    /// An IPv6 address from its sixteen bytes and a port.
    pub fn ipv6(address: [u8; 16], port: u16) -> (result: Address)
        ensures
            result@ == (AddressView { address: address@, port, ip_kind: IPKind::IPv6 }),
            result@.wf(),
    {
        Address { address: slice_to_vec(address.as_slice()), port, ip_kind: IPKind::IPv6 }
    }

    /// Whether the address has as many bytes as its family asks for. The
    /// fields are public, so a value can be built that does not.
    pub fn is_valid(&self) -> (valid: bool)
        ensures
            valid == self@.wf(),
    {
        self.address.len() == self.ip_kind.address_length()
    }
}

} // verus!
