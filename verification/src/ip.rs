//! Addresses of network interfaces as the kernel reports them: four bytes
//! for IPv4, sixteen for IPv6.

use crate::binary::merged;
use crate::binary::u8_merge;
use vstd::prelude::*;

verus! {

/// An address of a network interface.
#[derive(Clone, Copy, Debug, PartialEq, Eq)]
pub enum IpAddress {
    /// An IPv4 address: its four octets.
    V4([u8; 4]),
    /// An IPv6 address: its eight groups.
    V6([u16; 8]),
}

/// What an address holds.
pub enum IpAddressView {
    V4(Seq<u8>),
    V6(Seq<u16>),
}

impl View for IpAddress {
    type V = IpAddressView;

    open spec fn view(&self) -> IpAddressView {
        match self {
            IpAddress::V4(octets) => IpAddressView::V4(octets@),
            IpAddress::V6(groups) => IpAddressView::V6(groups@),
        }
    }
}

/// The address that `bytes` are: four bytes are the octets of an IPv4
/// address, sixteen are the groups of an IPv6 address, two bytes each with
/// the most significant first. Any other number of bytes is no address.
pub open spec fn address_of(bytes: Seq<u8>) -> Option<IpAddressView> {
    if bytes.len() == 4 {
        Some(IpAddressView::V4(bytes))
    } else if bytes.len() == 16 {
        Some(IpAddressView::V6(Seq::new(8, |i: int| merged(bytes[2 * i], bytes[2 * i + 1]))))
    } else {
        None
    }
}

impl IpAddress {
    /// Reads an address from the bytes of an address attribute.
    pub fn from_bytes(addr: &[u8]) -> (r: Option<IpAddress>)
        ensures
            match r {
                Some(address) => address_of(addr@) == Some(address@),
                None => address_of(addr@) is None,
            },
    {
        if addr.len() == 4 {
            let octets = [addr[0], addr[1], addr[2], addr[3]];
            assert(octets@ == addr@);
            Some(IpAddress::V4(octets))
        } else if addr.len() == 16 {
            let groups = [
                u8_merge(addr[0], addr[1]),
                u8_merge(addr[2], addr[3]),
                u8_merge(addr[4], addr[5]),
                u8_merge(addr[6], addr[7]),
                u8_merge(addr[8], addr[9]),
                u8_merge(addr[10], addr[11]),
                u8_merge(addr[12], addr[13]),
                u8_merge(addr[14], addr[15]),
            ];
            assert(groups@ == Seq::new(8, |i: int| merged(addr@[2 * i], addr@[2 * i + 1])));
            Some(IpAddress::V6(groups))
        } else {
            None
        }
    }
}

} // verus!
