//! Socket addresses as plain values, and the address arithmetic the tools need.
use vstd::prelude::*;

verus! {

/// A UDP endpoint: an IPv4 or IPv6 address with its port.
#[derive(Clone, Copy, Debug, PartialEq, Eq)]
pub enum SockAddr {
    V4 { ip: [u8; 4], port: u16 },
    V6 { ip: [u8; 16], port: u16, flowinfo: u32, scope_id: u32 },
}

/// The Ethernet group address of an IPv4 multicast address
/// (224.0.0.0 to 239.255.255.255): `01:00:5e` followed by the low 23 bits
/// of the address.
pub open spec fn multicast_mac_of(ip: Seq<u8>) -> Option<Seq<u8>> {
    if 224 <= ip[0] <= 239 {
        Some(seq![0x01u8, 0x00u8, 0x5eu8, ip[1] & 0x7f, ip[2], ip[3]])
    } else {
        None
    }
}

/// The IPv4 address as a number, first octet most significant.
pub open spec fn ipv4_value(ip: Seq<u8>) -> u32 {
    ((ip[0] as u32) << 24u32) | ((ip[1] as u32) << 16u32) | ((ip[2] as u32) << 8u32) | (ip[3] as u32)
}

pub fn ipv4_to_u32(ip: [u8; 4]) -> (r: u32)
    ensures
        r == ipv4_value(ip@),
{
    ((ip[0] as u32) << 24u32) | ((ip[1] as u32) << 16u32) | ((ip[2] as u32) << 8u32) | (ip[3] as u32)
}

/// The multicast MAC address that carries traffic for `addr`; `None` when
/// `addr` is not an IPv4 multicast address.
pub fn multicast_mac_from_socketaddr(addr: &SockAddr) -> (r: Option<[u8; 6]>)
    ensures
        addr matches SockAddr::V4 { ip, .. } ==> match (r, multicast_mac_of(ip@)) {
            (Some(mac), Some(m)) => mac@ == m,
            (None, None) => true,
            _ => false,
        },
        addr is V6 ==> r is None,
{
    match addr {
        SockAddr::V4 { ip, .. } => {
            if ip[0] < 224 || ip[0] > 239 {
                return None;
            }
            let ip_u32 = ipv4_to_u32(*ip);
            let low_23 = ip_u32 & 0x7FFFFF;
            let mac: [u8; 6] = [
                0x01,
                0x00,
                0x5e,
                ((low_23 >> 16u32) & 0x7F) as u8,
                ((low_23 >> 8u32) & 0xFF) as u8,
                (low_23 & 0xFF) as u8,
            ];
            let (a, b, c) = (ip[1], ip[2], ip[3]);
            let d = ip[0];
            assert(((((((d as u32) << 24u32) | ((a as u32) << 16u32) | ((b as u32) << 8u32) | (
            c as u32)) & 0x7FFFFF) >> 16u32) & 0x7F) as u8 == a & 0x7f) by (bit_vector);
            assert(((((((d as u32) << 24u32) | ((a as u32) << 16u32) | ((b as u32) << 8u32) | (
            c as u32)) & 0x7FFFFF) >> 8u32) & 0xFF) as u8 == b) by (bit_vector);
            assert((((((d as u32) << 24u32) | ((a as u32) << 16u32) | ((b as u32) << 8u32) | (
            c as u32)) & 0x7FFFFF) & 0xFF) as u8 == c) by (bit_vector);
            assert(mac@ =~= seq![0x01u8, 0x00u8, 0x5eu8, a & 0x7f, b, c]);
            Some(mac)
        },
        SockAddr::V6 { .. } => None,
    }
}

} // verus!
