//! The network interface that carries the device's IP packets: the address
//! it is shown with.

use vstd::prelude::*;

use crate::command::commands::ifconfig::ipv6_display;
use crate::command::commands::ifconfig::ipv6_string;
use crate::datatypes::packet_log::ipv4_display;
use crate::datatypes::packet_log::ipv4_string;

verus! {

/// Whether an IPv6 address (sixteen bytes) is multicast (`ff00::/8`), as
/// std's `Ipv6Addr::is_multicast` says.
pub open spec fn is_multicast_v6(a: Seq<u8>) -> bool {
    a[0] == 0xff
}

/// Whether an IPv6 address is `::` (std's `Ipv6Addr::is_unspecified`).
pub open spec fn is_unspecified_v6(a: Seq<u8>) -> bool {
    forall|i: int| 0 <= i < 16 ==> a[i] == 0
}

/// Whether an IPv6 address is `::1` (std's `Ipv6Addr::is_loopback`).
pub open spec fn is_loopback_v6(a: Seq<u8>) -> bool {
    (forall|i: int| 0 <= i < 15 ==> a[i] == 0) && a[15] == 1
}

/// Whether an interface address, given by its octets, names the interface:
/// any IPv4 address; an IPv6 address that is no multicast, loopback or
/// unspecified one.
pub open spec fn names_interface(a: Seq<u8>) -> bool {
    a.len() == 4 || (a.len() == 16 && !is_multicast_v6(a) && !is_loopback_v6(a) && !is_unspecified_v6(a))
}

/// An address as text.
pub open spec fn address_display(a: Seq<u8>) -> Seq<char> {
    if a.len() == 4 {
        ipv4_display(a)
    } else {
        ipv6_display(a)
    }
}

/// The first address of `addrs` from `i` on that names the interface, as
/// text.
pub open spec fn first_name_from(addrs: Seq<Seq<u8>>, i: int) -> Option<Seq<char>>
    decreases addrs.len() - i,
{
    if i < 0 || i >= addrs.len() {
        None
    } else if names_interface(addrs[i]) {
        Some(address_display(addrs[i]))
    } else {
        first_name_from(addrs, i + 1)
    }
}

/// Whether the IPv6 address `a` names the interface.
fn names_interface_v6(a: &[u8]) -> (r: bool)
    requires
        a@.len() == 16,
    ensures
        r == names_interface(a@),
{
    if a[0] == 0xff {
        return false;
    }
    let mut i: usize = 0;
    while i < 15
        invariant
            i <= 15,
            a@.len() == 16,
            a@[0] != 0xff,
            forall|j: int| 0 <= j < i ==> a@[j] == 0,
        decreases 15 - i,
    {
        if a[i] != 0 {
            assert(!is_loopback_v6(a@) && !is_unspecified_v6(a@));
            return true;
        }
        i = i + 1;
    }
    a[15] > 1
}

/// The address the interface is shown with: the first IPv4 address, or
/// else the first IPv6 address that is no multicast, loopback or
/// unspecified one, as text; `None` when there is none, or when the
/// addresses could not be read (`addrs` is `None`).
pub fn get_addr_as_string(addrs: Option<Vec<Vec<u8>>>) -> (r: Option<String>)
    ensures
        match addrs {
            None => r is None,
            Some(v) => {
                let a = v@.map_values(|x: Vec<u8>| x@);
                match r {
                    Some(s) => first_name_from(a, 0) == Some(s@),
                    None => first_name_from(a, 0) is None,
                }
            },
        },
{
    let v = match addrs {
        Some(v) => v,
        None => return None,
    };
    let ghost a = v@.map_values(|x: Vec<u8>| x@);
    let mut i: usize = 0;
    while i < v.len()
        invariant
            i <= v.len(),
            addrs == Some(v),
            a == v@.map_values(|x: Vec<u8>| x@),
            first_name_from(a, 0) == first_name_from(a, i as int),
        decreases v.len() - i,
    {
        let x = &v[i];
        assert(a[i as int] == x@);
        if x.len() == 4 {
            return Some(ipv4_string(x.as_slice()));
        }
        if x.len() == 16 && names_interface_v6(x.as_slice()) {
            return Some(ipv6_string(x.as_slice()));
        }
        i = i + 1;
    }
    None
}

} // verus!
