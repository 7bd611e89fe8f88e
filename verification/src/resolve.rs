//! The interface resolver's decision logic: given what the outside
//! enumeration reports about the machine's interfaces, pick the requested
//! one and its bound IPv4 address, or fail before any packet is built.

use vstd::prelude::*;

verus! {

use crate::net::{IpAddress, Ipv4Address, MacAddress, SetupError};

/// What the outside enumeration reports of one interface: its name, its
/// hardware address, and every address bound to it, in order.
pub struct InterfaceInfo {
    pub name: String,
    pub mac: MacAddress,
    pub ips: Vec<IpAddress>,
}

/// A successfully resolved interface: the scan sends from this IPv4
/// address and hardware address.
pub struct ResolvedInterface {
    pub name: String,
    pub ip: Ipv4Address,
    pub mac: MacAddress,
}

/// The first interface with the given name, or -1 if none matches.
pub open spec fn find_iface(list: Seq<InterfaceInfo>, name: Seq<char>) -> int
    decreases list.len(),
{
    if list.len() == 0 {
        -1
    } else if list[0].name@ == name {
        0
    } else {
        let r = find_iface(list.skip(1), name);
        if r == -1 {
            -1
        } else {
            1 + r
        }
    }
}

/// The first IPv4 address in a bound-address list, or -1 if none is IPv4.
pub open spec fn first_v4(ips: Seq<IpAddress>) -> int
    decreases ips.len(),
{
    if ips.len() == 0 {
        -1
    } else if ips[0] is V4 {
        0
    } else {
        let r = first_v4(ips.skip(1));
        if r == -1 {
            -1
        } else {
            1 + r
        }
    }
}

/// `find_iface` returns the first matching index, and -1 exactly when no
/// interface has the name.
pub proof fn lemma_find_iface(list: Seq<InterfaceInfo>, name: Seq<char>)
    ensures
        -1 <= find_iface(list, name) < list.len(),
        find_iface(list, name) == -1 <==> (forall|j: int|
            0 <= j < list.len() ==> list[j].name@ != name),
        find_iface(list, name) >= 0 ==> list[find_iface(list, name)].name@ == name && (forall|
            j: int,
        |
            0 <= j < find_iface(list, name) ==> list[j].name@ != name),
    decreases list.len(),
{
    if list.len() == 0 {
    } else if list[0].name@ == name {
    } else {
        lemma_find_iface(list.skip(1), name);
        let r = find_iface(list.skip(1), name);
        if r == -1 {
            assert forall|j: int| 0 <= j < list.len() implies list[j].name@ != name by {
                if j > 0 {
                    assert(list.skip(1)[j - 1] == list[j]);
                }
            }
        } else {
            assert(list[1 + r] == list.skip(1)[r]);
            assert forall|j: int| 0 <= j < 1 + r implies list[j].name@ != name by {
                if j > 0 {
                    assert(list.skip(1)[j - 1] == list[j]);
                }
            }
        }
    }
}

/// `first_v4` returns the first IPv4 index, and -1 exactly when only
/// non-IPv4 addresses are bound.
pub proof fn lemma_first_v4(ips: Seq<IpAddress>)
    ensures
        -1 <= first_v4(ips) < ips.len(),
        first_v4(ips) == -1 <==> (forall|j: int| 0 <= j < ips.len() ==> !(ips[j] is V4)),
        first_v4(ips) >= 0 ==> ips[first_v4(ips)] is V4 && (forall|j: int|
            0 <= j < first_v4(ips) ==> !(ips[j] is V4)),
    decreases ips.len(),
{
    if ips.len() == 0 {
    } else if ips[0] is V4 {
    } else {
        lemma_first_v4(ips.skip(1));
        let r = first_v4(ips.skip(1));
        if r == -1 {
            assert forall|j: int| 0 <= j < ips.len() implies !(ips[j] is V4) by {
                if j > 0 {
                    assert(ips.skip(1)[j - 1] == ips[j]);
                }
            }
        } else {
            assert(ips[1 + r] == ips.skip(1)[r]);
            assert forall|j: int| 0 <= j < 1 + r implies !(ips[j] is V4) by {
                if j > 0 {
                    assert(ips.skip(1)[j - 1] == ips[j]);
                }
            }
        }
    }
}

/// The setup error that resolving this name against this list reports, if
/// any: `InterfaceNotFound` when no name matches, `NoIPv4Address` when the
/// matched interface has no bound address at all, and
/// `UnsupportedAddressFamily` when addresses are bound but none is IPv4.
pub open spec fn resolution_error(list: Seq<InterfaceInfo>, name: Seq<char>) -> Option<
    SetupError,
> {
    let i = find_iface(list, name);
    if i == -1 {
        Some(SetupError::InterfaceNotFound)
    } else if list[i].ips@.len() == 0 {
        Some(SetupError::NoIPv4Address)
    } else if first_v4(list[i].ips@) == -1 {
        Some(SetupError::UnsupportedAddressFamily)
    } else {
        None
    }
}

/// Law: resolving an interface that exists but has no bound IPv4 address —
/// no bound address at all — fails with `NoIPv4Address`, and no packet is
/// built: resolution yields no frame bytes and the codec is never handed a
/// source address. An interface with addresses bound but none of them IPv4
/// is left out of this statement: there the family error named separately,
/// `UnsupportedAddressFamily`, is reported instead.
pub proof fn lemma_no_ipv4_address(list: Seq<InterfaceInfo>, name: Seq<char>)
    requires
        find_iface(list, name) >= 0,
        list[find_iface(list, name)].ips@.len() == 0,
    ensures
        resolution_error(list, name) == Some(SetupError::NoIPv4Address),
{
}

/// Resolves an interface by name against the reported interface list.
/// Fails with `InterfaceNotFound` when no name matches, `NoIPv4Address`
/// when the matched interface has no bound address at all, and
/// `UnsupportedAddressFamily` when addresses are bound but none is IPv4;
/// otherwise yields the interface's first bound IPv4 address and its
/// hardware address. Setup errors are raised here, before any packet is
/// built.
pub fn get_interface(name: &String, interfaces: &Vec<InterfaceInfo>) -> (r: Result<
    ResolvedInterface,
    SetupError,
>)
    ensures
        ({
            let i = find_iface(interfaces@, name@);
            match r {
                Ok(resolved) => {
                    &&& i >= 0
                    &&& first_v4(interfaces@[i].ips@) >= 0
                    &&& resolved.name@ == interfaces@[i].name@
                    &&& resolved.mac == interfaces@[i].mac
                    &&& IpAddress::V4(resolved.ip) == interfaces@[i].ips@[first_v4(
                        interfaces@[i].ips@,
                    )]
                },
                Err(SetupError::InterfaceNotFound) => i == -1,
                Err(SetupError::NoIPv4Address) => i >= 0 && interfaces@[i].ips@.len() == 0,
                Err(SetupError::UnsupportedAddressFamily) => i >= 0 && interfaces@[i].ips@.len()
                    > 0 && first_v4(interfaces@[i].ips@) == -1,
            }
        }),
        ({
            match r {
                Ok(_) => resolution_error(interfaces@, name@) is None,
                Err(e) => resolution_error(interfaces@, name@) == Some(e),
            }
        }),
{
    proof {
        lemma_find_iface(interfaces@, name@);
    }
    let n = interfaces.len();
    let mut i: usize = 0;
    while i < n
        invariant
            i <= n,
            n == interfaces@.len(),
            forall|j: int| 0 <= j < i ==> interfaces@[j].name@ != name@,
        decreases n - i,
    {
        if interfaces[i].name == *name {
            proof {
                lemma_find_iface(interfaces@, name@);
                assert(find_iface(interfaces@, name@) == i);
            }
            let info = &interfaces[i];
            if info.ips.len() == 0 {
                return Err(SetupError::NoIPv4Address);
            }
            proof {
                lemma_first_v4(info.ips@);
            }
            let m = info.ips.len();
            let mut k: usize = 0;
            while k < m
                invariant
                    k <= m,
                    m == info.ips@.len(),
                    i < interfaces@.len(),
                    *info == interfaces@[i as int],
                    find_iface(interfaces@, name@) == i,
                    forall|j: int| 0 <= j < k ==> !(info.ips@[j] is V4),
                decreases m - k,
            {
                match info.ips[k] {
                    IpAddress::V4(ip) => {
                        proof {
                            lemma_first_v4(info.ips@);
                            assert(first_v4(info.ips@) == k);
                            assert(info.ips@[k as int] == IpAddress::V4(ip));
                        }
                        let resolved = ResolvedInterface {
                            name: info.name.clone(),
                            ip,
                            mac: info.mac,
                        };
                        proof {
                            let fi = find_iface(interfaces@, name@);
                            assert(fi == i);
                            assert(interfaces@[fi] == *info);
                            assert(first_v4(interfaces@[fi].ips@) == k);
                            assert(resolved.name@ == interfaces@[fi].name@);
                            assert(resolved.mac == interfaces@[fi].mac);
                            assert(IpAddress::V4(resolved.ip) == interfaces@[fi].ips@[first_v4(
                                interfaces@[fi].ips@,
                            )]);
                        }
                        return Ok(resolved);
                    },
                    IpAddress::V6(_) => {},
                }
                k = k + 1;
            }
            return Err(SetupError::UnsupportedAddressFamily);
        }
        i = i + 1;
    }
    Err(SetupError::InterfaceNotFound)
}

} // verus!
