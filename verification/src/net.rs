//! Plain data model shared by every component: addresses, endpoints, the
//! reachability classification, and the error taxonomy.

use vstd::prelude::*;

verus! {

/// Inferred reachability of one probed port.
#[derive(Clone, Copy, Debug, PartialEq, Eq, Structural)]
pub enum NetState {
    Open,
    Closed,
    Filtered,
}

/// A four-octet IPv4 address, most significant octet first.
#[derive(Clone, Copy, Debug, PartialEq, Eq, Structural)]
pub struct Ipv4Address {
    pub o0: u8,
    pub o1: u8,
    pub o2: u8,
    pub o3: u8,
}

/// A 128-bit IPv6 address, kept only so that an unsupported address family
/// can be represented and rejected explicitly.
#[derive(Clone, Copy, Debug, PartialEq, Eq, Structural)]
pub struct Ipv6Address {
    pub hi: u64,
    pub lo: u64,
}

/// An IP address of either family. Only the IPv4 family is supported by the
/// probe codec; IPv6 inputs are rejected, never truncated.
#[derive(Clone, Copy, Debug, PartialEq, Eq, Structural)]
pub enum IpAddress {
    V4(Ipv4Address),
    V6(Ipv6Address),
}

/// A six-octet link-layer hardware address.
#[derive(Clone, Copy, Debug, PartialEq, Eq, Structural)]
pub struct MacAddress {
    pub m0: u8,
    pub m1: u8,
    pub m2: u8,
    pub m3: u8,
    pub m4: u8,
    pub m5: u8,
}

/// One probe target: an address and a port. Immutable once created.
#[derive(Clone, Copy, Debug, PartialEq, Eq, Structural)]
pub struct Endpoint {
    pub addr: IpAddress,
    pub port: u16,
}

/// Fatal errors raised while resolving the scan's interface, before any job
/// is submitted.
#[derive(Clone, Copy, Debug, PartialEq, Eq, Structural)]
pub enum SetupError {
    /// No interface of the requested name exists.
    InterfaceNotFound,
    /// The interface has no bound address at all.
    NoIPv4Address,
    /// The interface has bound addresses, but none of them is IPv4.
    UnsupportedAddressFamily,
}

/// Errors recovered at job granularity: one probe's failure is surfaced as
/// its outcome and never touches sibling jobs.
#[derive(Clone, Copy, Debug, PartialEq, Eq, Structural)]
pub enum ProbeError {
    SendFailure,
    Timeout,
    MalformedResponse,
}

/// Precondition violations of the packet codec; a configuration error, not a
/// transient network condition.
#[derive(Clone, Copy, Debug, PartialEq, Eq, Structural)]
pub enum CodecError {
    /// The destination buffer holds fewer bytes than one probe frame.
    BufferTooSmall,
    /// A given address is not IPv4.
    AddressFamilyUnsupported,
}

} // verus!
