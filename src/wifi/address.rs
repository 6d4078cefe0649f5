//! Network addresses of bridges.
use vstd::prelude::*;

use crate::wifi::COMMAND_PORT;

verus! {

/// An IPv4 address, held as the big-endian number of its four octets.
#[derive(Debug, Clone, Copy, PartialEq, Eq, Structural, PartialOrd, Ord, Hash)]
pub struct Ipv4Address(pub u32);

/// The number of the address `a.b.c.d`.
pub open spec fn octets_value(a: u8, b: u8, c: u8, d: u8) -> u32 {
    (a as int * 0x1000000 + b as int * 0x10000 + c as int * 0x100 + d as int) as u32
}

impl Ipv4Address {
    /// The address `a.b.c.d`.
    pub fn from_octets(a: u8, b: u8, c: u8, d: u8) -> (r: Ipv4Address)
        ensures
            r.0 == octets_value(a, b, c, d),
            r.0 as int == a as int * 0x1000000 + b as int * 0x10000 + c as int * 0x100 + d as int,
    {
        let v: u32 = (a as u32) * 0x1000000 + (b as u32) * 0x10000 + (c as u32) * 0x100 + (d as u32);
        Ipv4Address(v)
    }
}

/// A discovered bridge: its network address and the identifier token of its
/// reply. Two bridge addresses are equal, and ordered, by network address
/// alone: replies from one address are one device whatever token they carry.
#[derive(Debug, Clone)]
pub struct BridgeAddress {
    pub ip: Ipv4Address,
    pub id: String,
}

impl View for BridgeAddress {
    type V = (u32, Seq<char>);

    open spec fn view(&self) -> (u32, Seq<char>) {
        (self.ip.0, self.id@)
    }
}

impl BridgeAddress {
    pub fn new(ip: Ipv4Address, id: String) -> (r: BridgeAddress)
        ensures
            r.ip == ip,
            r.id@ == id@,
    {
        BridgeAddress { ip, id }
    }

    pub fn ip(&self) -> (r: Ipv4Address)
        ensures
            r == self.ip,
    {
        self.ip
    }

    pub fn id(&self) -> (r: &str)
        ensures
            r@ == self.id@,
    {
        self.id.as_str()
    }

    /// Where a command frame for this bridge is sent: its address and the
    /// command port.
    pub fn command_target(&self) -> (r: (Ipv4Address, u16))
        ensures
            r.0 == self.ip,
            r.1 == COMMAND_PORT,
    {
        (self.ip, COMMAND_PORT)
    }
}

impl PartialEq for BridgeAddress {
    fn eq(&self, other: &BridgeAddress) -> (r: bool)
        ensures
            r == (self.ip.0 == other.ip.0),
    {
        self.ip.0 == other.ip.0
    }
}

impl vstd::std_specs::cmp::PartialEqSpecImpl for BridgeAddress {
    open spec fn obeys_eq_spec() -> bool {
        true
    }

    open spec fn eq_spec(&self, other: &BridgeAddress) -> bool {
        self.ip.0 == other.ip.0
    }
}

impl Eq for BridgeAddress {
}

impl PartialOrd for BridgeAddress {
    fn partial_cmp(&self, other: &BridgeAddress) -> (r: Option<core::cmp::Ordering>)
        ensures
            r == Some(ip_order(self.ip.0, other.ip.0)),
    {
        if self.ip.0 < other.ip.0 {
            Some(core::cmp::Ordering::Less)
        } else if self.ip.0 == other.ip.0 {
            Some(core::cmp::Ordering::Equal)
        } else {
            Some(core::cmp::Ordering::Greater)
        }
    }
}

/// How two addresses compare.
pub open spec fn ip_order(a: u32, b: u32) -> core::cmp::Ordering {
    if a < b {
        core::cmp::Ordering::Less
    } else if a == b {
        core::cmp::Ordering::Equal
    } else {
        core::cmp::Ordering::Greater
    }
}

impl vstd::std_specs::cmp::PartialOrdSpecImpl for BridgeAddress {
    open spec fn obeys_partial_cmp_spec() -> bool {
        true
    }

    open spec fn partial_cmp_spec(&self, other: &BridgeAddress) -> Option<core::cmp::Ordering> {
        Some(ip_order(self.ip.0, other.ip.0))
    }
}

} // verus!
