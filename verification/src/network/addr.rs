//! Hardware and protocol addresses as plain values, and the classes they fall into.
use vstd::prelude::*;
use super::cidr::{addr_of_octets, Ipv4Addr};

verus! {

/// A six-octet Ethernet address, in the order in which it goes over the wire.
#[derive(Clone, Copy, Debug, PartialEq, Eq, PartialOrd, Ord, Hash)]
pub struct EthernetAddress(pub [u8; 6]);

impl View for EthernetAddress {
    type V = Seq<u8>;

    open spec fn view(&self) -> Seq<u8> {
        self.0@
    }
}

/// The six octets of the broadcast address.
pub open spec fn broadcast_octets() -> Seq<u8> {
    seq![0xffu8, 0xff, 0xff, 0xff, 0xff, 0xff]
}

/// A hardware address with the multicast bit set: the lowest bit of its first octet.
pub open spec fn octets_are_multicast(mac: Seq<u8>) -> bool {
    mac[0] % 2 == 1
}

/// A hardware address that names a single station: neither the broadcast address nor a
/// multicast address.
pub open spec fn octets_are_unicast(mac: Seq<u8>) -> bool {
    mac != broadcast_octets() && !octets_are_multicast(mac)
}

impl EthernetAddress {
    /// The address with the six octets of `mac`.
    pub open spec fn of_octets(mac: Seq<u8>) -> EthernetAddress {
        EthernetAddress([mac[0], mac[1], mac[2], mac[3], mac[4], mac[5]])
    }

    /// All six octets are `0xff`.
    pub open spec fn spec_is_broadcast(&self) -> bool {
        self@ == broadcast_octets()
    }

    /// The lowest bit of the first octet is set.
    pub open spec fn spec_is_multicast(&self) -> bool {
        octets_are_multicast(self@)
    }

    /// Neither the broadcast address nor a multicast address.
    pub open spec fn spec_is_unicast(&self) -> bool {
        octets_are_unicast(self@)
    }

    /// The address that every station listens to.
    pub fn broadcast() -> (r: Self)
        ensures
            r.spec_is_broadcast(),
    {
        let r = EthernetAddress([0xff, 0xff, 0xff, 0xff, 0xff, 0xff]);
        assert(r@ =~= broadcast_octets());
        r
    }

    /// The address of six zero octets.
    pub fn zero() -> (r: Self)
        ensures
            r@ == seq![0u8, 0, 0, 0, 0, 0],
    {
        let r = EthernetAddress([0, 0, 0, 0, 0, 0]);
        assert(r@ =~= seq![0u8, 0, 0, 0, 0, 0]);
        r
    }

    /// Whether this is the broadcast address.
    #[verifier::when_used_as_spec(spec_is_broadcast)]
    pub fn is_broadcast(&self) -> (r: bool)
        ensures
            r == self.spec_is_broadcast(),
    {
        let r = self.0[0] == 0xff && self.0[1] == 0xff && self.0[2] == 0xff && self.0[3] == 0xff
            && self.0[4] == 0xff && self.0[5] == 0xff;
        assert(r == (self@ =~= broadcast_octets()));
        r
    }

    /// Whether the multicast bit is set.
    #[verifier::when_used_as_spec(spec_is_multicast)]
    pub fn is_multicast(&self) -> (r: bool)
        ensures
            r == self.spec_is_multicast(),
    {
        let b: u8 = self.0[0];
        assert((b & 0x01 != 0) == (b % 2 == 1)) by (bit_vector);
        b & 0x01 != 0
    }

    /// Whether the address names a single station.
    #[verifier::when_used_as_spec(spec_is_unicast)]
    pub fn is_unicast(&self) -> (r: bool)
        ensures
            r == self.spec_is_unicast(),
    {
        !(self.is_broadcast() || self.is_multicast())
    }

    /// Whether two addresses hold the same octets.
    pub fn same_as(&self, other: &EthernetAddress) -> (r: bool)
        ensures
            r == (self@ == other@),
    {
        let r = self.0[0] == other.0[0] && self.0[1] == other.0[1] && self.0[2] == other.0[2]
            && self.0[3] == other.0[3] && self.0[4] == other.0[4] && self.0[5] == other.0[5];
        assert(r == (self@ =~= other@));
        r
    }
}

/// An address is the one that its six octets make.
pub proof fn lemma_of_octets(a: EthernetAddress)
    ensures
        a@.len() == 6,
        EthernetAddress::of_octets(a@) == a,
{
    assert(EthernetAddress::of_octets(a@).0 =~= a.0);
}

/// The four octets of an address, highest first.
pub open spec fn octets_of(addr: Ipv4Addr) -> Seq<u8> {
    seq![
        (addr / 0x100_0000) as u8,
        (addr / 0x1_0000 % 0x100) as u8,
        (addr / 0x100 % 0x100) as u8,
        (addr % 0x100) as u8,
    ]
}

/// An address that names a single host: not `255.255.255.255`, not in `224.0.0.0/4`, and not
/// in `0.0.0.0/8`.
pub open spec fn spec_ipv4_is_unicast(addr: Ipv4Addr) -> bool {
    &&& addr != 0xFFFF_FFFF
    &&& !(0xE000_0000 <= addr <= 0xEFFF_FFFF)
    &&& addr >= 0x0100_0000
}

/// Whether the address names a single host.
#[verifier::when_used_as_spec(spec_ipv4_is_unicast)]
pub fn ipv4_is_unicast(addr: Ipv4Addr) -> (r: bool)
    ensures
        r == spec_ipv4_is_unicast(addr),
{
    addr != 0xFFFF_FFFF && !(0xE000_0000 <= addr && addr <= 0xEFFF_FFFF) && addr >= 0x0100_0000
}

/// Splits an address into its four octets, highest first.
pub fn to_ipv4_address(addr: Ipv4Addr) -> (r: [u8; 4])
    ensures
        r@ == octets_of(addr),
        addr_of_octets(r[0], r[1], r[2], r[3]) == addr,
{
    let a: u8 = (addr >> 24) as u8;
    let b: u8 = ((addr >> 16) & 0xff) as u8;
    let c: u8 = ((addr >> 8) & 0xff) as u8;
    let d: u8 = (addr & 0xff) as u8;
    assert(addr >> 24 == addr / 0x100_0000 && (addr >> 24) < 0x100) by (bit_vector);
    assert((addr >> 16) & 0xff == addr / 0x1_0000 % 0x100) by (bit_vector);
    assert((addr >> 8) & 0xff == addr / 0x100 % 0x100) by (bit_vector);
    assert(addr & 0xff == addr % 0x100) by (bit_vector);
    let r = [a, b, c, d];
    assert(r@ =~= octets_of(addr));
    r
}

/// Joining the octets of an address gives the address back.
pub proof fn lemma_octets_round_trip(addr: Ipv4Addr)
    ensures
        octets_of(addr).len() == 4,
        addr_of_octets(octets_of(addr)[0], octets_of(addr)[1], octets_of(addr)[2], octets_of(addr)[3])
            == addr,
{
}

} // verus!
