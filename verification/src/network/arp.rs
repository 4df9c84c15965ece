//! ARP: finding the neighbors of a range, asking whether an address is taken, and the
//! announcements that claim an address.
use vstd::prelude::*;
use super::addr::{
    broadcast_octets, ipv4_is_unicast, lemma_of_octets, octets_are_unicast, spec_ipv4_is_unicast,
    EthernetAddress,
};
use super::cidr::{Ipv4Addr, Ipv4Cidr};
use super::eth::{dispatch_ethernet, for_station, is_for_station, polls_again, PollBudget};
use super::table::{with_entry, AddrMap};
use super::text::{ipv4_text, mac_text, make_paren_line, paren_line, push_ipv4, push_mac, StringableVec};
use super::wire::{
    arp_of_packet, arp_packet, emit_arp, ethernet_frame, ethernet_header, ethernet_payload,
    parse_arp, parse_ethernet, ArpFields, ArpRepr, WireError, ARP_REPLY, ARP_REQUEST,
    ETHERTYPE_ARP,
};

verus! {

/// The neighbors that answered: their hardware addresses by their IPv4 addresses.
pub type ArpResponses = AddrMap<EthernetAddress>;

/// The broadcast frame from the station `own` that carries an ARP packet.
pub open spec fn arp_broadcast(own: Seq<u8>, f: ArpFields) -> Seq<u8> {
    ethernet_frame(broadcast_octets(), own, ETHERTYPE_ARP, arp_packet(f))
}

/// The question who holds `target`: asked by `own` without an address of its own, of
/// everybody.
pub open spec fn solicitation(own: Seq<u8>, target: Ipv4Addr) -> ArpFields {
    ArpFields {
        operation: ARP_REQUEST,
        source_hardware_addr: own,
        source_protocol_addr: 0,
        target_hardware_addr: broadcast_octets(),
        target_protocol_addr: target,
    }
}

/// The request in which `own` gives itself out as the holder of `claimed`.
pub open spec fn claim_by_request(own: Seq<u8>, claimed: Ipv4Addr) -> ArpFields {
    ArpFields {
        operation: ARP_REQUEST,
        source_hardware_addr: own,
        source_protocol_addr: claimed,
        target_hardware_addr: seq![0u8, 0, 0, 0, 0, 0],
        target_protocol_addr: claimed,
    }
}

/// The unasked reply in which `own` gives itself out as the holder of `claimed`.
pub open spec fn claim_by_reply(own: Seq<u8>, claimed: Ipv4Addr) -> ArpFields {
    ArpFields {
        operation: ARP_REPLY,
        source_hardware_addr: own,
        source_protocol_addr: claimed,
        target_hardware_addr: own,
        target_protocol_addr: claimed,
    }
}

/// Builds the broadcast frame that carries an ARP packet from `eth_addr`.
fn broadcast_arp(eth_addr: &EthernetAddress, repr: &ArpRepr) -> (frame: Vec<u8>)
    ensures
        frame@ == arp_broadcast(eth_addr@, repr@),
        frame@.len() == 42,
{
    let packet = emit_arp(repr);
    proof {
        lemma_of_octets(repr.source_hardware_addr);
        lemma_of_octets(repr.target_hardware_addr);
        lemma_of_octets(*eth_addr);
    }
    let everybody = EthernetAddress::broadcast();
    dispatch_ethernet(eth_addr, &everybody, ETHERTYPE_ARP, packet.as_slice())
}

/// The frame that asks who holds `addr`.
pub fn solicit(eth_addr: &EthernetAddress, addr: Ipv4Addr) -> (frame: Vec<u8>)
    ensures
        frame@ == arp_broadcast(eth_addr@, solicitation(eth_addr@, addr)),
{
    let repr = ArpRepr {
        operation: ARP_REQUEST,
        source_hardware_addr: *eth_addr,
        source_protocol_addr: 0,
        target_hardware_addr: EthernetAddress::broadcast(),
        target_protocol_addr: addr,
    };
    broadcast_arp(eth_addr, &repr)
}

/// The frame of the request that claims the gateway's address for `eth_addr`.
pub fn attack_gateway_v4_request(eth_addr: &EthernetAddress, gateway: Ipv4Addr) -> (frame: Vec<u8>)
    ensures
        frame@ == arp_broadcast(eth_addr@, claim_by_request(eth_addr@, gateway)),
{
    let repr = ArpRepr {
        operation: ARP_REQUEST,
        source_hardware_addr: *eth_addr,
        source_protocol_addr: gateway,
        target_hardware_addr: EthernetAddress::zero(),
        target_protocol_addr: gateway,
    };
    broadcast_arp(eth_addr, &repr)
}

/// The frame of the unasked reply that claims the gateway's address for `eth_addr`.
pub fn attack_gateway_v4_reply(eth_addr: &EthernetAddress, gateway: Ipv4Addr) -> (frame: Vec<u8>)
    ensures
        frame@ == arp_broadcast(eth_addr@, claim_by_reply(eth_addr@, gateway)),
{
    let repr = ArpRepr {
        operation: ARP_REPLY,
        source_hardware_addr: *eth_addr,
        source_protocol_addr: gateway,
        target_hardware_addr: *eth_addr,
        target_protocol_addr: gateway,
    };
    broadcast_arp(eth_addr, &repr)
}

/// The frames of the requests that claim the address of each neighbor for `eth_addr`, one per
/// neighbor, in rising order of the neighbors' addresses.
pub fn attack_network_v4_request(eth_addr: &EthernetAddress, addrs: &ArpResponses) -> (frames:
    Vec<Vec<u8>>)
    ensures
        frames@.len() == addrs@.len(),
        forall|i: int|
            0 <= i < frames@.len() ==> (#[trigger] frames@[i])@ == arp_broadcast(
                eth_addr@,
                claim_by_request(eth_addr@, addrs@[i].0),
            ),
{
    let mut frames: Vec<Vec<u8>> = Vec::new();
    let all = addrs.entries();
    let n = addrs.len();
    let mut i: usize = 0;
    while i < n
        invariant
            i <= n,
            n == addrs@.len(),
            all@ == addrs@,
            frames@.len() == i,
            forall|j: int|
                0 <= j < i ==> (#[trigger] frames@[j])@ == arp_broadcast(
                    eth_addr@,
                    claim_by_request(eth_addr@, addrs@[j].0),
                ),
        decreases n - i,
    {
        let neighbor = all[i];
        frames.push(attack_gateway_v4_request(eth_addr, neighbor.0));
        i += 1;
    }
    frames
}

/// The frames of the unasked replies that claim the address of each neighbor for `eth_addr`,
/// one per neighbor, in rising order of the neighbors' addresses.
pub fn attack_network_v4_reply(eth_addr: &EthernetAddress, addrs: &ArpResponses) -> (frames: Vec<
    Vec<u8>,
>)
    ensures
        frames@.len() == addrs@.len(),
        forall|i: int|
            0 <= i < frames@.len() ==> (#[trigger] frames@[i])@ == arp_broadcast(
                eth_addr@,
                claim_by_reply(eth_addr@, addrs@[i].0),
            ),
{
    let mut frames: Vec<Vec<u8>> = Vec::new();
    let all = addrs.entries();
    let n = addrs.len();
    let mut i: usize = 0;
    while i < n
        invariant
            i <= n,
            n == addrs@.len(),
            all@ == addrs@,
            frames@.len() == i,
            forall|j: int|
                0 <= j < i ==> (#[trigger] frames@[j])@ == arp_broadcast(
                    eth_addr@,
                    claim_by_reply(eth_addr@, addrs@[j].0),
                ),
        decreases n - i,
    {
        let neighbor = all[i];
        frames.push(attack_gateway_v4_reply(eth_addr, neighbor.0));
        i += 1;
    }
    frames
}

/// The ARP packet that a frame brings from a neighbor. A frame too short for its header is
/// truncated; one that the station does not listen to is dropped; one that is not ARP, not ARP
/// for Ethernet and IPv4, or neither request nor reply is unrecognized; one whose sender does
/// not give a unicast hardware address and a unicast IPv4 address is dropped.
pub open spec fn arp_from_neighbor(own: Seq<u8>, frame: Seq<u8>) -> Result<ArpFields, WireError> {
    if frame.len() < 14 {
        Err(WireError::Truncated)
    } else if !for_station(ethernet_header(frame).dst_addr, own) {
        Err(WireError::Dropped)
    } else if ethernet_header(frame).ethertype != ETHERTYPE_ARP {
        Err(WireError::Unrecognized)
    } else {
        match arp_of_packet(frame.skip(14)) {
            Err(e) => Err(e),
            Ok(f) => if f.operation != ARP_REQUEST && f.operation != ARP_REPLY {
                Err(WireError::Unrecognized)
            } else if spec_ipv4_is_unicast(f.source_protocol_addr) && octets_are_unicast(
                f.source_hardware_addr,
            ) {
                Ok(f)
            } else {
                Err(WireError::Dropped)
            },
        }
    }
}

/// Reads the ARP packet that a frame brings from a neighbor.
pub fn process_arp(eth_addr: &EthernetAddress, frame: &[u8]) -> (r: Result<ArpRepr, WireError>)
    ensures
        r matches Ok(repr) ==> arp_from_neighbor(eth_addr@, frame@) matches Ok(f) && f == repr@,
        r matches Err(e) ==> arp_from_neighbor(eth_addr@, frame@) matches Err(x) && x == e,
{
    let header = match parse_ethernet(frame) {
        Ok(h) => h,
        Err(e) => {
            return Err(e);
        },
    };
    if !is_for_station(&header.dst_addr, eth_addr) {
        return Err(WireError::Dropped);
    }
    if header.ethertype != ETHERTYPE_ARP {
        return Err(WireError::Unrecognized);
    }
    let repr = match parse_arp(ethernet_payload(frame)) {
        Ok(repr) => repr,
        Err(e) => {
            return Err(e);
        },
    };
    if repr.operation != ARP_REQUEST && repr.operation != ARP_REPLY {
        Err(WireError::Unrecognized)
    } else if ipv4_is_unicast(repr.source_protocol_addr) && repr.source_hardware_addr.is_unicast() {
        Ok(repr)
    } else {
        Err(WireError::Dropped)
    }
}

/// A search for the neighbors in a range of addresses. First every address of the range is
/// asked for, one frame each; then the answers are gathered from the receive queue until the
/// poll budget is used up.
pub struct NeighborScan {
    eth_addr: EthernetAddress,
    range: Ipv4Cidr,
    found: ArpResponses,
    budget: PollBudget,
}

impl NeighborScan {
    /// The hardware address of the station that searches.
    pub closed spec fn own(&self) -> Seq<u8> {
        self.eth_addr@
    }

    /// The addresses that are still to be asked for, in order.
    pub closed spec fn to_ask(&self) -> Seq<Ipv4Addr> {
        self.range.remaining()
    }

    /// The neighbors found so far.
    pub closed spec fn found(&self) -> Seq<(Ipv4Addr, EthernetAddress)> {
        self.found@
    }

    /// The number of polls that found the receive queue empty.
    pub closed spec fn empty_polls(&self) -> nat {
        self.budget.used()
    }

    /// The frame that asks for the next address of the range; `None` when all are asked for.
    pub fn next_request(&mut self) -> (r: Option<Vec<u8>>)
        ensures
            final(self).own() == old(self).own(),
            final(self).found() == old(self).found(),
            final(self).empty_polls() == old(self).empty_polls(),
            r is Some <==> old(self).to_ask().len() > 0,
            r matches Some(frame) ==> frame@ == arp_broadcast(
                old(self).own(),
                solicitation(old(self).own(), old(self).to_ask()[0]),
            ) && final(self).to_ask() == old(self).to_ask().drop_first(),
            r is None ==> final(self).to_ask() == old(self).to_ask(),
    {
        match self.range.next() {
            Some(addr) => Some(solicit(&self.eth_addr, addr)),
            None => None,
        }
    }

    /// Takes what the receive queue gave: a frame, or `None` when it was empty. Returns
    /// whether to poll again. The sender of an ARP packet from a neighbor is entered under its
    /// IPv4 address, in the place of what stood there; any other frame is passed over. An
    /// empty queue uses up the poll budget.
    pub fn receive(&mut self, received: Option<&[u8]>) -> (again: bool)
        ensures
            final(self).own() == old(self).own(),
            final(self).to_ask() == old(self).to_ask(),
            received is None ==> {
                &&& final(self).found() == old(self).found()
                &&& again == polls_again(old(self).empty_polls())
                &&& final(self).empty_polls() == old(self).empty_polls() + if again {
                    1nat
                } else {
                    0nat
                }
            },
            received matches Some(frame) ==> {
                &&& again
                &&& final(self).empty_polls() == old(self).empty_polls()
                &&& final(self).found() == match arp_from_neighbor(old(self).own(), frame@) {
                    Ok(f) => with_entry(
                        old(self).found(),
                        f.source_protocol_addr,
                        EthernetAddress::of_octets(f.source_hardware_addr),
                    ),
                    Err(_) => old(self).found(),
                }
            },
    {
        match received {
            None => self.budget.on_empty(),
            Some(frame) => {
                match process_arp(&self.eth_addr, frame) {
                    Ok(repr) => {
                        proof {
                            lemma_of_octets(repr.source_hardware_addr);
                        }
                        self.found.insert(repr.source_protocol_addr, repr.source_hardware_addr);
                    },
                    Err(_) => {},
                }
                true
            },
        }
    }

    /// The neighbors found.
    pub fn into_neighbors(self) -> (r: ArpResponses)
        ensures
            r@ == self.found(),
    {
        self.found
    }
}

/// Starts a search for the neighbors in the block of `cidr`: nothing is found yet, and every
/// address of the block but the first is to be asked for.
pub fn get_neighbors_v4(eth_addr: EthernetAddress, cidr: Ipv4Cidr) -> (scan: NeighborScan)
    ensures
        scan.own() == eth_addr@,
        scan.to_ask() == cidr.block(),
        scan.found() == Seq::<(Ipv4Addr, EthernetAddress)>::empty(),
        scan.empty_polls() == 0,
{
    let mut range = cidr;
    range.reset();
    NeighborScan { eth_addr, range, found: AddrMap::new(), budget: PollBudget::new() }
}

/// The question whether an address is in use, while it waits for an answer.
pub struct AddressProbe {
    eth_addr: EthernetAddress,
    budget: PollBudget,
}

impl AddressProbe {
    /// The hardware address of the station that asks.
    pub closed spec fn own(&self) -> Seq<u8> {
        self.eth_addr@
    }

    /// The number of polls that found the receive queue empty.
    pub closed spec fn empty_polls(&self) -> nat {
        self.budget.used()
    }

    /// Takes what the receive queue gave: a frame, or `None` when it was empty. Returns
    /// `None` to poll again, `Some(false)` as soon as an ARP packet from a neighbor came in,
    /// which shows the address to be in use, and `Some(true)`, the address is free, when the
    /// poll budget is used up without one.
    pub fn receive(&mut self, received: Option<&[u8]>) -> (r: Option<bool>)
        ensures
            final(self).own() == old(self).own(),
            received is None ==> {
                &&& r == if polls_again(old(self).empty_polls()) {
                    None
                } else {
                    Some(true)
                }
                &&& final(self).empty_polls() == old(self).empty_polls() + if r is None {
                    1nat
                } else {
                    0nat
                }
            },
            received matches Some(frame) ==> {
                &&& final(self).empty_polls() == old(self).empty_polls()
                &&& r == if arp_from_neighbor(old(self).own(), frame@) is Ok {
                    Some(false)
                } else {
                    None
                }
            },
    {
        match received {
            None => {
                if self.budget.on_empty() {
                    None
                } else {
                    Some(true)
                }
            },
            Some(frame) => {
                match process_arp(&self.eth_addr, frame) {
                    Ok(_) => Some(false),
                    Err(_) => None,
                }
            },
        }
    }
}

/// Asks whether `addr` is in use: gives the frame to send and the probe that takes the
/// answers.
pub fn request(eth_addr: EthernetAddress, addr: Ipv4Addr) -> (r: (AddressProbe, Vec<u8>))
    ensures
        r.0.own() == eth_addr@,
        r.0.empty_polls() == 0,
        r.1@ == arp_broadcast(eth_addr@, solicitation(eth_addr@, addr)),
{
    let frame = solicit(&eth_addr, addr);
    (AddressProbe { eth_addr, budget: PollBudget::new() }, frame)
}

impl StringableVec for ArpResponses {
    /// One line per neighbor, in rising order of the addresses: the IPv4 address, then the
    /// hardware address in parentheses.
    open spec fn lines(&self) -> Seq<Seq<char>> {
        Seq::new(self@.len(), |i: int| paren_line(ipv4_text(self@[i].0), mac_text(self@[i].1@)))
    }

    fn to_string_vec(&self) -> (v: Vec<String>) {
        let mut v: Vec<String> = Vec::new();
        let all = self.entries();
        let n = self.len();
        let mut i: usize = 0;
        while i < n
            invariant
                i <= n,
                n == self@.len(),
                all@ == self@,
                v@.len() == i,
                forall|k: int| 0 <= k < i ==> (#[trigger] v@[k])@ == self.lines()[k],
            decreases n - i,
        {
            let neighbor = all[i];
            let mut head = String::new();
            push_ipv4(&mut head, neighbor.0);
            let mut inner = String::new();
            push_mac(&mut inner, &neighbor.1);
            assert(head@ =~= ipv4_text(neighbor.0));
            assert(inner@ =~= mac_text(neighbor.1@));
            v.push(make_paren_line(head, inner.as_str()));
            i += 1;
        }
        v
    }
}

} // verus!
