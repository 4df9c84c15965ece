//! Ethernet frames: building them, judging received ones, relaying and counting.
use vstd::prelude::*;
use super::addr::{broadcast_octets, octets_are_multicast, EthernetAddress};
use super::arp::ArpResponses;
use super::cidr::Ipv4Addr;
use super::table::{lookup, with_entry, AddrMap};
use super::text::{decimal, ipv4_text, push_decimal, push_ipv4};
use super::time::{secs, whole_secs};
use super::wire::{
    arp_of_packet, arp_packet, emit_arp, emit_ethernet, ethernet_frame, ethernet_header,
    ethernet_payload, ipv4_endpoints_of, parse_arp, parse_ethernet, parse_ipv4, ArpFields,
    ArpRepr, Checksum, Ipv4Endpoints, WireError, ARP_REPLY, ARP_REQUEST, ETHERTYPE_ARP,
    ETHERTYPE_IPV4,
};

verus! {

/// What was seen of one source address.
#[derive(Clone, Copy, Debug, PartialEq, Eq)]
pub struct StatsEntry {
    /// The number of frames.
    pub packets: usize,
    /// The sum of the lengths of the frames.
    pub bytes: usize,
    /// The time of the first frame, in milliseconds.
    pub first_seen: i64,
}

/// The counters of the relay, by source address.
pub type StatsResponses = AddrMap<StatsEntry>;

/// The number of empty polls that a drain of the receive queue makes at most.
pub const EMPTY_POLL_BUDGET: u32 = 100;

/// Whether a drain polls again after an empty poll that `used` empty polls went before: yes,
/// unless this one uses up the budget.
pub open spec fn polls_again(used: nat) -> bool {
    used + 1 < EMPTY_POLL_BUDGET
}

/// Counts the polls that found the receive queue empty.
pub struct PollBudget {
    tries: u32,
}

impl PollBudget {
    /// The number of empty polls after which the drain went on, always below
    /// `EMPTY_POLL_BUDGET`.
    pub closed spec fn used(&self) -> nat {
        self.tries as nat
    }

    #[verifier::type_invariant]
    spec fn bounded(&self) -> bool {
        self.tries < EMPTY_POLL_BUDGET
    }

    /// A budget of which nothing is used.
    pub fn new() -> (r: Self)
        ensures
            r.used() == 0,
    {
        PollBudget { tries: 0 }
    }

    /// Takes note of an empty poll. Returns whether to poll again: yes, unless this empty
    /// poll is the last that the budget allows, so that a drain sees `EMPTY_POLL_BUDGET`
    /// empty polls at most.
    pub fn on_empty(&mut self) -> (again: bool)
        ensures
            again == polls_again(old(self).used()),
            again ==> final(self).used() == old(self).used() + 1,
            !again ==> final(self).used() == old(self).used(),
            final(self).used() < EMPTY_POLL_BUDGET,
    {
        proof {
            use_type_invariant(&*self);
        }
        if self.tries + 1 < EMPTY_POLL_BUDGET {
            self.tries = self.tries + 1;
            true
        } else {
            false
        }
    }
}

/// Whether a station with the address `own` listens to frames sent to `dst`: to the broadcast
/// address, to any multicast address, and to its own.
pub open spec fn for_station(dst: Seq<u8>, own: Seq<u8>) -> bool {
    dst == broadcast_octets() || octets_are_multicast(dst) || dst == own
}

/// Whether a station with the address `own` listens to frames sent to `dst`.
pub fn is_for_station(dst: &EthernetAddress, own: &EthernetAddress) -> (r: bool)
    ensures
        r == for_station(dst@, own@),
{
    dst.is_broadcast() || dst.is_multicast() || dst.same_as(own)
}

/// Builds the frame that carries `payload` from `eth_addr` to `dst`.
pub fn dispatch_ethernet(
    eth_addr: &EthernetAddress,
    dst: &EthernetAddress,
    ethertype: u16,
    payload: &[u8],
) -> (frame: Vec<u8>)
    requires
        payload@.len() + 14 <= usize::MAX,
    ensures
        frame@ == ethernet_frame(dst@, eth_addr@, ethertype, payload@),
        frame@.len() == 14 + payload@.len(),
{
    proof {
        assert(eth_addr@.len() == 6 && dst@.len() == 6);
    }
    emit_ethernet(dst, eth_addr, ethertype, payload)
}

/// A frame that is to be sent on: where to, of which kind, and what it carries.
#[derive(Clone, Debug, PartialEq, Eq)]
pub struct Relay {
    pub ethertype: u16,
    pub dst_addr: EthernetAddress,
    pub payload: Vec<u8>,
}

/// A relay as mathematical values.
pub struct RelayFields {
    pub ethertype: u16,
    pub dst_addr: Seq<u8>,
    pub payload: Seq<u8>,
}

impl View for Relay {
    type V = RelayFields;

    open spec fn view(&self) -> RelayFields {
        RelayFields { ethertype: self.ethertype, dst_addr: self.dst_addr@, payload: self.payload@ }
    }
}

/// What a received frame gives: the source address to count it under, its length, and the
/// relay that it calls for, if any.
#[derive(Clone, Debug, PartialEq, Eq)]
pub struct Observation {
    pub relay: Option<Relay>,
    pub source: Ipv4Addr,
    pub len: usize,
}

/// An observation as mathematical values.
pub struct ObservationFields {
    pub relay: Option<RelayFields>,
    pub source: Ipv4Addr,
    pub len: nat,
}

impl View for Observation {
    type V = ObservationFields;

    open spec fn view(&self) -> ObservationFields {
        ObservationFields {
            relay: match self.relay {
                Some(r) => Some(r@),
                None => None,
            },
            source: self.source,
            len: self.len as nat,
        }
    }
}

/// The station that a packet for `dst` is handed to: the neighbor with that address, or else
/// the gateway if it is known and a neighbor.
pub open spec fn relay_target(
    neighbors: Seq<(Ipv4Addr, EthernetAddress)>,
    gw: Option<Ipv4Addr>,
    dst: Ipv4Addr,
) -> Option<EthernetAddress> {
    match lookup(neighbors, dst) {
        Some(mac) => Some(mac),
        None => match gw {
            Some(g) => lookup(neighbors, g),
            None => None,
        },
    }
}

/// What an IPv4 packet gives: it is counted under its source address, and sent on unchanged
/// to the relay target of its destination, if there is one.
pub open spec fn ipv4_observation(
    ends: Ipv4Endpoints,
    neighbors: Seq<(Ipv4Addr, EthernetAddress)>,
    gw: Option<Ipv4Addr>,
    packet: Seq<u8>,
    frame_len: nat,
) -> ObservationFields {
    ObservationFields {
        relay: match relay_target(neighbors, gw, ends.dst_addr) {
            Some(mac) => Some(
                RelayFields { ethertype: ETHERTYPE_IPV4, dst_addr: mac@, payload: packet },
            ),
            None => None,
        },
        source: ends.src_addr,
        len: frame_len,
    }
}

/// The reply that claims the address an ARP request asks for: sent from `own`, in the name of
/// the requested address, to the requester.
pub open spec fn arp_answer(request: ArpFields, own: Seq<u8>) -> ArpFields {
    ArpFields {
        operation: ARP_REPLY,
        source_hardware_addr: own,
        source_protocol_addr: request.target_protocol_addr,
        target_hardware_addr: request.source_hardware_addr,
        target_protocol_addr: request.source_protocol_addr,
    }
}

/// What an ARP packet gives: it is counted under its sender's address, and a request is
/// answered.
pub open spec fn arp_observation(f: ArpFields, own: Seq<u8>, frame_len: nat) -> ObservationFields {
    ObservationFields {
        relay: if f.operation == ARP_REQUEST {
            Some(
                RelayFields {
                    ethertype: ETHERTYPE_ARP,
                    dst_addr: f.source_hardware_addr,
                    payload: arp_packet(arp_answer(f, own)),
                },
            )
        } else {
            None
        },
        source: f.source_protocol_addr,
        len: frame_len,
    }
}

/// What a received frame gives. A frame too short for its header is truncated; one that the
/// station does not listen to is dropped; one that is neither IPv4 nor ARP is unrecognized;
/// an IPv4 or ARP packet that cannot be read fails with the reason of the reading.
pub open spec fn eth_outcome(
    gw: Option<Ipv4Addr>,
    neighbors: Seq<(Ipv4Addr, EthernetAddress)>,
    own: Seq<u8>,
    frame: Seq<u8>,
    verify_checksum: bool,
) -> Result<ObservationFields, WireError> {
    if frame.len() < 14 {
        Err(WireError::Truncated)
    } else if !for_station(ethernet_header(frame).dst_addr, own) {
        Err(WireError::Dropped)
    } else if ethernet_header(frame).ethertype == ETHERTYPE_IPV4 {
        match ipv4_endpoints_of(frame.skip(14), verify_checksum) {
            Ok(ends) => Ok(ipv4_observation(ends, neighbors, gw, frame.skip(14), frame.len())),
            Err(e) => Err(e),
        }
    } else if ethernet_header(frame).ethertype == ETHERTYPE_ARP {
        match arp_of_packet(frame.skip(14)) {
            Ok(f) => Ok(arp_observation(f, own, frame.len())),
            Err(e) => Err(e),
        }
    } else {
        Err(WireError::Unrecognized)
    }
}

/// Finds the station that a packet for `dst` is handed to.
pub fn find_relay_target(neighbors: &ArpResponses, gw: Option<Ipv4Addr>, dst: Ipv4Addr) -> (r:
    Option<EthernetAddress>)
    ensures
        r == relay_target(neighbors@, gw, dst),
{
    match neighbors.get(dst) {
        Some(mac) => Some(mac),
        None => match gw {
            Some(g) => neighbors.get(g),
            None => None,
        },
    }
}

/// Judges an IPv4 packet whose header has been read: counts it and picks its relay.
pub fn relay_ipv4(
    ends: Ipv4Endpoints,
    neighbors: &ArpResponses,
    gw: Option<Ipv4Addr>,
    packet: &[u8],
    frame_len: usize,
) -> (r: Observation)
    ensures
        r@ == ipv4_observation(ends, neighbors@, gw, packet@, frame_len as nat),
{
    match find_relay_target(neighbors, gw, ends.dst_addr) {
        Some(mac) => Observation {
            relay: Some(
                Relay {
                    ethertype: ETHERTYPE_IPV4,
                    dst_addr: mac,
                    payload: vstd::slice::slice_to_vec(packet),
                },
            ),
            source: ends.src_addr,
            len: frame_len,
        },
        None => Observation { relay: None, source: ends.src_addr, len: frame_len },
    }
}

/// Judges an ARP packet that has been read: counts it and answers a request.
pub fn answer_arp(repr: &ArpRepr, eth_addr: &EthernetAddress, frame_len: usize) -> (r: Observation)
    ensures
        r@ == arp_observation(repr@, eth_addr@, frame_len as nat),
{
    if repr.operation == ARP_REQUEST {
        let answer = ArpRepr {
            operation: ARP_REPLY,
            source_hardware_addr: *eth_addr,
            source_protocol_addr: repr.target_protocol_addr,
            target_hardware_addr: repr.source_hardware_addr,
            target_protocol_addr: repr.source_protocol_addr,
        };
        assert(answer@ == arp_answer(repr@, eth_addr@));
        Observation {
            relay: Some(
                Relay {
                    ethertype: ETHERTYPE_ARP,
                    dst_addr: repr.source_hardware_addr,
                    payload: emit_arp(&answer),
                },
            ),
            source: repr.source_protocol_addr,
            len: frame_len,
        }
    } else {
        Observation { relay: None, source: repr.source_protocol_addr, len: frame_len }
    }
}

/// Judges a received frame: whom to count it under, and what to send in return.
pub fn process_eth(
    gw: Option<Ipv4Addr>,
    neighbors: &ArpResponses,
    eth_addr: &EthernetAddress,
    frame: &[u8],
    checksum: Checksum,
) -> (r: Result<Observation, WireError>)
    ensures
        r matches Ok(o) ==> eth_outcome(gw, neighbors@, eth_addr@, frame@, checksum.rx())
            matches Ok(v) && v == o@,
        r matches Err(e) ==> eth_outcome(gw, neighbors@, eth_addr@, frame@, checksum.rx())
            matches Err(x) && x == e,
{
    let header = match parse_ethernet(frame) {
        Ok(h) => h,
        Err(e) => {
            return Err(e);
        },
    };
    if !is_for_station(&header.dst_addr, eth_addr) {
        return Err(WireError::Dropped);
    }
    let payload = ethernet_payload(frame);
    let packet_len = frame.len();
    if header.ethertype == ETHERTYPE_IPV4 {
        match parse_ipv4(payload, checksum) {
            Ok(ends) => Ok(relay_ipv4(ends, neighbors, gw, payload, packet_len)),
            Err(e) => Err(e),
        }
    } else if header.ethertype == ETHERTYPE_ARP {
        match parse_arp(payload) {
            Ok(repr) => Ok(answer_arp(&repr, eth_addr, packet_len)),
            Err(e) => Err(e),
        }
    } else {
        Err(WireError::Unrecognized)
    }
}

/// The counters of a source after one more frame of `len` octets at the time `now`: a source
/// seen for the first time starts at one frame, and keeps the time; of a known one the frames
/// and the octets are added up, each staying at the largest number once it is reached.
pub open spec fn accumulated(before: Option<StatsEntry>, len: nat, now: i64) -> StatsEntry {
    match before {
        Some(e) => StatsEntry {
            packets: if e.packets + 1 > usize::MAX {
                usize::MAX
            } else {
                (e.packets + 1) as usize
            },
            bytes: if e.bytes + len > usize::MAX {
                usize::MAX
            } else {
                (e.bytes + len) as usize
            },
            first_seen: e.first_seen,
        },
        None => StatsEntry { packets: 1, bytes: len as usize, first_seen: now },
    }
}

/// Counts one frame of `len` octets from `source`.
pub fn record(stats: &mut StatsResponses, source: Ipv4Addr, len: usize, now: i64)
    ensures
        final(stats)@ == with_entry(
            old(stats)@,
            source,
            accumulated(lookup(old(stats)@, source), len as nat, now),
        ),
{
    let entry = match stats.get(source) {
        Some(e) => StatsEntry {
            packets: if e.packets < usize::MAX {
                e.packets + 1
            } else {
                usize::MAX
            },
            bytes: if len <= usize::MAX - e.bytes {
                e.bytes + len
            } else {
                usize::MAX
            },
            first_seen: e.first_seen,
        },
        None => StatsEntry { packets: 1, bytes: len, first_seen: now },
    };
    stats.insert(source, entry);
}

/// What one turn of the relay asks for.
#[derive(Clone, Debug, PartialEq, Eq)]
pub struct ListenStep {
    /// The frame to transmit, if any.
    pub send: Option<Vec<u8>>,
    /// Whether to poll the receive queue again.
    pub again: bool,
}

/// The frame that carries out an observation's relay from the station `own`.
pub open spec fn relay_frame(o: ObservationFields, own: Seq<u8>) -> Option<Seq<u8>> {
    match o.relay {
        Some(r) => Some(ethernet_frame(r.dst_addr, own, r.ethertype, r.payload)),
        None => None,
    }
}

/// One turn of the relay. `received` is what the receive queue gave: a frame, or `None` when
/// it was empty. A frame that can be judged is counted under its source, and its relay, if
/// any, is to be sent; a frame that cannot is passed over. An empty queue uses up the poll
/// budget.
pub fn listen(
    stats: &mut StatsResponses,
    budget: &mut PollBudget,
    eth_addr: &EthernetAddress,
    neighbors: &ArpResponses,
    gw: Option<Ipv4Addr>,
    received: Option<&[u8]>,
    now: i64,
    checksum: Checksum,
) -> (step: ListenStep)
    ensures
        received is None ==> {
            &&& final(stats)@ == old(stats)@
            &&& step.send is None
            &&& step.again == polls_again(old(budget).used())
            &&& final(budget).used() == old(budget).used() + if step.again {
                1nat
            } else {
                0nat
            }
        },
        received matches Some(frame) ==> {
            &&& step.again
            &&& final(budget).used() == old(budget).used()
            &&& match eth_outcome(gw, neighbors@, eth_addr@, frame@, checksum.rx()) {
                Ok(o) => {
                    &&& final(stats)@ == with_entry(
                        old(stats)@,
                        o.source,
                        accumulated(lookup(old(stats)@, o.source), o.len, now),
                    )
                    &&& match step.send {
                        Some(f) => relay_frame(o, eth_addr@) == Some(f@),
                        None => relay_frame(o, eth_addr@) is None,
                    }
                },
                Err(_) => final(stats)@ == old(stats)@ && step.send is None,
            }
        },
{
    match received {
        None => {
            let again = budget.on_empty();
            ListenStep { send: None, again }
        },
        Some(frame) => {
            match process_eth(gw, neighbors, eth_addr, frame, checksum) {
                Ok(o) => {
                    record(stats, o.source, o.len, now);
                    let send = match o.relay {
                        Some(r) => {
                            proof {
                                assert(eth_addr@.len() == 6);
                                assert(frame@.skip(14).len() + 14 == frame@.len());
                            }
                            Some(
                                dispatch_ethernet(
                                    eth_addr,
                                    &r.dst_addr,
                                    r.ethertype,
                                    r.payload.as_slice(),
                                ),
                            )
                        },
                        None => None,
                    };
                    ListenStep { send, again: true }
                },
                Err(_) => ListenStep { send: None, again: true },
            }
        },
    }
}

/// The lines of a source's counters at the time `now`: the address and a colon, the frames,
/// the octets, and, once a whole second lies between the first frame and now, the octets per
/// second since the first frame.
pub open spec fn entry_lines(addr: Ipv4Addr, e: StatsEntry, now: i64) -> Seq<Seq<char>> {
    seq![
        ipv4_text(addr) + ":"@,
        "    "@ + decimal(e.packets as nat) + " packets"@,
        "    "@ + decimal(e.bytes as nat) + " bytes"@,
    ] + if whole_secs(now) > whole_secs(e.first_seen) {
        seq![
            "    "@ + decimal(((e.bytes as int) / (whole_secs(now) - whole_secs(e.first_seen))) as nat)
                + " bytes / second"@,
        ]
    } else {
        Seq::empty()
    }
}

/// The lines of the first `n` sources, one source after the other.
pub open spec fn stats_lines(entries: Seq<(Ipv4Addr, StatsEntry)>, now: i64, n: int) -> Seq<
    Seq<char>,
>
    decreases n,
{
    if n <= 0 {
        Seq::empty()
    } else {
        stats_lines(entries, now, n - 1) + entry_lines(entries[n - 1].0, entries[n - 1].1, now)
    }
}

/// Writes the counters out at the time `now`, source by source in rising order of the
/// addresses.
pub fn stats_to_string_vec(stats: &StatsResponses, now: i64) -> (v: Vec<String>)
    ensures
        v@.len() == stats_lines(stats@, now, stats@.len() as int).len(),
        forall|k: int|
            0 <= k < v@.len() ==> (#[trigger] v@[k])@ == stats_lines(
                stats@,
                now,
                stats@.len() as int,
            )[k],
{
    let mut v: Vec<String> = Vec::new();
    let now_s = secs(now);
    let all = stats.entries();
    let n = stats.len();
    let mut i: usize = 0;
    while i < n
        invariant
            i <= n,
            n == stats@.len(),
            all@ == stats@,
            now_s == whole_secs(now),
            v@.len() == stats_lines(stats@, now, i as int).len(),
            forall|k: int|
                0 <= k < v@.len() ==> (#[trigger] v@[k])@ == stats_lines(stats@, now, i as int)[k],
        decreases n - i,
    {
        let ghost before = v@;
        let (addr, e) = all[i];
        let mut head = String::new();
        push_ipv4(&mut head, addr);
        head.append(":");
        assert(head@ =~= ipv4_text(addr) + ":"@);
        v.push(head);
        let mut packets = String::from_str("    ");
        push_decimal(&mut packets, e.packets as u64);
        packets.append(" packets");
        v.push(packets);
        let mut bytes = String::from_str("    ");
        push_decimal(&mut bytes, e.bytes as u64);
        bytes.append(" bytes");
        v.push(bytes);
        let then_s = secs(e.first_seen);
        if now_s > then_s {
            let span: u64 = (now_s - then_s) as u64;
            let mut rate = String::from_str("    ");
            push_decimal(&mut rate, e.bytes as u64 / span);
            rate.append(" bytes / second");
            v.push(rate);
        }
        proof {
            let added = entry_lines(addr, e, now);
            assert(v@.len() == before.len() + added.len());
            assert forall|k: int| 0 <= k < v@.len() implies (#[trigger] v@[k])@ == stats_lines(
                stats@,
                now,
                i + 1,
            )[k] by {
                if k >= before.len() {
                    assert(v@[k]@ == added[k - before.len()]);
                }
            }
        }
        i += 1;
    }
    v
}

/// The sum of the first `n` lengths.
pub open spec fn total(lens: Seq<nat>, n: int) -> nat
    decreases n,
{
    if n <= 0 {
        0
    } else {
        total(lens, n - 1) + lens[n - 1]
    }
}

/// The counters of a source that was not seen before, after the first `n` of its frames:
/// frame `i` has `lens[i]` octets and comes at the time `times[i]`.
pub open spec fn tallied(lens: Seq<nat>, times: Seq<i64>, n: int) -> Option<StatsEntry>
    decreases n,
{
    if n <= 0 {
        None
    } else {
        Some(accumulated(tallied(lens, times, n - 1), lens[n - 1], times[n - 1]))
    }
}

/// As long as the numbers fit the machine, the counters of a source hold the number of its
/// frames, the sum of their lengths, and the time of the first.
pub proof fn lemma_counters_add_up(lens: Seq<nat>, times: Seq<i64>, n: int)
    requires
        0 < n <= lens.len(),
        n <= times.len(),
        n <= usize::MAX,
        total(lens, n) <= usize::MAX,
    ensures
        tallied(lens, times, n) == Some(
            StatsEntry { packets: n as usize, bytes: total(lens, n) as usize, first_seen: times[0] },
        ),
    decreases n,
{
    if n > 1 {
        lemma_counters_add_up(lens, times, n - 1);
    } else {
        assert(total(lens, 0) == 0);
        assert(tallied(lens, times, 0) is None);
    }
}

} // verus!
