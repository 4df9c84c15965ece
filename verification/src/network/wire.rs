//! Frames and packets as they stand on the wire: what the layouts are, and the calls that read
//! and write them.
use vstd::prelude::*;
use super::addr::{octets_of, EthernetAddress};
use super::cidr::{addr_of_octets, Ipv4Addr};
use byteorder::{ByteOrder, NetworkEndian};
use smoltcp::phy::ChecksumCapabilities;
use smoltcp::wire::{ArpPacket, Icmpv4Packet, Icmpv4Repr, Ipv4Address, Ipv4Packet, Ipv4Repr};

verus! {

/// The EtherType of IPv4.
pub const ETHERTYPE_IPV4: u16 = 0x0800;

/// The EtherType of ARP.
pub const ETHERTYPE_ARP: u16 = 0x0806;

/// The length of an ARP packet for Ethernet and IPv4.
pub const ARP_PACKET_LEN: usize = 28;

/// Why a frame or a packet was not taken.
#[derive(Clone, Copy, Debug, PartialEq, Eq, Structural)]
pub enum WireError {
    /// A field lies beyond the end of the data.
    Truncated,
    /// The checksum is wrong.
    Checksum,
    /// The data is of a kind that is not handled.
    Unrecognized,
    /// The packet is a fragment.
    Fragmented,
    /// The fields contradict each other.
    Malformed,
    /// The data is well-formed but not meant for this station, or not to be believed.
    Dropped,
}

/// How a protocol's checksum is dealt with.
#[derive(Clone, Copy, Debug, PartialEq, Eq, Structural)]
pub enum Checksum {
    /// Verified on receipt and computed on sending.
    Both,
    /// Verified on receipt.
    Rx,
    /// Computed on sending.
    Tx,
    /// Left alone.
    Ignored,
}

impl Checksum {
    /// Whether the checksum of a received packet is verified.
    pub open spec fn rx(self) -> bool {
        self == Checksum::Both || self == Checksum::Rx
    }
}

/// The ARP operation code of a request.
pub const ARP_REQUEST: u16 = 1;

/// The ARP operation code of a reply.
pub const ARP_REPLY: u16 = 2;

/// An ARP packet for Ethernet and IPv4.
#[derive(Clone, Copy, Debug, PartialEq, Eq)]
pub struct ArpRepr {
    /// The operation code: [`ARP_REQUEST`], [`ARP_REPLY`], or any other number.
    pub operation: u16,
    pub source_hardware_addr: EthernetAddress,
    pub source_protocol_addr: Ipv4Addr,
    pub target_hardware_addr: EthernetAddress,
    pub target_protocol_addr: Ipv4Addr,
}

/// The fields of an ARP packet as mathematical values.
pub struct ArpFields {
    pub operation: u16,
    pub source_hardware_addr: Seq<u8>,
    pub source_protocol_addr: Ipv4Addr,
    pub target_hardware_addr: Seq<u8>,
    pub target_protocol_addr: Ipv4Addr,
}

impl View for ArpRepr {
    type V = ArpFields;

    open spec fn view(&self) -> ArpFields {
        ArpFields {
            operation: self.operation,
            source_hardware_addr: self.source_hardware_addr@,
            source_protocol_addr: self.source_protocol_addr,
            target_hardware_addr: self.target_hardware_addr@,
            target_protocol_addr: self.target_protocol_addr,
        }
    }
}

/// The header of an Ethernet II frame.
#[derive(Clone, Copy, Debug, PartialEq, Eq)]
pub struct EthernetHeader {
    pub dst_addr: EthernetAddress,
    pub src_addr: EthernetAddress,
    pub ethertype: u16,
}

/// The fields of an Ethernet II header as mathematical values.
pub struct EthernetFields {
    pub dst_addr: Seq<u8>,
    pub src_addr: Seq<u8>,
    pub ethertype: u16,
}

impl View for EthernetHeader {
    type V = EthernetFields;

    open spec fn view(&self) -> EthernetFields {
        EthernetFields {
            dst_addr: self.dst_addr@,
            src_addr: self.src_addr@,
            ethertype: self.ethertype,
        }
    }
}

/// The addresses in the header of an IPv4 packet.
#[derive(Clone, Copy, Debug, PartialEq, Eq, Structural)]
pub struct Ipv4Endpoints {
    pub src_addr: Ipv4Addr,
    pub dst_addr: Ipv4Addr,
}

/// An echo reply: its identifier and the data that it carries back.
#[derive(Clone, Debug, PartialEq, Eq)]
pub struct EchoReply {
    pub ident: u16,
    pub data: Vec<u8>,
}

/// The 16-bit number whose high octet is `hi` and whose low octet is `lo`.
pub open spec fn be16(hi: u8, lo: u8) -> u16 {
    (hi * 0x100 + lo) as u16
}

/// The two octets of a 16-bit number, high octet first.
pub open spec fn be16_octets(n: u16) -> Seq<u8> {
    seq![(n / 0x100) as u8, (n % 0x100) as u8]
}

/// The address whose four octets stand at `at` in `bytes`, highest first.
pub open spec fn addr_at(bytes: Seq<u8>, at: int) -> Ipv4Addr {
    addr_of_octets(bytes[at], bytes[at + 1], bytes[at + 2], bytes[at + 3])
}

/// The header that the first 14 octets of a frame hold.
pub open spec fn ethernet_header(frame: Seq<u8>) -> EthernetFields {
    EthernetFields {
        dst_addr: frame.subrange(0, 6),
        src_addr: frame.subrange(6, 12),
        ethertype: be16(frame[12], frame[13]),
    }
}

/// An Ethernet II frame: destination, source, EtherType, payload.
pub open spec fn ethernet_frame(dst: Seq<u8>, src: Seq<u8>, ethertype: u16, payload: Seq<u8>) -> Seq<
    u8,
> {
    dst + src + be16_octets(ethertype) + payload
}

/// An ARP packet for Ethernet and IPv4: hardware type 1, protocol type `0x0800`, address
/// lengths 6 and 4, the operation, then sender and target, each with hardware and protocol
/// address.
pub open spec fn arp_packet(f: ArpFields) -> Seq<u8> {
    seq![0u8, 1, 8, 0, 6, 4] + be16_octets(f.operation) + f.source_hardware_addr
        + octets_of(f.source_protocol_addr) + f.target_hardware_addr + octets_of(
        f.target_protocol_addr,
    )
}

/// Whether the data is too short for the ARP packet that its length fields announce.
pub open spec fn arp_is_truncated(p: Seq<u8>) -> bool {
    p.len() < 8 || p.len() < 8 + 2 * p[4] + 2 * p[5]
}

/// Whether the data is an ARP packet for Ethernet and IPv4.
pub open spec fn arp_is_ethernet_ipv4(p: Seq<u8>) -> bool {
    &&& !arp_is_truncated(p)
    &&& be16(p[0], p[1]) == 1
    &&& be16(p[2], p[3]) == 0x0800
    &&& p[4] == 6
    &&& p[5] == 4
}

/// The fields of an ARP packet for Ethernet and IPv4.
pub open spec fn arp_fields(p: Seq<u8>) -> ArpFields {
    ArpFields {
        operation: be16(p[6], p[7]),
        source_hardware_addr: p.subrange(8, 14),
        source_protocol_addr: addr_at(p, 14),
        target_hardware_addr: p.subrange(18, 24),
        target_protocol_addr: addr_at(p, 24),
    }
}

/// What reading data as an ARP packet gives.
pub open spec fn arp_of_packet(p: Seq<u8>) -> Result<ArpFields, WireError> {
    if arp_is_truncated(p) {
        Err(WireError::Truncated)
    } else if !arp_is_ethernet_ipv4(p) {
        Err(WireError::Unrecognized)
    } else {
        Ok(arp_fields(p))
    }
}

/// The layout of an echo message: the type, the code 0, two octets of checksum, the
/// identifier, the sequence number, and the data.
pub open spec fn echo_layout(packet: Seq<u8>, kind: u8, ident: u16, seq_no: u16, data: Seq<u8>) -> bool {
    &&& packet.len() == 8 + data.len()
    &&& packet[0] == kind
    &&& packet[1] == 0
    &&& be16(packet[4], packet[5]) == ident
    &&& be16(packet[6], packet[7]) == seq_no
    &&& packet.skip(8) == data
}

/// What the IP stack makes of the header of an IPv4 packet: the two addresses, or the reason
/// for which it refuses the packet. With `verify_checksum` a wrong header checksum is a reason.
pub uninterp spec fn ipv4_endpoints_of(packet: Seq<u8>, verify_checksum: bool) -> Result<
    Ipv4Endpoints,
    WireError,
>;

/// The echo request that the IP stack writes for an identifier, a sequence number and data,
/// checksum included.
pub uninterp spec fn echo_request_of(ident: u16, seq_no: u16, data: Seq<u8>) -> Seq<u8>;

/// The identifier of the echo reply that the IP stack reads from a packet; `None` where the
/// packet is too short, has a wrong checksum, or is no echo reply.
pub uninterp spec fn echo_reply_ident_of(packet: Seq<u8>) -> Option<u16>;

/// The signed 64-bit number whose eight octets, highest first, are the first eight of `bytes`.
pub open spec fn be_i64(bytes: Seq<u8>) -> int {
    let v = be_u64(bytes, 8);
    if v >= 0x8000_0000_0000_0000 {
        v - 0x1_0000_0000_0000_0000
    } else {
        v
    }
}

/// The eight octets of a signed 64-bit number in two's complement, highest first.
pub open spec fn be_i64_octets(n: i64) -> Seq<u8> {
    let v: int = if n < 0 {
        n + 0x1_0000_0000_0000_0000
    } else {
        n as int
    };
    seq![
        (v / 0x100_0000_0000_0000 % 0x100) as u8,
        (v / 0x1_0000_0000_0000 % 0x100) as u8,
        (v / 0x100_0000_0000 % 0x100) as u8,
        (v / 0x1_0000_0000 % 0x100) as u8,
        (v / 0x100_0000 % 0x100) as u8,
        (v / 0x1_0000 % 0x100) as u8,
        (v / 0x100 % 0x100) as u8,
        (v % 0x100) as u8,
    ]
}

/// The number that the first `n` octets of `bytes` stand for, highest first.
pub open spec fn be_u64(bytes: Seq<u8>, n: nat) -> int
    decreases n,
{
    if n == 0 {
        0
    } else {
        be_u64(bytes, (n - 1) as nat) * 0x100 + bytes[n - 1]
    }
}

/// Reads the header of an Ethernet II frame with `smoltcp::wire::EthernetFrame::new_checked`
/// and its accessors. A frame of fewer than 14 octets is truncated; of any other the first six
/// octets are the destination, the next six the source, and the next two the EtherType.
#[verifier::external_body]
pub(crate) fn parse_ethernet(frame: &[u8]) -> (r: Result<EthernetHeader, WireError>)
    ensures
        frame@.len() < 14 ==> r is Err && r->Err_0 == WireError::Truncated,
        frame@.len() >= 14 ==> r.is_ok() && r.unwrap()@ == ethernet_header(frame@),
{
    match smoltcp::wire::EthernetFrame::new_checked(frame) {
        Ok(f) => Ok(
            EthernetHeader {
                dst_addr: EthernetAddress(f.dst_addr().0),
                src_addr: EthernetAddress(f.src_addr().0),
                ethertype: f.ethertype().into(),
            },
        ),
        Err(_) => Err(WireError::Truncated),
    }
}

/// The payload of an Ethernet II frame, by `smoltcp::wire::EthernetFrame::payload`: all that
/// follows the 14 octets of the header.
#[verifier::external_body]
pub(crate) fn ethernet_payload<'a>(frame: &'a [u8]) -> (r: &'a [u8])
    requires
        frame@.len() >= 14,
    ensures
        r@ == frame@.skip(14),
{
    smoltcp::wire::EthernetFrame::new_unchecked(frame).payload()
}

/// Writes an Ethernet II frame into a fresh buffer of
/// `smoltcp::wire::EthernetFrame::buffer_len`, with the setters of
/// `smoltcp::wire::EthernetFrame`.
#[verifier::external_body]
pub(crate) fn emit_ethernet(
    dst: &EthernetAddress,
    src: &EthernetAddress,
    ethertype: u16,
    payload: &[u8],
) -> (r: Vec<u8>)
    requires
        payload@.len() + 14 <= usize::MAX,
    ensures
        r@ == ethernet_frame(dst@, src@, ethertype, payload@),
{
    let len = smoltcp::wire::EthernetFrame::<&[u8]>::buffer_len(payload.len());
    let mut frame = smoltcp::wire::EthernetFrame::new_unchecked(vec![0u8; len]);
    frame.set_src_addr(smoltcp::wire::EthernetAddress(src.0));
    frame.set_dst_addr(smoltcp::wire::EthernetAddress(dst.0));
    frame.set_ethertype(smoltcp::wire::EthernetProtocol::from(ethertype));
    frame.payload_mut().copy_from_slice(payload);
    frame.into_inner()
}

/// Reads an ARP packet with `smoltcp::wire::ArpPacket::new_checked` and
/// `smoltcp::wire::ArpRepr::parse`. Data shorter than its length fields announce is truncated;
/// a packet for another hardware or protocol is unrecognized.
#[verifier::external_body]
pub(crate) fn parse_arp(packet: &[u8]) -> (r: Result<ArpRepr, WireError>)
    ensures
        r matches Ok(repr) ==> arp_of_packet(packet@) matches Ok(f) && f == repr@,
        r matches Err(e) ==> arp_of_packet(packet@) matches Err(x) && x == e,
{
    match ArpPacket::new_checked(packet).and_then(|p| smoltcp::wire::ArpRepr::parse(&p)) {
        Ok(smoltcp::wire::ArpRepr::EthernetIpv4 { operation, source_hardware_addr, source_protocol_addr, target_hardware_addr, target_protocol_addr }) => Ok(
            ArpRepr {
                operation: operation.into(),
                source_hardware_addr: EthernetAddress(source_hardware_addr.0),
                source_protocol_addr: u32::from_be_bytes(source_protocol_addr.0),
                target_hardware_addr: EthernetAddress(target_hardware_addr.0),
                target_protocol_addr: u32::from_be_bytes(target_protocol_addr.0),
            },
        ),
        Err(smoltcp::Error::Truncated) => Err(WireError::Truncated),
        _ => Err(WireError::Unrecognized),
    }
}

/// Writes an ARP packet into a fresh buffer of `smoltcp::wire::ArpRepr::buffer_len` octets with
/// `smoltcp::wire::ArpRepr::emit`.
#[verifier::external_body]
pub(crate) fn emit_arp(repr: &ArpRepr) -> (r: Vec<u8>)
    ensures
        r@ == arp_packet(repr@),
{
    let out = smoltcp::wire::ArpRepr::EthernetIpv4 {
        operation: repr.operation.into(),
        source_hardware_addr: smoltcp::wire::EthernetAddress(repr.source_hardware_addr.0),
        source_protocol_addr: Ipv4Address(repr.source_protocol_addr.to_be_bytes()),
        target_hardware_addr: smoltcp::wire::EthernetAddress(repr.target_hardware_addr.0),
        target_protocol_addr: Ipv4Address(repr.target_protocol_addr.to_be_bytes()),
    };
    let mut packet = ArpPacket::new_unchecked(vec![0u8; out.buffer_len()]);
    out.emit(&mut packet);
    packet.into_inner()
}

/// Reads the header of an IPv4 packet with `smoltcp::wire::Ipv4Packet::new_checked` and
/// `smoltcp::wire::Ipv4Repr::parse`. A packet that is taken has at least 20 octets; its source
/// address stands at octet 12 and its destination address at octet 16.
#[verifier::external_body]
pub(crate) fn parse_ipv4(packet: &[u8], checksum: Checksum) -> (r: Result<Ipv4Endpoints, WireError>)
    ensures
        r == ipv4_endpoints_of(packet@, checksum.rx()),
        r.is_ok() ==> packet@.len() >= 20 && r.unwrap().src_addr == addr_at(packet@, 12)
            && r.unwrap().dst_addr == addr_at(packet@, 16),
{
    let mut caps = ChecksumCapabilities::ignored();
    caps.ipv4 = match checksum {
        Checksum::Both => smoltcp::phy::Checksum::Both,
        Checksum::Rx => smoltcp::phy::Checksum::Rx,
        Checksum::Tx => smoltcp::phy::Checksum::Tx,
        Checksum::Ignored => smoltcp::phy::Checksum::None,
    };
    match Ipv4Packet::new_checked(packet).and_then(|p| Ipv4Repr::parse(&p, &caps)) {
        Ok(h) => Ok(Ipv4Endpoints { src_addr: u32::from_be_bytes(h.src_addr.0), dst_addr: u32::from_be_bytes(h.dst_addr.0) }),
        Err(smoltcp::Error::Checksum) => Err(WireError::Checksum),
        Err(smoltcp::Error::Fragmented) => Err(WireError::Fragmented),
        Err(smoltcp::Error::Malformed) => Err(WireError::Malformed),
        _ => Err(WireError::Truncated),
    }
}

/// Writes an echo request with `smoltcp::wire::Icmpv4Repr::emit`, checksum computed, into a
/// fresh buffer of `smoltcp::wire::Icmpv4Repr::buffer_len` octets: type 8, code 0, the
/// checksum, the identifier, the sequence number, then the data.
#[verifier::external_body]
pub(crate) fn emit_echo_request(ident: u16, seq_no: u16, data: &[u8]) -> (r: Vec<u8>)
    requires
        data@.len() <= 0xFFFF,
    ensures
        r@ == echo_request_of(ident, seq_no, data@),
        echo_layout(r@, 8, ident, seq_no, data@),
{
    let repr = Icmpv4Repr::EchoRequest { ident, seq_no, data };
    let mut buffer = vec![0u8; repr.buffer_len()];
    repr.emit(&mut Icmpv4Packet::new_unchecked(&mut buffer[..]), &ChecksumCapabilities::default());
    buffer
}

/// Reads an echo reply with `smoltcp::wire::Icmpv4Packet::new_checked` and
/// `smoltcp::wire::Icmpv4Repr::parse`, checksum verified. A reply has type 0 and code 0; its
/// identifier stands at octet 4, and its data is all that follows the eight octets of its
/// header.
#[verifier::external_body]
pub(crate) fn parse_echo_reply(packet: &[u8]) -> (r: Option<EchoReply>)
    requires
        packet@.len() <= 0xFFFF,
    ensures
        r.is_some() == echo_reply_ident_of(packet@).is_some(),
        r.is_some() ==> Some(r.unwrap().ident) == echo_reply_ident_of(packet@) && echo_layout(
            packet@,
            0,
            r.unwrap().ident,
            be16(packet@[6], packet@[7]),
            r.unwrap().data@,
        ),
{
    let caps = ChecksumCapabilities::default();
    match Icmpv4Packet::new_checked(packet).and_then(|p| Icmpv4Repr::parse(&p, &caps)) {
        Ok(Icmpv4Repr::EchoReply { ident, data, .. }) => Some(EchoReply { ident, data: data.to_vec() }),
        _ => None,
    }
}

/// `byteorder::NetworkEndian::read_u32`: the number whose four octets, highest first, are the
/// first four of `buf`.
#[verifier::external_body]
pub(crate) fn read_u32(buf: &[u8]) -> (r: u32)
    requires
        buf@.len() >= 4,
    ensures
        r == addr_at(buf@, 0),
{
    NetworkEndian::read_u32(buf)
}

/// `byteorder::NetworkEndian::read_i64`: the signed number whose eight octets, highest first,
/// are the first eight of `buf`.
#[verifier::external_body]
pub(crate) fn read_i64(buf: &[u8]) -> (r: i64)
    requires
        buf@.len() >= 8,
    ensures
        r == be_i64(buf@),
{
    NetworkEndian::read_i64(buf)
}

/// `byteorder::NetworkEndian::write_i64`: puts the eight octets of `n`, highest first, in the
/// place of the first eight of `buf`.
#[verifier::external_body]
pub(crate) fn write_i64(buf: &mut Vec<u8>, n: i64)
    requires
        old(buf)@.len() >= 8,
    ensures
        final(buf)@ == be_i64_octets(n) + old(buf)@.skip(8),
{
    NetworkEndian::write_i64(&mut buf[..], n)
}

/// Reading the eight octets of a number gives the number back, whatever follows them.
pub proof fn lemma_be_i64_round_trip(n: i64, rest: Seq<u8>)
    ensures
        be_i64_octets(n).len() == 8,
        be_i64(be_i64_octets(n) + rest) == n,
{
    let b = be_i64_octets(n) + rest;
    let o = be_i64_octets(n);
    assert(forall|i: int| 0 <= i < 8 ==> b[i] == o[i]);
    reveal_with_fuel(be_u64, 9);
    let v: int = if n < 0 {
        n + 0x1_0000_0000_0000_0000
    } else {
        n as int
    };
    assert(be_u64(b, 8) == v);
}

/// Reading an ARP packet that was written gives back what was written.
pub proof fn lemma_arp_round_trip(f: ArpFields)
    requires
        f.source_hardware_addr.len() == 6,
        f.target_hardware_addr.len() == 6,
    ensures
        arp_packet(f).len() == ARP_PACKET_LEN,
        arp_of_packet(arp_packet(f)) == Ok::<ArpFields, WireError>(f),
{
    let p = arp_packet(f);
    let op = f.operation;
    assert(be16((op / 0x100) as u8, (op % 0x100) as u8) == op);
    super::addr::lemma_octets_round_trip(f.source_protocol_addr);
    super::addr::lemma_octets_round_trip(f.target_protocol_addr);
    assert(p.len() == 28);
    assert(p.subrange(8, 14) =~= f.source_hardware_addr);
    assert(p.subrange(18, 24) =~= f.target_hardware_addr);
    assert(addr_at(p, 14) == f.source_protocol_addr);
    assert(addr_at(p, 24) == f.target_protocol_addr);
    assert(arp_fields(p) == f);
}

} // verus!
