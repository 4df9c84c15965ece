use netprobe::network::addr::EthernetAddress;
use netprobe::network::arp::{get_neighbors_v4, request, ArpResponses};
use netprobe::network::cidr::Ipv4Cidr;
use netprobe::network::icmp::{probe_v4, scan_v4, EchoVerdict, IcmpResponse};
use netprobe::network::ports::{PortScan, Service, SlotAction, Turn};
use netprobe::network::tcp;
use netprobe::network::StringableVec;
use smoltcp::phy::ChecksumCapabilities;
use smoltcp::wire::{
    ArpOperation, ArpPacket, ArpRepr, EthernetAddress as WireMac, EthernetFrame, EthernetProtocol,
    Icmpv4Packet, Icmpv4Repr, Ipv4Address,
};

const OWN: EthernetAddress = EthernetAddress([0x00, 0x08, 0xdc, 0xab, 0xcd, 0xef]);
const HOST: [u8; 6] = [0x02, 0x11, 0x22, 0x33, 0x44, 0x55];

/// A host that answers the question for its own address, as the IP stack would write it.
fn host_answer(frame: &[u8], host_ip: [u8; 4]) -> Option<Vec<u8>> {
    let eth = EthernetFrame::new_checked(frame).ok()?;
    if eth.ethertype() != EthernetProtocol::Arp {
        return None;
    }
    let packet = ArpPacket::new_checked(eth.payload()).ok()?;
    match ArpRepr::parse(&packet).ok()? {
        ArpRepr::EthernetIpv4 {
            operation: ArpOperation::Request,
            source_hardware_addr,
            source_protocol_addr,
            target_protocol_addr,
            ..
        } if target_protocol_addr == Ipv4Address(host_ip) => {
            let reply = ArpRepr::EthernetIpv4 {
                operation: ArpOperation::Reply,
                source_hardware_addr: WireMac(HOST),
                source_protocol_addr: Ipv4Address(host_ip),
                target_hardware_addr: source_hardware_addr,
                target_protocol_addr: source_protocol_addr,
            };
            let mut out = vec![0u8; 14 + reply.buffer_len()];
            let mut f = EthernetFrame::new_unchecked(&mut out[..]);
            f.set_dst_addr(source_hardware_addr);
            f.set_src_addr(WireMac(HOST));
            f.set_ethertype(EthernetProtocol::Arp);
            reply.emit(&mut ArpPacket::new_unchecked(f.payload_mut()));
            Some(out)
        }
        _ => None,
    }
}

fn discover(range: &str, host_ip: [u8; 4]) -> (usize, ArpResponses) {
    let mut scan = get_neighbors_v4(OWN, Ipv4Cidr::from_str(range).unwrap());
    let mut queue = Vec::new();
    let mut asked = 0;
    while let Some(frame) = scan.next_request() {
        asked += 1;
        if let Some(answer) = host_answer(&frame, host_ip) {
            queue.push(answer);
        }
    }
    loop {
        let received = queue.pop();
        if !scan.receive(received.as_deref()) {
            break;
        }
    }
    (asked, scan.into_neighbors())
}

#[test]
fn one_responder_in_a_class_c_block_is_found() {
    let (asked, neighbors) = discover("192.168.1.0/24", [192, 168, 1, 5]);
    assert_eq!(asked, 255);
    assert_eq!(neighbors.len(), 1);
    assert_eq!(neighbors.get(0xC0A8_0105), Some(EthernetAddress(HOST)));
    assert_eq!(neighbors.to_string_vec(), vec!["192.168.1.5 (02-11-22-33-44-55)"]);
}

#[test]
fn search_starts_at_the_block_whatever_the_cursor() {
    let mut cidr = Ipv4Cidr::from_str("10.0.0.2/30").unwrap();
    cidr.next();
    let mut scan = get_neighbors_v4(OWN, cidr);
    let mut targets = Vec::new();
    while let Some(frame) = scan.next_request() {
        targets.push(frame[38..42].to_vec());
    }
    assert_eq!(targets, vec![vec![10, 0, 0, 1], vec![10, 0, 0, 2], vec![10, 0, 0, 3]]);
    assert!(scan.next_request().is_none());
}

#[test]
fn responder_outside_the_block_is_not_asked() {
    let (asked, neighbors) = discover("192.168.1.0/29", [192, 168, 1, 9]);
    assert_eq!(asked, 7);
    assert!(neighbors.is_empty());
}

#[test]
fn later_answer_for_an_address_wins() {
    let mut scan = get_neighbors_v4(OWN, Ipv4Cidr::new(0x0A00_0000, 30));
    let first = host_answer(&netprobe::network::arp::solicit(&OWN, 0x0A00_0001), [10, 0, 0, 1]).unwrap();
    let mut second = first.clone();
    second[6..12].copy_from_slice(&[2, 9, 9, 9, 9, 9]);
    second[22..28].copy_from_slice(&[2, 9, 9, 9, 9, 9]);
    assert!(scan.receive(Some(&first)));
    assert!(scan.receive(Some(&first)));
    assert!(scan.receive(Some(&second)));
    assert!(scan.receive(Some(&[1, 2, 3])));
    let neighbors = scan.into_neighbors();
    assert_eq!(neighbors.len(), 1);
    assert_eq!(neighbors.get(0x0A00_0001), Some(EthernetAddress([2, 9, 9, 9, 9, 9])));
}

#[test]
fn search_gives_up_after_the_poll_budget() {
    let mut scan = get_neighbors_v4(OWN, Ipv4Cidr::new(0x0A00_0000, 30));
    let answer = host_answer(&netprobe::network::arp::solicit(&OWN, 0x0A00_0001), [10, 0, 0, 1]).unwrap();
    for _ in 0..50 {
        assert!(scan.receive(None));
    }
    assert!(scan.receive(Some(&answer)));
    for _ in 0..49 {
        assert!(scan.receive(None));
    }
    assert!(!scan.receive(None));
    assert_eq!(scan.into_neighbors().len(), 1);
}

#[test]
fn address_that_nobody_answers_for_is_free() {
    let (mut probe, frame) = request(OWN, 0xC0A8_0132);
    assert_eq!(frame, netprobe::network::arp::solicit(&OWN, 0xC0A8_0132));
    let mut polls = 0;
    let free = loop {
        match probe.receive(None) {
            None => polls += 1,
            Some(free) => break free,
        }
    };
    assert!(free);
    assert_eq!(polls, 99);
}

#[test]
fn address_that_is_answered_for_is_in_use() {
    let (mut probe, frame) = request(OWN, 0xC0A8_0105);
    let answer = host_answer(&frame, [192, 168, 1, 5]).unwrap();
    assert_eq!(probe.receive(None), None);
    assert_eq!(probe.receive(Some(&[0u8; 60])), None);
    assert_eq!(probe.receive(Some(&answer)), Some(false));
}

#[test]
fn discover_then_ping_then_scan() {
    let (_, neighbors) = discover("192.168.1.0/24", [192, 168, 1, 5]);
    assert_eq!(neighbors.len(), 1);

    let caps = ChecksumCapabilities::default();
    let mut outcomes = Vec::new();
    for i in 0..neighbors.len() {
        let _ = neighbors.entry(i);
        let mut probe = probe_v4(0x4242, 10_000);
        let step = probe.step(10_000, false, true, None);
        let sent = step.send.unwrap();
        let packet = Icmpv4Packet::new_checked(&sent[..]).unwrap();
        let reply = match Icmpv4Repr::parse(&packet, &caps).unwrap() {
            Icmpv4Repr::EchoRequest { ident, seq_no, data } => {
                let repr = Icmpv4Repr::EchoReply { ident, seq_no, data };
                let mut buffer = vec![0u8; repr.buffer_len()];
                repr.emit(&mut Icmpv4Packet::new_unchecked(&mut buffer[..]), &caps);
                buffer
            }
            _ => panic!("no echo request"),
        };
        outcomes.push(match probe.step(10_003, true, true, Some(&reply)).verdict {
            EchoVerdict::Reply(rtt) => Some(rtt),
            _ => None,
        });
    }
    let alive = scan_v4(&neighbors, &outcomes);
    assert_eq!(alive, vec![IcmpResponse(0xC0A8_0105, 3)]);

    let services: Vec<Service> =
        [21u16, 22, 23, 25, 53, 80, 110, 143, 443, 993, 3306, 8080].iter().map(|p| Service(*p, "tcp")).collect();
    let open = [22u16, 443, 8080];
    let mut sweep = tcp::probe_addresses(&neighbors, services);
    let mut sizes = Vec::new();
    let mut now = 0;
    loop {
        let batch = match sweep.next_turn(now) {
            Turn::Finished => break,
            Turn::Batch(addr, batch) => {
                assert_eq!(addr, 0xC0A8_0105);
                batch
            }
        };
        if !batch.is_empty() {
            sizes.push(batch.len());
        }
        let mut watched = vec![true; batch.len()];
        while !sweep.is_idle() {
            now += 60;
            for (i, c) in batch.iter().enumerate() {
                if watched[i] {
                    let accepts = open.contains(&c.service.0);
                    let action = sweep.observe_tcp(c.slot, now, accepts, true);
                    assert_eq!(action == SlotAction::Close, accepts);
                    watched[i] = action == SlotAction::Keep;
                }
            }
        }
    }
    assert_eq!(sizes, vec![10, 2]);
    assert_eq!(
        sweep.into_results(),
        vec![PortScan(
            0xC0A8_0105,
            vec![Service(22, "tcp"), Service(443, "tcp"), Service(8080, "tcp")]
        )]
    );
}
