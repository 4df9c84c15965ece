use netprobe::network::addr::{ipv4_is_unicast, to_ipv4_address, EthernetAddress};
use netprobe::network::arp::{
    attack_gateway_v4_reply, attack_gateway_v4_request, attack_network_v4_reply,
    attack_network_v4_request, process_arp, solicit, ArpResponses,
};
use netprobe::network::eth::{dispatch_ethernet, is_for_station};
use netprobe::network::wire::{WireError, ARP_REPLY, ARP_REQUEST};

const OWN: EthernetAddress = EthernetAddress([0x00, 0x08, 0xdc, 0xab, 0xcd, 0xef]);
const PEER: EthernetAddress = EthernetAddress([0x02, 0x11, 0x22, 0x33, 0x44, 0x55]);

fn arp_frame(dst: [u8; 6], op: u16, sha: [u8; 6], spa: [u8; 4], tha: [u8; 6], tpa: [u8; 4]) -> Vec<u8> {
    let mut f = Vec::new();
    f.extend_from_slice(&dst);
    f.extend_from_slice(&sha);
    f.extend_from_slice(&[0x08, 0x06]);
    f.extend_from_slice(&[0, 1, 8, 0, 6, 4]);
    f.extend_from_slice(&op.to_be_bytes());
    f.extend_from_slice(&sha);
    f.extend_from_slice(&spa);
    f.extend_from_slice(&tha);
    f.extend_from_slice(&tpa);
    f
}

#[test]
fn dispatch_puts_destination_source_type_payload() {
    let frame = dispatch_ethernet(&OWN, &PEER, 0x0800, &[1, 2, 3]);
    assert_eq!(
        frame,
        vec![0x02, 0x11, 0x22, 0x33, 0x44, 0x55, 0x00, 0x08, 0xdc, 0xab, 0xcd, 0xef, 0x08, 0x00, 1, 2, 3]
    );
}

#[test]
fn dispatch_of_empty_payload_is_the_header() {
    let frame = dispatch_ethernet(&OWN, &PEER, 0x86dd, &[]);
    assert_eq!(frame.len(), 14);
    assert_eq!(&frame[12..], &[0x86, 0xdd]);
}

#[test]
fn solicitation_asks_everybody_without_an_address() {
    let frame = solicit(&OWN, 0xC0A8_0105);
    assert_eq!(
        frame,
        arp_frame([0xff; 6], 1, OWN.0, [0, 0, 0, 0], [0xff; 6], [192, 168, 1, 5])
    );
    assert_eq!(frame.len(), 42);
}

#[test]
fn gateway_request_claims_the_gateway() {
    let frame = attack_gateway_v4_request(&OWN, 0xC0A8_0101);
    assert_eq!(
        frame,
        arp_frame([0xff; 6], 1, OWN.0, [192, 168, 1, 1], [0; 6], [192, 168, 1, 1])
    );
}

#[test]
fn gateway_reply_claims_the_gateway() {
    let frame = attack_gateway_v4_reply(&OWN, 0xC0A8_0101);
    assert_eq!(
        frame,
        arp_frame([0xff; 6], 2, OWN.0, [192, 168, 1, 1], OWN.0, [192, 168, 1, 1])
    );
}

#[test]
fn network_frames_go_through_the_neighbors_in_order() {
    let mut neighbors = ArpResponses::new();
    neighbors.insert(0xC0A8_0109, PEER);
    neighbors.insert(0xC0A8_0102, PEER);
    let requests = attack_network_v4_request(&OWN, &neighbors);
    let replies = attack_network_v4_reply(&OWN, &neighbors);
    assert_eq!(
        requests,
        vec![
            arp_frame([0xff; 6], 1, OWN.0, [192, 168, 1, 2], [0; 6], [192, 168, 1, 2]),
            arp_frame([0xff; 6], 1, OWN.0, [192, 168, 1, 9], [0; 6], [192, 168, 1, 9]),
        ]
    );
    assert_eq!(
        replies,
        vec![
            arp_frame([0xff; 6], 2, OWN.0, [192, 168, 1, 2], OWN.0, [192, 168, 1, 2]),
            arp_frame([0xff; 6], 2, OWN.0, [192, 168, 1, 9], OWN.0, [192, 168, 1, 9]),
        ]
    );
    assert!(attack_network_v4_request(&OWN, &ArpResponses::new()).is_empty());
}

#[test]
fn arp_reply_to_us_is_read() {
    let frame = arp_frame(OWN.0, 2, PEER.0, [192, 168, 1, 5], OWN.0, [0, 0, 0, 0]);
    let repr = process_arp(&OWN, &frame).unwrap();
    assert_eq!(repr.operation, ARP_REPLY);
    assert_eq!(repr.source_hardware_addr, PEER);
    assert_eq!(repr.source_protocol_addr, 0xC0A8_0105);
    assert_eq!(repr.target_hardware_addr, OWN);
    assert_eq!(repr.target_protocol_addr, 0);
}

#[test]
fn arp_request_by_broadcast_is_read() {
    let frame = arp_frame([0xff; 6], 1, PEER.0, [10, 0, 0, 7], [0; 6], [10, 0, 0, 1]);
    let repr = process_arp(&OWN, &frame).unwrap();
    assert_eq!(repr.operation, ARP_REQUEST);
    assert_eq!(repr.source_protocol_addr, 0x0A00_0007);
    assert_eq!(repr.target_protocol_addr, 0x0A00_0001);
}

#[test]
fn short_frame_is_truncated() {
    assert_eq!(process_arp(&OWN, &[0xff; 13]), Err(WireError::Truncated));
    let frame = arp_frame(OWN.0, 2, PEER.0, [192, 168, 1, 5], OWN.0, [0, 0, 0, 0]);
    assert_eq!(process_arp(&OWN, &frame[..41]), Err(WireError::Truncated));
    assert_eq!(process_arp(&OWN, &frame[..20]), Err(WireError::Truncated));
}

#[test]
fn frame_for_another_station_is_dropped() {
    let frame = arp_frame([0x02, 0, 0, 0, 0, 9], 2, PEER.0, [192, 168, 1, 5], OWN.0, [0; 4]);
    assert_eq!(process_arp(&OWN, &frame), Err(WireError::Dropped));
}

#[test]
fn frame_to_a_multicast_group_is_taken() {
    let frame = arp_frame([0x01, 0, 0x5e, 0, 0, 1], 2, PEER.0, [192, 168, 1, 5], OWN.0, [0; 4]);
    assert!(process_arp(&OWN, &frame).is_ok());
}

#[test]
fn frame_of_another_kind_is_unrecognized() {
    let mut frame = arp_frame(OWN.0, 2, PEER.0, [192, 168, 1, 5], OWN.0, [0; 4]);
    frame[12] = 0x08;
    frame[13] = 0x00;
    assert_eq!(process_arp(&OWN, &frame), Err(WireError::Unrecognized));
}

#[test]
fn arp_for_other_hardware_is_unrecognized() {
    let mut frame = arp_frame(OWN.0, 2, PEER.0, [192, 168, 1, 5], OWN.0, [0; 4]);
    frame[15] = 6;
    assert_eq!(process_arp(&OWN, &frame), Err(WireError::Unrecognized));
}

#[test]
fn arp_with_unknown_operation_is_unrecognized() {
    let frame = arp_frame(OWN.0, 3, PEER.0, [192, 168, 1, 5], OWN.0, [0; 4]);
    assert_eq!(process_arp(&OWN, &frame), Err(WireError::Unrecognized));
}

#[test]
fn arp_from_unbelievable_sender_is_dropped() {
    let zero_ip = arp_frame(OWN.0, 2, PEER.0, [0, 0, 0, 0], OWN.0, [0; 4]);
    assert_eq!(process_arp(&OWN, &zero_ip), Err(WireError::Dropped));
    let broadcast_ip = arp_frame(OWN.0, 2, PEER.0, [255, 255, 255, 255], OWN.0, [0; 4]);
    assert_eq!(process_arp(&OWN, &broadcast_ip), Err(WireError::Dropped));
    let multicast_ip = arp_frame(OWN.0, 2, PEER.0, [224, 0, 0, 1], OWN.0, [0; 4]);
    assert_eq!(process_arp(&OWN, &multicast_ip), Err(WireError::Dropped));
    let broadcast_mac = arp_frame(OWN.0, 2, [0xff; 6], [192, 168, 1, 5], OWN.0, [0; 4]);
    assert_eq!(process_arp(&OWN, &broadcast_mac), Err(WireError::Dropped));
    let multicast_mac = arp_frame(OWN.0, 2, [0x01, 0, 0, 0, 0, 1], [192, 168, 1, 5], OWN.0, [0; 4]);
    assert_eq!(process_arp(&OWN, &multicast_mac), Err(WireError::Dropped));
}

#[test]
fn station_listens_to_broadcast_multicast_and_itself() {
    assert!(is_for_station(&EthernetAddress::broadcast(), &OWN));
    assert!(is_for_station(&EthernetAddress([0x33, 0x33, 0, 0, 0, 1]), &OWN));
    assert!(is_for_station(&OWN, &OWN));
    assert!(!is_for_station(&PEER, &OWN));
}

#[test]
fn hardware_address_classes() {
    assert!(EthernetAddress::broadcast().is_broadcast());
    assert!(!EthernetAddress::broadcast().is_unicast());
    assert!(EthernetAddress([0x01, 0, 0, 0, 0, 0]).is_multicast());
    assert!(!EthernetAddress([0x01, 0, 0, 0, 0, 0]).is_unicast());
    assert!(OWN.is_unicast());
    assert!(!OWN.is_multicast());
    assert!(EthernetAddress::zero().is_unicast());
    assert!(OWN.same_as(&EthernetAddress([0x00, 0x08, 0xdc, 0xab, 0xcd, 0xef])));
    assert!(!OWN.same_as(&PEER));
}

#[test]
fn protocol_address_classes() {
    assert!(ipv4_is_unicast(0xC0A8_0105));
    assert!(ipv4_is_unicast(0x0100_0000));
    assert!(!ipv4_is_unicast(0x00FF_FFFF));
    assert!(!ipv4_is_unicast(0));
    assert!(!ipv4_is_unicast(0xFFFF_FFFF));
    assert!(!ipv4_is_unicast(0xE000_0000));
    assert!(!ipv4_is_unicast(0xEFFF_FFFF));
    assert!(ipv4_is_unicast(0xDFFF_FFFF));
    assert!(ipv4_is_unicast(0xF000_0000));
}

#[test]
fn address_splits_into_octets() {
    assert_eq!(to_ipv4_address(0xC0A8_0105), [192, 168, 1, 5]);
    assert_eq!(to_ipv4_address(0), [0, 0, 0, 0]);
    assert_eq!(to_ipv4_address(0xFFFF_FFFF), [255, 255, 255, 255]);
}
