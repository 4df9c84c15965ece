use netprobe::network::addr::EthernetAddress;
use netprobe::network::arp::{
    attack_gateway_v4_reply, attack_gateway_v4_request, attack_network_v4_reply,
    attack_network_v4_request, ArpResponses,
};
use netprobe::network::attack::AttackState;

const OWN: EthernetAddress = EthernetAddress([0x00, 0x08, 0xdc, 0xab, 0xcd, 0xef]);
const PEER: EthernetAddress = EthernetAddress([0x02, 0x11, 0x22, 0x33, 0x44, 0x55]);

fn two_neighbors() -> ArpResponses {
    let mut n = ArpResponses::new();
    n.insert(0xC0A8_0105, PEER);
    n.insert(0xC0A8_0107, PEER);
    n
}

#[test]
fn nothing_is_switched_on_at_first() {
    let mut state = AttackState::new();
    assert!(!state.gateway_attack_active());
    assert!(!state.network_attack_active());
    let round = state.fire_attacks(0, &OWN, &two_neighbors());
    assert!(round.gateway.is_empty());
    assert!(round.network_requests.is_empty());
    assert!(round.network_replies.is_empty());
    assert!(!round.network_attack_stopped);
}

#[test]
fn toggles_switch_on_and_off_independently() {
    let mut state = AttackState::new();
    assert!(state.toggle_gateway_attack());
    assert!(state.gateway_attack_active());
    assert!(!state.network_attack_active());
    assert!(state.toggle_network_attack());
    assert!(!state.toggle_gateway_attack());
    assert!(state.network_attack_active());
    assert!(!state.toggle_network_attack());
    assert!(!state.network_attack_active());
}

#[test]
fn first_round_comes_at_once() {
    let mut state = AttackState::new();
    state.set_gateway(Some(0xC0A8_0101));
    state.toggle_gateway_attack();
    let round = state.fire_attacks(37, &OWN, &ArpResponses::new());
    assert!(round.network_requests.is_empty());
    assert_eq!(
        round.gateway,
        vec![
            attack_gateway_v4_request(&OWN, 0xC0A8_0101),
            attack_gateway_v4_reply(&OWN, 0xC0A8_0101),
        ]
    );
}

#[test]
fn rounds_come_every_ten_intervals() {
    let mut state = AttackState::new();
    state.set_gateway(Some(0xC0A8_0101));
    state.toggle_gateway_attack();
    assert_eq!(state.fire_attacks(0, &OWN, &ArpResponses::new()).gateway.len(), 2);
    let mut rounds = 0;
    for ticks in 1..=2000usize {
        let round = state.fire_attacks(ticks, &OWN, &ArpResponses::new());
        if !round.gateway.is_empty() {
            rounds += 1;
            assert_eq!(ticks % 1000, 0);
        }
    }
    assert_eq!(rounds, 2);
}

#[test]
fn gateway_claim_needs_a_known_gateway() {
    let mut state = AttackState::new();
    state.toggle_gateway_attack();
    let round = state.fire_attacks(0, &OWN, &two_neighbors());
    assert!(round.gateway.is_empty());
    assert!(round.network_requests.is_empty());
    assert!(state.gateway_attack_active());
}

#[test]
fn network_round_asks_then_tells_for_each_neighbor() {
    let mut state = AttackState::new();
    state.set_gateway(Some(0xC0A8_0101));
    state.toggle_gateway_attack();
    state.toggle_network_attack();
    let n = two_neighbors();
    let round = state.fire_attacks(300, &OWN, &n);
    assert_eq!(
        round.gateway,
        vec![
            attack_gateway_v4_request(&OWN, 0xC0A8_0101),
            attack_gateway_v4_reply(&OWN, 0xC0A8_0101),
        ]
    );
    assert_eq!(round.network_requests.len(), 2);
    assert_eq!(round.network_requests, attack_network_v4_request(&OWN, &n));
    assert_eq!(round.network_replies, attack_network_v4_reply(&OWN, &n));
    assert!(!round.network_attack_stopped);
    assert!(state.network_attack_active());
}

#[test]
fn network_claim_without_neighbors_switches_itself_off() {
    let mut state = AttackState::new();
    state.toggle_network_attack();
    let round = state.fire_attacks(0, &OWN, &ArpResponses::new());
    assert!(round.network_requests.is_empty());
    assert!(round.network_replies.is_empty());
    assert!(round.network_attack_stopped);
    assert!(!state.network_attack_active());
}

#[test]
fn clock_between_intervals_does_not_count() {
    let mut state = AttackState::new();
    assert!(state.fire_attacks(1, &OWN, &ArpResponses::new()).gateway.is_empty());
    state.toggle_network_attack();
    for ticks in [1usize, 50, 99, 101, 199] {
        let round = state.fire_attacks(ticks, &OWN, &ArpResponses::new());
        assert!(round.network_requests.is_empty());
        assert!(!round.network_attack_stopped);
    }
    assert!(state.network_attack_active());
}
