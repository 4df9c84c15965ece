use netprobe::gui::uistate::UiState;
use netprobe::gui::uistates::UiStates;
use netprobe::network::addr::EthernetAddress;
use netprobe::network::cidr::Ipv4Cidr;
use netprobe::network::sockets::{tcp_reply, udp_reply};
use netprobe::network::text::{push_decimal, push_ipv4, push_mac, push_span};
use netprobe::network::time::{add_millis, is_more_than_since, millis_between, secs};
use netprobe::network::Stringable;

fn decimal(n: u64) -> String {
    let mut s = String::new();
    push_decimal(&mut s, n);
    s
}

fn span(ms: u64) -> String {
    let mut s = String::new();
    push_span(&mut s, ms);
    s
}

#[test]
fn numbers_are_written_in_decimal() {
    assert_eq!(decimal(0), "0");
    assert_eq!(decimal(7), "7");
    assert_eq!(decimal(10), "10");
    assert_eq!(decimal(255), "255");
    assert_eq!(decimal(1_000_000), "1000000");
    assert_eq!(decimal(u64::MAX), "18446744073709551615");
    let mut s = String::from("n=");
    push_decimal(&mut s, 42);
    assert_eq!(s, "n=42");
}

#[test]
fn addresses_are_written_dotted() {
    assert_eq!(Stringable::to_string(&0xC0A8_0105u32), "192.168.1.5");
    assert_eq!(Stringable::to_string(&0u32), "0.0.0.0");
    assert_eq!(Stringable::to_string(&0xFFFF_FFFFu32), "255.255.255.255");
    let mut s = String::from("ip ");
    push_ipv4(&mut s, 0x0A00_0001);
    assert_eq!(s, "ip 10.0.0.1");
}

#[test]
fn hardware_addresses_are_written_in_hex_with_hyphens() {
    let mac = EthernetAddress([0x00, 0x08, 0xdc, 0xab, 0xcd, 0xef]);
    assert_eq!(Stringable::to_string(&mac), "00-08-dc-ab-cd-ef");
    assert_eq!(Stringable::to_string(&EthernetAddress::broadcast()), "ff-ff-ff-ff-ff-ff");
    let mut s = String::new();
    push_mac(&mut s, &EthernetAddress([1, 0x23, 0x45, 0x67, 0x89, 0x0a]));
    assert_eq!(s, "01-23-45-67-89-0a");
}

#[test]
fn blocks_are_written_with_cursor_and_prefix() {
    let mut c = Ipv4Cidr::from_str("192.168.1.77/24").unwrap();
    assert_eq!(Stringable::to_string(&c), "192.168.1.77/24");
    c.reset();
    assert_eq!(Stringable::to_string(&c), "192.168.1.0/24");
    assert_eq!(Stringable::to_string(&Ipv4Cidr::new(0, 0)), "0.0.0.0/0");
}

#[test]
fn spans_are_written_in_seconds_with_three_decimals() {
    assert_eq!(span(0), "0.000s");
    assert_eq!(span(5), "0.005s");
    assert_eq!(span(50), "0.050s");
    assert_eq!(span(999), "0.999s");
    assert_eq!(span(1000), "1.000s");
    assert_eq!(span(61_005), "61.005s");
}

#[test]
fn spans_between_points_in_time() {
    assert_eq!(millis_between(10, 3), 7);
    assert_eq!(millis_between(3, 10), 7);
    assert_eq!(millis_between(-5, 5), 10);
    assert_eq!(millis_between(i64::MAX, i64::MIN), u64::MAX);
    assert_eq!(millis_between(i64::MIN, i64::MIN), 0);
    assert_eq!(millis_between(-1, i64::MIN), i64::MAX as u64);
}

#[test]
fn later_points_in_time() {
    assert_eq!(add_millis(100, 10), 110);
    assert_eq!(add_millis(-5, 10), 5);
    assert_eq!(add_millis(i64::MAX - 3, 10), i64::MAX);
    assert_eq!(add_millis(i64::MAX - 10, 10), i64::MAX);
}

#[test]
fn more_than_a_span_since() {
    assert!(is_more_than_since(100, 201, 100));
    assert!(!is_more_than_since(100, 200, 100));
    assert!(!is_more_than_since(100, i64::MIN + 5, i64::MIN));
    assert!(is_more_than_since(100, i64::MAX, i64::MIN));
    assert!(!is_more_than_since(0, 5, 5));
    assert!(is_more_than_since(0, 6, 5));
}

#[test]
fn whole_seconds_round_towards_zero() {
    assert_eq!(secs(0), 0);
    assert_eq!(secs(999), 0);
    assert_eq!(secs(1000), 1);
    assert_eq!(secs(-999), 0);
    assert_eq!(secs(-1000), -1);
    assert_eq!(secs(i64::MIN), i64::MIN / 1000);
    assert_eq!(secs(i64::MAX), i64::MAX / 1000);
}

#[test]
fn interface_starts_before_the_link_is_up() {
    let mut ui = UiState::new();
    assert_eq!(ui.get_ui_state(), UiStates::Initialization);
}

#[test]
fn each_state_shows_its_elements() {
    let mut ui = UiState::new();
    let mut items = vec![String::from("left over")];
    ui.change_ui_state(&mut items, UiStates::Initialization);
    assert_eq!(items, vec!["EthernetHint", "INIT_ETHERNET"]);
    ui.change_ui_state(&mut items, UiStates::Address);
    assert_eq!(ui.get_ui_state(), UiStates::Address);
    assert_eq!(
        items,
        vec!["AddressHint", "INIT_DHCP", "INIT_GLOBAL", "INIT_10_0_0_0", "INIT_172_16_0_0", "INIT_192_168_0_0"]
    );
    ui.change_ui_state(&mut items, UiStates::Start);
    assert_eq!(ui.get_ui_state(), UiStates::Start);
    assert_eq!(
        items,
        vec![
            "ScrollText",
            "ButtonScrollUp",
            "ButtonScrollDown",
            "TRAFFIC",
            "ButtonInfo",
            "ButtonKillGateway",
            "ARP_SCAN",
            "ICMP",
            "TCP_PROBE",
            "UDP_PROBE",
            "ButtonKillNetwork",
        ]
    );
}

#[test]
fn mirror_turns_all_but_the_last_octet_round() {
    assert_eq!(udp_reply(b"abc\n"), b"cba\n");
    assert_eq!(udp_reply(b"x"), b"x");
    assert_eq!(udp_reply(b"ab"), b"ab");
    assert_eq!(tcp_reply(b"abc\n"), Some(b"tcp: cba\n".to_vec()));
    assert_eq!(tcp_reply(b""), None);
}
