use netprobe::network::cidr::{split_ip_netmask, Ipv4Cidr, ParseError, WireCidr};

fn count_walk(c: &mut Ipv4Cidr) -> (u64, Option<u32>, Option<u32>) {
    let mut n = 0u64;
    let mut lowest = None;
    let mut highest = None;
    while let Some(a) = c.next() {
        if lowest.is_none() {
            lowest = Some(a);
        }
        highest = Some(a);
        n += 1;
    }
    (n, lowest, highest)
}

#[test]
fn parse_class_c_block() {
    let c = Ipv4Cidr::from_str("192.168.1.0/24").unwrap();
    assert_eq!(c.first_addr(), 0xC0A8_0100);
    assert_eq!(c.last_addr(), 0xC0A8_01FF);
    assert_eq!(c.netmask(), 24);
}

#[test]
fn parse_class_a_block() {
    let c = Ipv4Cidr::from_str("10.0.0.0/8").unwrap();
    assert_eq!(c.first_addr(), 0x0A00_0000);
    assert_eq!(c.last_addr(), 0x0AFF_FFFF);
}

#[test]
fn parse_rejects_large_prefix_first() {
    assert_eq!(Ipv4Cidr::from_str("bad/99"), Err(ParseError::NetmaskTooLarge));
}

#[test]
fn parse_rejects_three_octets() {
    assert_eq!(Ipv4Cidr::from_str("1.2.3/24"), Err(ParseError::OctetCount));
}

#[test]
fn parse_rejects_five_octets() {
    assert_eq!(Ipv4Cidr::from_str("1.2.3.4.5/24"), Err(ParseError::OctetCount));
}

#[test]
fn parse_rejects_missing_slash_and_empty_sides() {
    assert_eq!(Ipv4Cidr::from_str("1.2.3.4"), Err(ParseError::Format));
    assert_eq!(Ipv4Cidr::from_str("/24"), Err(ParseError::Format));
    assert_eq!(Ipv4Cidr::from_str("1.2.3.4/"), Err(ParseError::Format));
    assert_eq!(Ipv4Cidr::from_str(""), Err(ParseError::Format));
}

#[test]
fn parse_rejects_prefix_that_is_no_number() {
    assert_eq!(Ipv4Cidr::from_str("1.2.3.4/x"), Err(ParseError::Netmask));
    assert_eq!(Ipv4Cidr::from_str("1.2.3.4/256"), Err(ParseError::Netmask));
    assert_eq!(Ipv4Cidr::from_str("1.2.3.4/2/4"), Err(ParseError::Netmask));
    assert_eq!(Ipv4Cidr::from_str("1.2.3.4/+"), Err(ParseError::Netmask));
}

#[test]
fn parse_rejects_prefix_above_32() {
    assert_eq!(Ipv4Cidr::from_str("1.2.3.4/33"), Err(ParseError::NetmaskTooLarge));
    assert_eq!(Ipv4Cidr::from_str("1.2.3.4/255"), Err(ParseError::NetmaskTooLarge));
    assert!(Ipv4Cidr::from_str("1.2.3.4/32").is_ok());
}

#[test]
fn parse_rejects_octets_that_do_not_fit() {
    assert_eq!(Ipv4Cidr::from_str("1.2.3.256/24"), Err(ParseError::Octet));
    assert_eq!(Ipv4Cidr::from_str("1.2.x.4/24"), Err(ParseError::Octet));
    assert_eq!(Ipv4Cidr::from_str("1..3.4/24"), Err(ParseError::Octet));
    assert_eq!(Ipv4Cidr::from_str("1.2.3.-4/24"), Err(ParseError::Octet));
}

#[test]
fn parse_takes_plus_signs_and_leading_zeros() {
    let c = Ipv4Cidr::from_str("+10.001.0.0000255/+8").unwrap();
    assert_eq!(c.addr(), 0x0A01_00FF);
    assert_eq!(c.first_addr(), 0x0A00_0000);
    assert_eq!(c.netmask(), 8);
}

#[test]
fn parse_keeps_the_address_as_cursor() {
    let mut c = Ipv4Cidr::from_str("192.168.1.77/24").unwrap();
    assert_eq!(c.addr(), 0xC0A8_014D);
    assert_eq!(c.first_addr(), 0xC0A8_0100);
    assert_eq!(c.next(), Some(0xC0A8_014E));
    c.reset();
    assert_eq!(c.addr(), 0xC0A8_0100);
    assert_eq!(c.next(), Some(0xC0A8_0101));
}

#[test]
fn new_masks_the_base() {
    let c = Ipv4Cidr::new(0xC0A8_014D, 24);
    assert_eq!(c.first_addr(), 0xC0A8_0100);
    assert_eq!(c.last_addr(), 0xC0A8_01FF);
    assert_eq!(c.addr(), 0xC0A8_014D);
    assert_eq!(c.netmask(), 24);
}

#[test]
fn new_with_prefix_zero_spans_everything() {
    let c = Ipv4Cidr::new(0x0100_0000, 0);
    assert_eq!(c.first_addr(), 0);
    assert_eq!(c.last_addr(), 0xFFFF_FFFF);
    assert_eq!(c.addr(), 0x0100_0000);
}

#[test]
fn new_with_prefix_32_is_one_address() {
    let mut c = Ipv4Cidr::new(0x0A00_0001, 32);
    assert_eq!(c.first_addr(), 0x0A00_0001);
    assert_eq!(c.last_addr(), 0x0A00_0001);
    assert_eq!(c.next(), None);
}

#[test]
fn max_size_is_32() {
    assert_eq!(Ipv4Cidr::max_size(), 32);
}

#[test]
fn walk_skips_first_and_yields_last() {
    let mut c = Ipv4Cidr::new(0xC0A8_0100, 24);
    c.reset();
    let (n, lowest, highest) = count_walk(&mut c);
    assert_eq!(n, 255);
    assert_eq!(lowest, Some(0xC0A8_0101));
    assert_eq!(highest, Some(0xC0A8_01FF));
    assert_eq!(c.next(), None);
}

#[test]
fn walk_counts_two_to_the_host_bits_less_one() {
    for prefix in 16u8..=32 {
        let mut c = Ipv4Cidr::new(0x0A14_1E28, prefix);
        c.reset();
        let first = c.first_addr();
        let last = c.last_addr();
        let (n, lowest, highest) = count_walk(&mut c);
        assert_eq!(n, (1u64 << (32 - prefix)) - 1);
        if n > 0 {
            assert_eq!(lowest, Some(first + 1));
            assert_eq!(highest, Some(last));
        }
    }
}

#[test]
fn walk_restarts_after_reset() {
    let mut c = Ipv4Cidr::new(0x0A00_0000, 30);
    assert_eq!(c.next(), Some(0x0A00_0001));
    assert_eq!(c.next(), Some(0x0A00_0002));
    assert_eq!(c.next(), Some(0x0A00_0003));
    assert_eq!(c.next(), None);
    assert_eq!(c.next(), None);
    c.reset();
    assert_eq!(c.next(), Some(0x0A00_0001));
}

#[test]
fn from_reads_octets_highest_first() {
    let c = Ipv4Cidr::from(WireCidr {
        address: [192, 168, 1, 77],
        netmask: [255, 255, 255, 0],
        prefix_len: 24,
    });
    assert_eq!(c.addr(), 0xC0A8_014D);
    assert_eq!(c.first_addr(), 0xC0A8_0100);
    assert_eq!(c.last_addr(), 0xC0A8_01FF);
    assert_eq!(c.netmask(), 24);
}

#[test]
fn split_cuts_at_the_first_slash() {
    assert_eq!(split_ip_netmask("10.0.0.0/8"), Some(("10.0.0.0", "8")));
    assert_eq!(split_ip_netmask("a/b/c"), Some(("a", "b/c")));
    assert_eq!(split_ip_netmask("abc"), None);
    assert_eq!(split_ip_netmask("/8"), None);
    assert_eq!(split_ip_netmask("a/"), None);
}
