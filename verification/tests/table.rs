use netprobe::network::addr::EthernetAddress;
use netprobe::network::arp::ArpResponses;

const A: EthernetAddress = EthernetAddress([0, 1, 2, 3, 4, 5]);
const B: EthernetAddress = EthernetAddress([0, 1, 2, 3, 4, 6]);

fn entries(t: &ArpResponses) -> Vec<(u32, EthernetAddress)> {
    let all = t.entries();
    assert_eq!(all.len(), t.len());
    for (i, e) in all.iter().enumerate() {
        assert_eq!(t.entry(i), *e);
    }
    all
}

#[test]
fn new_table_is_empty() {
    let t = ArpResponses::new();
    assert!(t.is_empty());
    assert_eq!(t.len(), 0);
    assert_eq!(t.get(1), None);
}

#[test]
fn insert_same_pair_twice_is_idempotent() {
    let mut t = ArpResponses::new();
    assert_eq!(t.insert(10, A), None);
    let once = entries(&t);
    assert_eq!(t.insert(10, A), Some(A));
    assert_eq!(entries(&t), once);
    assert_eq!(t.len(), 1);
}

#[test]
fn insert_conflicting_value_overwrites() {
    let mut t = ArpResponses::new();
    t.insert(10, A);
    assert_eq!(t.insert(10, B), Some(A));
    assert_eq!(t.get(10), Some(B));
    assert_eq!(t.len(), 1);
}

#[test]
fn entries_rise_by_address() {
    let mut t = ArpResponses::new();
    t.insert(30, A);
    t.insert(10, B);
    t.insert(20, A);
    t.insert(5, B);
    t.insert(40, A);
    assert_eq!(entries(&t), vec![(5, B), (10, B), (20, A), (30, A), (40, A)]);
    assert!(t.contains_key(20));
    assert!(!t.contains_key(21));
}

#[test]
fn clear_empties_the_table() {
    let mut t = ArpResponses::new();
    t.insert(1, A);
    t.insert(2, B);
    t.clear();
    assert!(t.is_empty());
    assert_eq!(t.get(1), None);
}

#[test]
fn walk_gives_all_entries_by_rising_address() {
    let mut t = ArpResponses::new();
    for addr in [7u32, 3, 0xFFFF_FFFF, 0, 5, 3] {
        t.insert(addr, A);
    }
    let addrs: Vec<u32> = t.entries().iter().map(|e| e.0).collect();
    assert_eq!(addrs, vec![0, 3, 5, 7, 0xFFFF_FFFF]);
    assert_eq!(t.len(), 5);
    assert_eq!(t.entry(4), (0xFFFF_FFFF, A));
}
