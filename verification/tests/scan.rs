use netprobe::network::addr::EthernetAddress;
use netprobe::network::arp::ArpResponses;
use netprobe::network::ports::{Connect, PortScan, PortScanner, Service, SlotAction, Sweep, Turn};
use netprobe::network::{tcp, udp, StringableVec};

const MAC: EthernetAddress = EthernetAddress([2, 0, 0, 0, 0, 1]);

fn table(ports: &[u16]) -> Vec<Service> {
    ports.iter().map(|p| Service(*p, "svc")).collect()
}

fn twelve() -> Vec<Service> {
    table(&[21, 22, 23, 25, 53, 80, 110, 143, 443, 993, 3306, 8080])
}

fn neighbors(addrs: &[u32]) -> ArpResponses {
    let mut n = ArpResponses::new();
    for a in addrs {
        n.insert(*a, MAC);
    }
    n
}

/// Drives a connect scan against a target on which exactly `open` accept connections.
fn run_tcp(sweep: &mut Sweep, open: &[u16]) -> Vec<(u32, Vec<Connect>)> {
    let mut batches = Vec::new();
    let mut now = 0i64;
    loop {
        let (addr, batch) = match sweep.next_turn(now) {
            Turn::Finished => return batches,
            Turn::Batch(addr, batch) => (addr, batch),
        };
        let mut watched: Vec<Option<Connect>> = vec![None; 10];
        for c in &batch {
            watched[c.slot] = Some(*c);
        }
        if !batch.is_empty() {
            batches.push((addr, batch));
        }
        while !sweep.is_idle() {
            now += 7;
            for slot in 0..10 {
                if let Some(c) = watched[slot] {
                    let established = open.contains(&c.service.0) && now % 2 == 0;
                    match sweep.observe_tcp(slot, now, established, true) {
                        SlotAction::Keep => {}
                        SlotAction::Close => {
                            assert!(open.contains(&c.service.0));
                            watched[slot] = None;
                        }
                        SlotAction::Abort => {
                            assert!(!open.contains(&c.service.0));
                            watched[slot] = None;
                        }
                    }
                }
            }
        }
    }
}

#[test]
fn two_open_ports_among_twelve_are_found_in_table_order() {
    let mut sweep = tcp::probe_addresses(&neighbors(&[0xC0A8_0105]), twelve());
    let batches = run_tcp(&mut sweep, &[80, 22]);
    assert_eq!(batches.len(), 2);
    let results = sweep.into_results();
    assert_eq!(
        results,
        vec![PortScan(0xC0A8_0105, vec![Service(22, "svc"), Service(80, "svc")])]
    );
}

#[test]
fn twelve_services_take_a_batch_of_ten_and_one_of_two() {
    let mut sweep = tcp::probe_addresses(&neighbors(&[0xC0A8_0105]), twelve());
    let batches = run_tcp(&mut sweep, &[21, 443, 8080]);
    let sizes: Vec<usize> = batches.iter().map(|b| b.1.len()).collect();
    assert_eq!(sizes, vec![10, 2]);
    let ports: Vec<u16> = batches.iter().flat_map(|b| b.1.iter().map(|c| c.service.0)).collect();
    assert_eq!(ports, vec![21, 22, 23, 25, 53, 80, 110, 143, 443, 993, 3306, 8080]);
    let locals: Vec<u16> = batches.iter().flat_map(|b| b.1.iter().map(|c| c.local_port)).collect();
    assert_eq!(locals, (49152..49164).collect::<Vec<u16>>());
    let slots: Vec<usize> = batches.iter().flat_map(|b| b.1.iter().map(|c| c.slot)).collect();
    assert_eq!(slots, vec![0, 1, 2, 3, 4, 5, 6, 7, 8, 9, 0, 1]);
    assert_eq!(
        sweep.into_results(),
        vec![PortScan(
            0xC0A8_0105,
            vec![Service(21, "svc"), Service(443, "svc"), Service(8080, "svc")]
        )]
    );
}

#[test]
fn every_neighbor_gets_its_result_in_order() {
    let mut sweep = tcp::probe_addresses(&neighbors(&[30, 10, 20]), table(&[22, 80]));
    let batches = run_tcp(&mut sweep, &[80]);
    let targets: Vec<u32> = batches.iter().map(|b| b.0).collect();
    assert_eq!(targets, vec![10, 20, 30]);
    assert_eq!(
        sweep.into_results(),
        vec![
            PortScan(10, vec![Service(80, "svc")]),
            PortScan(20, vec![Service(80, "svc")]),
            PortScan(30, vec![Service(80, "svc")]),
        ]
    );
}

#[test]
fn port_that_times_out_is_not_listed() {
    let mut sweep = tcp::probe_addresses(&neighbors(&[9]), table(&[22]));
    assert!(matches!(sweep.next_turn(0), Turn::Batch(9, _)));
    assert_eq!(sweep.observe_tcp(0, 500, false, false), SlotAction::Abort);
    assert!(matches!(sweep.next_turn(600), Turn::Batch(9, _)));
    assert!(matches!(sweep.next_turn(700), Turn::Finished));
    assert_eq!(sweep.into_results(), vec![PortScan(9, vec![])]);
}

#[test]
fn open_port_seen_before_its_connection_stands_is_still_found() {
    let mut sweep = tcp::probe_addresses(&neighbors(&[9]), table(&[22, 80]));
    sweep.next_turn(0);
    assert_eq!(sweep.observe_tcp(1, 10, false, false), SlotAction::Keep);
    assert_eq!(sweep.observe_tcp(1, 90, true, true), SlotAction::Close);
    assert_eq!(sweep.observe_tcp(0, 101, false, true), SlotAction::Abort);
    sweep.next_turn(200);
    assert_eq!(sweep.into_results(), vec![PortScan(9, vec![Service(80, "svc")])]);
}

#[test]
fn no_neighbors_no_results() {
    let mut sweep = tcp::probe_addresses(&ArpResponses::new(), twelve());
    assert!(matches!(sweep.next_turn(0), Turn::Finished));
    assert!(sweep.into_results().is_empty());
}

#[test]
fn empty_table_gives_empty_results() {
    let mut sweep = udp::probe_addresses(&neighbors(&[1, 2]), Vec::new());
    assert!(run_tcp(&mut sweep, &[]).is_empty());
    assert_eq!(sweep.into_results(), vec![PortScan(1, vec![]), PortScan(2, vec![])]);
}

#[test]
fn table_of_twenty_takes_two_full_batches() {
    let ports: Vec<u16> = (1..=20).collect();
    let mut scanner = PortScanner::new(table(&ports));
    assert_eq!(scanner.start_batch(0).len(), 10);
    assert_eq!(scanner.batches(), 1);
    assert!(scanner.start_batch(1).is_empty());
    for slot in 0..10 {
        assert_eq!(scanner.observe_tcp(slot, 101, false, false), SlotAction::Abort);
    }
    assert!(scanner.is_idle());
    assert!(!scanner.is_done());
    let second = scanner.start_batch(200);
    assert_eq!(second.len(), 10);
    assert_eq!(second[0].service.0, 11);
    assert_eq!(second[0].local_port, 49162);
    for slot in 0..10 {
        scanner.observe_tcp(slot, 200, true, false);
    }
    assert!(scanner.is_done());
    assert!(scanner.start_batch(300).is_empty());
    assert_eq!(scanner.batches(), 2);
    let found: Vec<u16> = scanner.open_services().iter().map(|s| s.0).collect();
    assert_eq!(found, (11..=20).collect::<Vec<u16>>());
}

#[test]
fn connection_is_closed_or_aborted() {
    let mut scanner = PortScanner::new(table(&[1, 2, 3, 4]));
    scanner.start_batch(1000);
    assert_eq!(scanner.observe_tcp(0, 1000, true, true), SlotAction::Close);
    assert_eq!(scanner.observe_tcp(1, 1000, true, false), SlotAction::Abort);
    assert_eq!(scanner.observe_tcp(2, 1100, false, true), SlotAction::Keep);
    assert_eq!(scanner.observe_tcp(2, 1101, false, true), SlotAction::Abort);
    assert_eq!(scanner.observe_tcp(0, 1101, true, true), SlotAction::Keep);
    assert_eq!(scanner.observe_tcp(7, 1101, true, true), SlotAction::Keep);
    assert_eq!(scanner.observe_tcp(10, 1101, true, true), SlotAction::Keep);
    assert!(scanner.slot(3).is_some());
    assert!(scanner.slot(0).is_none());
    let found: Vec<u16> = scanner.open_services().iter().map(|s| s.0).collect();
    assert_eq!(found, vec![1, 2]);
}

#[test]
fn ports_found_late_are_still_listed_in_table_order() {
    let mut scanner = PortScanner::new(table(&[5, 6, 7]));
    scanner.start_batch(0);
    scanner.observe_tcp(2, 1, true, true);
    scanner.observe_tcp(0, 2, true, true);
    scanner.observe_tcp(1, 200, false, true);
    assert!(scanner.is_done());
    let found: Vec<u16> = scanner.open_services().iter().map(|s| s.0).collect();
    assert_eq!(found, vec![5, 7]);
}

#[test]
fn datagram_probe_is_sent_once() {
    let mut scanner = PortScanner::new(table(&[53, 123]));
    scanner.start_batch(0);
    assert!(!scanner.observe_udp(0, 1, false, false));
    assert!(scanner.observe_udp(0, 2, true, false));
    assert!(!scanner.observe_udp(0, 3, true, false));
    assert!(scanner.observe_udp(1, 3, true, false));
    assert!(!scanner.observe_udp(0, 50, true, true));
    assert!(scanner.slot(0).is_none());
    assert!(!scanner.observe_udp(1, 100, true, false));
    assert!(scanner.slot(1).is_some());
    assert!(!scanner.observe_udp(1, 101, true, false));
    assert!(scanner.is_done());
    assert_eq!(scanner.open_services(), vec![Service(53, "svc")]);
}

#[test]
fn datagram_scan_over_neighbors() {
    let mut sweep = udp::probe_addresses(&neighbors(&[7]), table(&[53, 67, 123]));
    let mut now = 0;
    let mut probes = 0;
    loop {
        let batch = match sweep.next_turn(now) {
            Turn::Finished => break,
            Turn::Batch(_, batch) => batch,
        };
        while !sweep.is_idle() {
            now += 30;
            for c in &batch {
                if sweep.observe_udp(c.slot, now, true, c.service.0 == 123 && now >= 60) {
                    probes += 1;
                }
            }
        }
    }
    assert_eq!(probes, 3);
    assert_eq!(sweep.into_results(), vec![PortScan(7, vec![Service(123, "svc")])]);
}

#[test]
fn scans_are_written_neighbor_by_neighbor() {
    let scans = vec![
        PortScan(0xC0A8_0105, vec![Service(22, "ssh"), Service(80, "http")]),
        PortScan(0xC0A8_0109, vec![]),
    ];
    assert_eq!(
        scans.to_string_vec(),
        vec![
            "192.168.1.5:",
            "    22 (ssh)",
            "    80 (http)",
            "192.168.1.9:",
            "    No open ports found",
        ]
    );
    assert_eq!(vec![Service(65535, "x")].to_string_vec(), vec!["    65535 (x)"]);
}
