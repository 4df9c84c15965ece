//! The skeleton of a port scan: a table of services is worked through in batches of at most
//! ten sockets, and each socket is watched until it shows its port open or its time is up.
use vstd::prelude::*;
use super::addr::EthernetAddress;
use super::cidr::Ipv4Addr;
use super::table::AddrMap;
use super::text::{decimal, ipv4_text, push_decimal, push_ipv4, StringableVec};
use super::time::{is_more_than_since, more_than_since};

verus! {

/// A service: its port number and its name.
#[derive(Clone, Copy, Debug, PartialEq, Eq)]
pub struct Service(pub u16, pub &'static str);

/// What a scan found of one neighbor: its address and its open services, in the order of the
/// service table.
#[derive(Clone, Debug, PartialEq, Eq)]
pub struct PortScan(pub Ipv4Addr, pub Vec<Service>);

/// What a scan found, one entry per neighbor.
pub type PortScans = Vec<PortScan>;

/// The number of sockets that are open at a time.
pub const SLOTS: usize = 10;

/// The local port of the first socket of a scan; each further socket takes the next port.
pub const FIRST_LOCAL_PORT: u16 = 49152;

/// The time that a socket is given to show its port open, in milliseconds.
pub const SOCKET_TIMEOUT: u16 = 100;

/// The largest service table that leaves a local port for each of its services.
pub const MAX_SERVICES: usize = 16384;

/// A socket that is being watched.
#[derive(Clone, Copy, Debug, PartialEq, Eq)]
pub struct Slot {
    /// When the socket's batch began.
    pub stamp: i64,
    /// The position of the socket's service in the table.
    pub index: usize,
    /// Whether the socket's probe has been sent (for a scan that sends one).
    pub probed: bool,
}

/// A socket to open: the slot that watches it, the service to reach, and the local port to
/// reach it from.
#[derive(Clone, Copy, Debug, PartialEq, Eq)]
pub struct Connect {
    pub slot: usize,
    pub service: Service,
    pub local_port: u16,
}

/// What to do with a watched socket.
#[derive(Clone, Copy, Debug, PartialEq, Eq, Structural)]
pub enum SlotAction {
    /// Leave it and look again after the next poll.
    Keep,
    /// Close it in good order; its slot is free.
    Close,
    /// Abort it; its slot is free.
    Abort,
}

/// A scan of one neighbor as mathematical values.
pub struct ScannerState {
    /// The service table.
    pub services: Seq<Service>,
    /// The number of services that were given a socket so far.
    pub next: int,
    /// The ten slots.
    pub slots: Seq<Option<Slot>>,
    /// For each service, whether its port was seen open.
    pub open: Seq<bool>,
    /// The number of batches begun.
    pub batches: int,
}

impl ScannerState {
    /// The slots, the marks and the counts fit the table.
    pub open spec fn wf(self) -> bool {
        &&& self.slots.len() == SLOTS
        &&& self.open.len() == self.services.len()
        &&& 0 <= self.next <= self.services.len() <= MAX_SERVICES
        &&& 0 <= self.batches <= self.next
        &&& forall|j: int|
            0 <= j < self.slots.len() ==> (#[trigger] self.slots[j] matches Some(x) ==> x.index
                < self.next)
    }

    /// No socket is being watched.
    pub open spec fn idle(self) -> bool {
        forall|j: int| 0 <= j < self.slots.len() ==> #[trigger] self.slots[j] is None
    }

    /// The scan is over: every service had its socket, and none is being watched.
    pub open spec fn done(self) -> bool {
        self.idle() && self.next == self.services.len()
    }

    /// The number of sockets of the batch that can begin now: none while sockets are being
    /// watched, else as many as there are services left, and ten at most.
    pub open spec fn batch_size(self) -> int {
        if !self.idle() {
            0
        } else if self.services.len() - self.next < SLOTS {
            self.services.len() - self.next
        } else {
            SLOTS as int
        }
    }

    /// The sockets of the batch that can begin now: slot `j` watches the `j`-th service that
    /// is left, from the local port that many above the first.
    pub open spec fn batch(self) -> Seq<Connect> {
        Seq::new(
            self.batch_size() as nat,
            |j: int|
                Connect {
                    slot: j as usize,
                    service: self.services[self.next + j],
                    local_port: (FIRST_LOCAL_PORT + self.next + j) as u16,
                },
        )
    }

    /// The scan after a batch began at the time `now`.
    pub open spec fn begun(self, now: i64) -> ScannerState {
        let k = self.batch_size();
        ScannerState {
            services: self.services,
            next: self.next + k,
            slots: Seq::new(
                SLOTS as nat,
                |j: int|
                    if j < k {
                        Some(Slot { stamp: now, index: (self.next + j) as usize, probed: false })
                    } else {
                        self.slots[j]
                    },
            ),
            open: self.open,
            batches: if k > 0 {
                self.batches + 1
            } else {
                self.batches
            },
        }
    }

    /// The socket that slot `slot` watches, if it watches one.
    pub open spec fn watched(self, slot: usize) -> Option<Slot> {
        if slot < self.slots.len() {
            self.slots[slot as int]
        } else {
            None
        }
    }

    /// The scan after the socket in `slot` was let go, its port marked open or not.
    pub open spec fn released(self, slot: usize, is_open: bool) -> ScannerState {
        match self.watched(slot) {
            Some(x) => ScannerState {
                services: self.services,
                next: self.next,
                slots: self.slots.update(slot as int, None),
                open: if is_open {
                    self.open.update(x.index as int, true)
                } else {
                    self.open
                },
                batches: self.batches,
            },
            None => self,
        }
    }

    /// The scan after the probe of the socket in `slot` was sent.
    pub open spec fn probed(self, slot: usize) -> ScannerState {
        match self.watched(slot) {
            Some(x) => ScannerState {
                services: self.services,
                next: self.next,
                slots: self.slots.update(
                    slot as int,
                    Some(Slot { stamp: x.stamp, index: x.index, probed: true }),
                ),
                open: self.open,
                batches: self.batches,
            },
            None => self,
        }
    }

    /// Whether the time of the socket in `slot` is up at `now`.
    pub open spec fn timed_out(self, slot: usize, now: i64) -> bool {
        self.watched(slot) matches Some(x) && more_than_since(SOCKET_TIMEOUT, now, x.stamp)
    }

    /// What to do with the socket in `slot` of a connect scan: an established connection is
    /// closed in good order if it still takes data, else aborted; a socket whose time is up is
    /// aborted; any other is kept.
    pub open spec fn connect_action(self, slot: usize, now: i64, established: bool, can_send: bool) -> SlotAction {
        if self.watched(slot) is None {
            SlotAction::Keep
        } else if established {
            if can_send {
                SlotAction::Close
            } else {
                SlotAction::Abort
            }
        } else if self.timed_out(slot, now) {
            SlotAction::Abort
        } else {
            SlotAction::Keep
        }
    }

    /// The connect scan after a look at the socket in `slot`: an established connection marks
    /// its port open and frees the slot; a socket whose time is up frees the slot.
    pub open spec fn connect_seen(self, slot: usize, now: i64, established: bool) -> ScannerState {
        if established {
            self.released(slot, true)
        } else if self.timed_out(slot, now) {
            self.released(slot, false)
        } else {
            self
        }
    }

    /// Whether a look at the socket in `slot` of a datagram scan sends its probe: the socket
    /// takes a datagram and its probe has not been sent.
    pub open spec fn probe_due(self, slot: usize, can_send: bool) -> bool {
        self.watched(slot) matches Some(x) && can_send && !x.probed
    }

    /// The datagram scan after a look at the socket in `slot`: a socket that has received
    /// anything marks its port open and frees the slot; a socket whose time is up frees the
    /// slot; of any other the probe is sent if it is due.
    pub open spec fn datagram_seen(self, slot: usize, now: i64, can_send: bool, can_recv: bool) -> ScannerState {
        if can_recv {
            self.released(slot, true)
        } else if self.timed_out(slot, now) {
            self.released(slot, false)
        } else if self.probe_due(slot, can_send) {
            self.probed(slot)
        } else {
            self
        }
    }

    /// The services that are marked open among the first `n` of the table, in table order.
    pub open spec fn listed(self, n: int) -> Seq<Service>
        decreases n,
    {
        if n <= 0 {
            Seq::empty()
        } else if self.open[n - 1] {
            self.listed(n - 1).push(self.services[n - 1])
        } else {
            self.listed(n - 1)
        }
    }

    /// The services that are marked open, in table order.
    pub open spec fn open_services(self) -> Seq<Service> {
        self.listed(self.services.len() as int)
    }
}

/// A scan of one neighbor.
pub struct PortScanner {
    services: Vec<Service>,
    next: usize,
    slots: Vec<Option<Slot>>,
    open: Vec<bool>,
    batches: usize,
}

impl View for PortScanner {
    type V = ScannerState;

    closed spec fn view(&self) -> ScannerState {
        ScannerState {
            services: self.services@,
            next: self.next as int,
            slots: self.slots@,
            open: self.open@,
            batches: self.batches as int,
        }
    }
}

impl PortScanner {
    /// A scan that has not begun: no service had its socket, and no port is marked open.
    pub fn new(services: Vec<Service>) -> (r: Self)
        requires
            services@.len() <= MAX_SERVICES,
        ensures
            r@.wf(),
            r@.idle(),
            r@.services == services@,
            r@.next == 0,
            r@.batches == 0,
            forall|i: int| 0 <= i < r@.open.len() ==> !r@.open[i],
    {
        let mut slots: Vec<Option<Slot>> = Vec::new();
        while slots.len() < SLOTS
            invariant
                slots@.len() <= SLOTS,
                forall|j: int| 0 <= j < slots@.len() ==> slots@[j] is None,
            decreases SLOTS - slots@.len(),
        {
            slots.push(None);
        }
        let mut open: Vec<bool> = Vec::new();
        while open.len() < services.len()
            invariant
                open@.len() <= services@.len(),
                forall|i: int| 0 <= i < open@.len() ==> !open@[i],
            decreases services@.len() - open@.len(),
        {
            open.push(false);
        }
        PortScanner { services, next: 0, slots, open, batches: 0 }
    }

    /// Whether no socket is being watched.
    pub fn is_idle(&self) -> (r: bool)
        requires
            self@.wf(),
        ensures
            r == self@.idle(),
    {
        let mut j: usize = 0;
        while j < SLOTS
            invariant
                j <= SLOTS,
                self.slots@.len() == SLOTS,
                forall|k: int| 0 <= k < j ==> self.slots@[k] is None,
            decreases SLOTS - j,
        {
            if self.slots[j].is_some() {
                return false;
            }
            j += 1;
        }
        true
    }

    /// Whether the scan is over.
    pub fn is_done(&self) -> (r: bool)
        requires
            self@.wf(),
        ensures
            r == self@.done(),
    {
        self.next == self.services.len() && self.is_idle()
    }

    /// The number of batches begun.
    pub fn batches(&self) -> (r: usize)
        ensures
            r == self@.batches,
    {
        self.batches
    }

    /// The socket that a slot watches, if it watches one.
    pub fn slot(&self, slot: usize) -> (r: Option<Slot>)
        requires
            self@.wf(),
        ensures
            r == self@.watched(slot),
    {
        if slot < self.slots.len() {
            self.slots[slot]
        } else {
            None
        }
    }

    /// Begins the next batch at the time `now` and gives the sockets to open. While sockets
    /// are being watched, and when no service is left, there is no batch to begin.
    pub fn start_batch(&mut self, now: i64) -> (r: Vec<Connect>)
        requires
            old(self)@.wf(),
        ensures
            final(self)@.wf(),
            final(self)@ == old(self)@.begun(now),
            r@ == old(self)@.batch(),
    {
        let mut connects: Vec<Connect> = Vec::new();
        if !self.is_idle() {
            assert(self@.begun(now).slots =~= self@.slots);
            assert(connects@ =~= self@.batch());
            return connects;
        }
        let ghost before = self@;
        let first = self.next;
        let left = self.services.len() - self.next;
        let k: usize = if left < SLOTS {
            left
        } else {
            SLOTS
        };
        let mut j: usize = 0;
        while j < k
            invariant
                j <= k <= SLOTS,
                before.wf(),
                before.idle(),
                k == before.batch_size(),
                first == before.next,
                first + k <= self.services@.len(),
                self.services@ == before.services,
                self.open@ == before.open,
                self.batches as int == before.batches,
                self.next == first + j,
                self.slots@.len() == SLOTS,
                forall|i: int|
                    0 <= i < SLOTS ==> #[trigger] self.slots@[i] == if i < j {
                        Some(Slot { stamp: now, index: (first + i) as usize, probed: false })
                    } else {
                        before.slots[i]
                    },
                connects@.len() == j,
                forall|i: int| 0 <= i < j ==> #[trigger] connects@[i] == before.batch()[i],
            decreases k - j,
        {
            self.slots.set(j, Some(Slot { stamp: now, index: first + j, probed: false }));
            connects.push(
                Connect {
                    slot: j,
                    service: self.services[first + j],
                    local_port: FIRST_LOCAL_PORT + (first + j) as u16,
                },
            );
            self.next = self.next + 1;
            j += 1;
        }
        if k > 0 {
            self.batches = self.batches + 1;
        }
        assert(self@.slots =~= before.begun(now).slots);
        assert(connects@ =~= before.batch());
        connects
    }
}

impl PortScanner {
    /// Lets the socket in `slot` go, its port marked open or not.
    fn release(&mut self, slot: usize, is_open: bool)
        requires
            old(self)@.wf(),
        ensures
            final(self)@.wf(),
            final(self)@ == old(self)@.released(slot, is_open),
    {
        if slot < self.slots.len() {
            if let Some(x) = self.slots[slot] {
                if is_open {
                    self.open.set(x.index, true);
                }
                self.slots.set(slot, None);
            }
        }
    }

    /// Looks at the socket in `slot` of a connect scan at the time `now`. `established` and
    /// `can_send` say whether its connection stands and whether it takes data.
    pub fn observe_tcp(&mut self, slot: usize, now: i64, established: bool, can_send: bool) -> (r:
        SlotAction)
        requires
            old(self)@.wf(),
        ensures
            final(self)@.wf(),
            final(self)@ == old(self)@.connect_seen(slot, now, established),
            r == old(self)@.connect_action(slot, now, established, can_send),
    {
        let watched = match self.slot(slot) {
            Some(x) => x,
            None => {
                return SlotAction::Keep;
            },
        };
        if established {
            self.release(slot, true);
            if can_send {
                SlotAction::Close
            } else {
                SlotAction::Abort
            }
        } else if is_more_than_since(SOCKET_TIMEOUT, now, watched.stamp) {
            self.release(slot, false);
            SlotAction::Abort
        } else {
            SlotAction::Keep
        }
    }

    /// Looks at the socket in `slot` of a datagram scan at the time `now`. `can_send` and
    /// `can_recv` say whether it takes a datagram and whether it has received one. Returns
    /// whether to send the socket's probe.
    pub fn observe_udp(&mut self, slot: usize, now: i64, can_send: bool, can_recv: bool) -> (probe:
        bool)
        requires
            old(self)@.wf(),
        ensures
            final(self)@.wf(),
            final(self)@ == old(self)@.datagram_seen(slot, now, can_send, can_recv),
            probe == old(self)@.probe_due(slot, can_send),
    {
        let watched = match self.slot(slot) {
            Some(x) => x,
            None => {
                return false;
            },
        };
        let probe = can_send && !watched.probed;
        if can_recv {
            self.release(slot, true);
        } else if is_more_than_since(SOCKET_TIMEOUT, now, watched.stamp) {
            self.release(slot, false);
        } else if probe {
            self.slots.set(
                slot,
                Some(Slot { stamp: watched.stamp, index: watched.index, probed: true }),
            );
        }
        probe
    }

    /// The services whose ports were seen open, in the order of the table.
    pub fn open_services(&self) -> (r: Vec<Service>)
        requires
            self@.wf(),
        ensures
            r@ == self@.open_services(),
    {
        let mut found: Vec<Service> = Vec::new();
        let n = self.services.len();
        let mut i: usize = 0;
        while i < n
            invariant
                i <= n,
                n == self.services@.len(),
                self.open@.len() == n,
                found@ == self@.listed(i as int),
            decreases n - i,
        {
            if self.open[i] {
                found.push(self.services[i]);
            }
            i += 1;
        }
        found
    }
}

impl PortScanner {
    /// Makes the scan ready for another neighbor, once it is over: no service had its socket,
    /// and no port is marked open.
    fn restart(&mut self)
        requires
            old(self)@.wf(),
            old(self)@.idle(),
        ensures
            final(self)@.wf(),
            final(self)@.idle(),
            final(self)@.services == old(self)@.services,
            final(self)@.next == 0,
            final(self)@.batches == 0,
            forall|i: int| 0 <= i < final(self)@.open.len() ==> !final(self)@.open[i],
    {
        let n = self.open.len();
        let mut i: usize = 0;
        while i < n
            invariant
                i <= n,
                n == self.open@.len(),
                self.services@ == old(self).services@,
                self.slots@ == old(self).slots@,
                self.next == old(self).next,
                self.batches == old(self).batches,
                forall|k: int| 0 <= k < i ==> !self.open@[k],
            decreases n - i,
        {
            self.open.set(i, false);
            i += 1;
        }
        self.next = 0;
        self.batches = 0;
    }
}

/// A scan of all neighbors, one after the other, as mathematical values.
pub struct SweepState {
    /// The addresses of the neighbors, in the order in which they are scanned.
    pub targets: Seq<Ipv4Addr>,
    /// The number of neighbors whose scan is over and entered in the results.
    pub current: int,
    /// The scan of the neighbor whose turn it is.
    pub scanner: ScannerState,
    /// The results so far.
    pub results: Seq<PortScan>,
}

impl SweepState {
    /// There is one result for each neighbor whose scan is over, under its address.
    pub open spec fn wf(self) -> bool {
        &&& self.scanner.wf()
        &&& 0 <= self.current <= self.targets.len()
        &&& self.results.len() == self.current
        &&& forall|i: int|
            0 <= i < self.results.len() ==> (#[trigger] self.results[i]).0 == self.targets[i]
    }

    /// Every neighbor is scanned.
    pub open spec fn finished(self) -> bool {
        self.current == self.targets.len()
    }
}

/// A scan of all neighbors, one after the other.
pub struct Sweep {
    targets: Vec<Ipv4Addr>,
    current: usize,
    scanner: PortScanner,
    results: Vec<PortScan>,
}

impl View for Sweep {
    type V = SweepState;

    closed spec fn view(&self) -> SweepState {
        SweepState {
            targets: self.targets@,
            current: self.current as int,
            scanner: self.scanner@,
            results: self.results@,
        }
    }
}

/// The addresses of the entries of a table, in order.
pub open spec fn addresses<V>(entries: Seq<(Ipv4Addr, V)>) -> Seq<Ipv4Addr> {
    Seq::new(entries.len(), |i: int| entries[i].0)
}

/// What the next turn of a sweep is.
pub enum Turn {
    /// Open these sockets towards the neighbor, then watch them until none is left. An empty
    /// batch asks for nothing but the next turn.
    Batch(Ipv4Addr, Vec<Connect>),
    /// Every neighbor is scanned.
    Finished,
}

impl Sweep {
    /// A sweep over the neighbors of a table, in rising order of their addresses, with the
    /// service table `services`.
    pub fn new(addrs: &AddrMap<EthernetAddress>, services: Vec<Service>) -> (r: Self)
        requires
            services@.len() <= MAX_SERVICES,
        ensures
            r@.wf(),
            r@.targets == addresses(addrs@),
            r@.current == 0,
            r@.scanner.idle(),
            r@.scanner.services == services@,
            r@.scanner.next == 0,
            r@.scanner.batches == 0,
            r@.results.len() == 0,
            forall|i: int| 0 <= i < r@.scanner.open.len() ==> !r@.scanner.open[i],
    {
        let mut targets: Vec<Ipv4Addr> = Vec::new();
        let all = addrs.entries();
        let n = addrs.len();
        let mut i: usize = 0;
        while i < n
            invariant
                i <= n,
                n == addrs@.len(),
                all@ == addrs@,
                targets@.len() == i,
                forall|k: int| 0 <= k < i ==> targets@[k] == addrs@[k].0,
            decreases n - i,
        {
            targets.push(all[i].0);
            i += 1;
        }
        assert(targets@ =~= addresses(addrs@));
        Sweep { targets, current: 0, scanner: PortScanner::new(services), results: Vec::new() }
    }

    /// Whether no socket is being watched.
    pub fn is_idle(&self) -> (r: bool)
        requires
            self@.wf(),
        ensures
            r == self@.scanner.idle(),
    {
        self.scanner.is_idle()
    }

    /// The next turn of the sweep at the time `now`. While sockets are being watched the
    /// batch is empty. When the scan of a neighbor is over, its result is entered and the
    /// turn goes to the next neighbor, with an empty batch; else the next batch of the
    /// neighbor's scan begins.
    pub fn next_turn(&mut self, now: i64) -> (r: Turn)
        requires
            old(self)@.wf(),
        ensures
            final(self)@.wf(),
            final(self)@.targets == old(self)@.targets,
            final(self)@.scanner.services == old(self)@.scanner.services,
            old(self)@.finished() ==> r is Finished && final(self)@ == old(self)@,
            !old(self)@.finished() ==> r is Batch,
            r matches Turn::Batch(addr, batch) ==> addr == old(self)@.targets[old(
                self,
            )@.current] && if old(self)@.scanner.done() {
                &&& batch@.len() == 0
                &&& final(self)@.current == old(self)@.current + 1
                &&& final(self)@.results.drop_last() == old(self)@.results
                &&& final(self)@.results.last().0 == addr
                &&& final(self)@.results.last().1@ == old(self)@.scanner.open_services()
                &&& final(self)@.scanner.idle()
                &&& final(self)@.scanner.next == 0
                &&& final(self)@.scanner.batches == 0
                &&& forall|i: int|
                    0 <= i < final(self)@.scanner.open.len() ==> !final(self)@.scanner.open[i]
            } else {
                &&& batch@ == old(self)@.scanner.batch()
                &&& final(self)@.current == old(self)@.current
                &&& final(self)@.results == old(self)@.results
                &&& final(self)@.scanner == old(self)@.scanner.begun(now)
            },
    {
        if self.current == self.targets.len() {
            return Turn::Finished;
        }
        let addr = self.targets[self.current];
        if self.scanner.is_done() {
            let found = self.scanner.open_services();
            self.results.push(PortScan(addr, found));
            self.current = self.current + 1;
            self.scanner.restart();
            assert(self@.results.drop_last() =~= old(self)@.results);
            Turn::Batch(addr, Vec::new())
        } else {
            Turn::Batch(addr, self.scanner.start_batch(now))
        }
    }

    /// Looks at the socket in `slot` of a connect scan; see [`PortScanner::observe_tcp`].
    pub fn observe_tcp(&mut self, slot: usize, now: i64, established: bool, can_send: bool) -> (r:
        SlotAction)
        requires
            old(self)@.wf(),
        ensures
            final(self)@.wf(),
            final(self)@.targets == old(self)@.targets,
            final(self)@.current == old(self)@.current,
            final(self)@.results == old(self)@.results,
            final(self)@.scanner == old(self)@.scanner.connect_seen(slot, now, established),
            r == old(self)@.scanner.connect_action(slot, now, established, can_send),
    {
        self.scanner.observe_tcp(slot, now, established, can_send)
    }

    /// Looks at the socket in `slot` of a datagram scan; see [`PortScanner::observe_udp`].
    pub fn observe_udp(&mut self, slot: usize, now: i64, can_send: bool, can_recv: bool) -> (probe:
        bool)
        requires
            old(self)@.wf(),
        ensures
            final(self)@.wf(),
            final(self)@.targets == old(self)@.targets,
            final(self)@.current == old(self)@.current,
            final(self)@.results == old(self)@.results,
            final(self)@.scanner == old(self)@.scanner.datagram_seen(slot, now, can_send, can_recv),
            probe == old(self)@.scanner.probe_due(slot, can_send),
    {
        self.scanner.observe_udp(slot, now, can_send, can_recv)
    }

    /// The number of batches begun for the neighbor whose turn it is.
    pub fn batches(&self) -> (r: usize)
        ensures
            r == self@.scanner.batches,
    {
        self.scanner.batches()
    }

    /// The results: one for each neighbor whose scan is over, in the order of the neighbors.
    pub fn into_results(self) -> (r: PortScans)
        requires
            self@.wf(),
        ensures
            r@ == self@.results,
            r@.len() == self@.current,
            forall|i: int| 0 <= i < r@.len() ==> (#[trigger] r@[i]).0 == self@.targets[i],
    {
        self.results
    }
}

/// The line of a service: four blanks, the port number, and the name in parentheses.
pub open spec fn service_line(service: Service) -> Seq<char> {
    "    "@ + decimal(service.0 as nat) + " ("@ + service.1@ + ")"@
}

/// The lines of a neighbor's scan: its address and a colon, then the lines of its open
/// services, or one line that says that there are none.
pub open spec fn scan_lines(scan: PortScan) -> Seq<Seq<char>> {
    seq![ipv4_text(scan.0) + ":"@] + if scan.1@.len() == 0 {
        seq!["    No open ports found"@]
    } else {
        scan.1.lines()
    }
}

/// The lines of the first `n` scans, one scan after the other.
pub open spec fn scans_lines(scans: Seq<PortScan>, n: int) -> Seq<Seq<char>>
    decreases n,
{
    if n <= 0 {
        Seq::empty()
    } else {
        scans_lines(scans, n - 1) + scan_lines(scans[n - 1])
    }
}

impl StringableVec for Vec<Service> {
    /// One line per service.
    open spec fn lines(&self) -> Seq<Seq<char>> {
        Seq::new(self@.len(), |i: int| service_line(self@[i]))
    }

    fn to_string_vec(&self) -> (v: Vec<String>) {
        let mut v: Vec<String> = Vec::new();
        let n = self.len();
        let mut i: usize = 0;
        while i < n
            invariant
                i <= n,
                n == self@.len(),
                v@.len() == i,
                forall|k: int| 0 <= k < i ==> (#[trigger] v@[k])@ == self.lines()[k],
            decreases n - i,
        {
            let service = self[i];
            let mut line = String::from_str("    ");
            push_decimal(&mut line, service.0 as u64);
            line.append(" (");
            line.append(service.1);
            line.append(")");
            v.push(line);
            i += 1;
        }
        v
    }
}

impl StringableVec for PortScans {
    /// The lines of every scan, one scan after the other.
    open spec fn lines(&self) -> Seq<Seq<char>> {
        scans_lines(self@, self@.len() as int)
    }

    fn to_string_vec(&self) -> (v: Vec<String>) {
        let mut v: Vec<String> = Vec::new();
        let n = self.len();
        let mut i: usize = 0;
        while i < n
            invariant
                i <= n,
                n == self@.len(),
                v@.len() == scans_lines(self@, i as int).len(),
                forall|k: int|
                    0 <= k < v@.len() ==> (#[trigger] v@[k])@ == scans_lines(self@, i as int)[k],
            decreases n - i,
        {
            let ghost before = v@;
            let mut head = String::new();
            push_ipv4(&mut head, self[i].0);
            head.append(":");
            assert(head@ =~= ipv4_text(self@[i as int].0) + ":"@);
            v.push(head);
            if self[i].1.len() == 0 {
                v.push(String::from_str("    No open ports found"));
            } else {
                let mut found = self[i].1.to_string_vec();
                v.append(&mut found);
            }
            proof {
                let added = scan_lines(self@[i as int]);
                assert(v@.len() == before.len() + added.len());
                assert forall|k: int| 0 <= k < v@.len() implies (#[trigger] v@[k])@ == scans_lines(
                    self@,
                    i + 1,
                )[k] by {
                    if k >= before.len() {
                        assert(v@[k]@ == added[k - before.len()]);
                    }
                }
            }
            i += 1;
        }
        v
    }
}

/// The number of ports marked open among the first `n` services.
pub open spec fn open_count(open: Seq<bool>, n: int) -> int
    decreases n,
{
    if n <= 0 {
        0
    } else if open[n - 1] {
        open_count(open, n - 1) + 1
    } else {
        open_count(open, n - 1)
    }
}

/// The list of open services holds the services that are marked open, and no others, each
/// once, in the order of the table: the service at position `i` of the table, if it is
/// marked, stands at the position that counts the marked ones before it.
pub proof fn lemma_listed_in_table_order(s: ScannerState, n: int)
    requires
        0 <= n <= s.services.len(),
        s.open.len() == s.services.len(),
    ensures
        s.listed(n).len() == open_count(s.open, n),
        forall|i: int|
            0 <= i < n && #[trigger] s.open[i] ==> 0 <= open_count(s.open, i) < s.listed(n).len()
                && s.listed(n)[open_count(s.open, i)] == s.services[i],
        forall|i: int| 0 <= i <= n ==> 0 <= #[trigger] open_count(s.open, i) <= open_count(s.open, n),
    decreases n,
{
    if n > 0 {
        lemma_listed_in_table_order(s, n - 1);
        let before = s.listed(n - 1);
        assert forall|i: int| 0 <= i <= n implies 0 <= #[trigger] open_count(s.open, i)
            <= open_count(s.open, n) by {
            if i < n {
                assert(open_count(s.open, i) <= open_count(s.open, n - 1));
            }
        }
        assert forall|i: int| 0 <= i < n && #[trigger] s.open[i] implies 0 <= open_count(
            s.open,
            i,
        ) < s.listed(n).len() && s.listed(n)[open_count(s.open, i)] == s.services[i] by {
            if i < n - 1 {
                assert(before[open_count(s.open, i)] == s.services[i]);
            } else {
                assert(open_count(s.open, n - 1) == before.len());
                assert(s.listed(n) == before.push(s.services[n - 1]));
            }
        }
    }
}

/// Whether slot `j` watches the socket of the service at position `i` of the table.
pub open spec fn watches(s: ScannerState, j: int, i: int) -> bool {
    0 <= j < s.slots.len() && s.slots[j] is Some && s.slots[j].unwrap().index == i
}

/// A scan agrees with a target of which `accepts` tells, for each position of the table,
/// whether the port of the service there is open: no port is marked open that is not, and of
/// the services that had their socket, each open one is marked or still watched.
pub open spec fn agrees(s: ScannerState, accepts: spec_fn(int) -> bool) -> bool {
    &&& forall|i: int| 0 <= i < s.open.len() && #[trigger] s.open[i] ==> accepts(i)
    &&& forall|i: int|
        0 <= i < s.next && #[trigger] accepts(i) ==> s.open[i] || exists|j: int|
            #[trigger] watches(s, j, i)
}

/// A scan that has not begun agrees with every target.
pub proof fn lemma_fresh_agrees(s: ScannerState, accepts: spec_fn(int) -> bool)
    requires
        s.wf(),
        s.next == 0,
        forall|i: int| 0 <= i < s.open.len() ==> !s.open[i],
    ensures
        agrees(s, accepts),
{
}

/// Beginning a batch keeps a scan well-formed and in agreement with the target.
pub proof fn lemma_begun_agrees(s: ScannerState, now: i64, accepts: spec_fn(int) -> bool)
    requires
        s.wf(),
        agrees(s, accepts),
    ensures
        s.begun(now).wf(),
        agrees(s.begun(now), accepts),
{
    let t = s.begun(now);
    let k = s.batch_size();
    assert forall|i: int| 0 <= i < t.next && #[trigger] accepts(i) implies t.open[i] || exists|
        j: int,
    |
        #[trigger] watches(t, j, i) by {
        if i < s.next {
            if !s.open[i] {
                let j = choose|j: int|
                    #[trigger] watches(s, j, i);
                assert(s.slots[j] is Some);
                assert(!s.idle());
                assert(t.slots[j] == s.slots[j]);
                assert(watches(t, j, i));
            }
        } else {
            let j = i - s.next;
            assert(t.slots[j] == Some(Slot { stamp: now, index: i as usize, probed: false }));
            assert(watches(t, j, i));
        }
    }
}

/// A look at a socket of a connect scan keeps the scan well-formed and in agreement with the
/// target, as long as only a connection to an open port is seen established, and only a socket
/// to a port that is not open is let go for its time being up. A look at an open port before
/// its connection stands changes nothing.
pub proof fn lemma_connect_seen_agrees(
    s: ScannerState,
    slot: usize,
    now: i64,
    established: bool,
    accepts: spec_fn(int) -> bool,
)
    requires
        s.wf(),
        agrees(s, accepts),
        s.watched(slot) is Some && established ==> accepts(s.watched(slot).unwrap().index as int),
        s.watched(slot) is Some && !established && s.timed_out(slot, now) ==> !accepts(
            s.watched(slot).unwrap().index as int,
        ),
    ensures
        s.connect_seen(slot, now, established).wf(),
        agrees(s.connect_seen(slot, now, established), accepts),
{
    if established {
        lemma_released_agrees(s, slot, true, accepts);
    } else if s.timed_out(slot, now) {
        lemma_released_agrees(s, slot, false, accepts);
    }
}

/// A look at a socket of a datagram scan keeps the scan well-formed and in agreement with the
/// target, as long as only a socket to an open port is seen to have received something, and
/// only a socket to a port that is not open is let go for its time being up.
pub proof fn lemma_datagram_seen_agrees(
    s: ScannerState,
    slot: usize,
    now: i64,
    can_send: bool,
    can_recv: bool,
    accepts: spec_fn(int) -> bool,
)
    requires
        s.wf(),
        agrees(s, accepts),
        s.watched(slot) is Some && can_recv ==> accepts(s.watched(slot).unwrap().index as int),
        s.watched(slot) is Some && !can_recv && s.timed_out(slot, now) ==> !accepts(
            s.watched(slot).unwrap().index as int,
        ),
    ensures
        s.datagram_seen(slot, now, can_send, can_recv).wf(),
        agrees(s.datagram_seen(slot, now, can_send, can_recv), accepts),
{
    if can_recv {
        lemma_released_agrees(s, slot, true, accepts);
    } else if s.timed_out(slot, now) {
        lemma_released_agrees(s, slot, false, accepts);
    } else if s.watched(slot) is Some {
        let t = s.probed(slot);
        let w = s.watched(slot).unwrap();
        assert forall|i: int| 0 <= i < t.next && #[trigger] accepts(i) implies t.open[i]
            || exists|j: int| #[trigger] watches(t, j, i) by {
            if !s.open[i] {
                let j = choose|j: int| #[trigger] watches(s, j, i);
                if j == slot {
                    assert(t.slots[j] == Some(
                        Slot { stamp: w.stamp, index: w.index, probed: true },
                    ));
                } else {
                    assert(t.slots[j] == s.slots[j]);
                }
                assert(watches(t, j, i));
            }
        }
    }
}

/// Letting a socket go keeps a scan well-formed and in agreement with the target, as long as
/// its port is marked open only if it is open, and left unmarked only if it is not.
pub proof fn lemma_released_agrees(
    s: ScannerState,
    slot: usize,
    is_open: bool,
    accepts: spec_fn(int) -> bool,
)
    requires
        s.wf(),
        agrees(s, accepts),
        s.watched(slot) is Some ==> is_open == accepts(s.watched(slot).unwrap().index as int),
    ensures
        s.released(slot, is_open).wf(),
        agrees(s.released(slot, is_open), accepts),
{
    if s.watched(slot) is Some {
        let w = s.watched(slot).unwrap();
        let t = s.released(slot, is_open);
        assert(s.slots[slot as int] == Some(w));
        assert forall|i: int| 0 <= i < t.next && #[trigger] accepts(i) implies t.open[i]
            || exists|j: int| #[trigger] watches(t, j, i) by {
            if i == w.index {
            } else if !s.open[i] {
                let j = choose|j: int| #[trigger] watches(s, j, i);
                assert(j != slot);
                assert(t.slots[j] == s.slots[j]);
                assert(watches(t, j, i));
            }
        }
    }
}

/// When a scan that agrees with the target is over, exactly the open ports are marked, so
/// that the list of open services holds exactly the services with open ports, in the order of
/// the table, however many batches the table took.
pub proof fn lemma_done_lists_open_ports(s: ScannerState, accepts: spec_fn(int) -> bool)
    requires
        s.wf(),
        agrees(s, accepts),
        s.done(),
    ensures
        forall|i: int| 0 <= i < s.services.len() ==> #[trigger] s.open[i] == accepts(i),
        s.open_services().len() == open_count(s.open, s.services.len() as int),
        forall|i: int|
            0 <= i < s.services.len() && #[trigger] accepts(i) ==> 0 <= open_count(s.open, i)
                < s.open_services().len() && s.open_services()[open_count(s.open, i)]
                == s.services[i],
{
    assert forall|i: int| 0 <= i < s.services.len() implies #[trigger] s.open[i] == accepts(i) by {
        if accepts(i) && !s.open[i] {
            let j = choose|j: int|
                #[trigger] watches(s, j, i);
            assert(s.slots[j] is None);
        }
    }
    lemma_listed_in_table_order(s, s.services.len() as int);
}

/// Whether position `p` of the list of the first `n` services holds the service at position
/// `i` of the table: that service is marked open, and `p` counts the marked ones before it.
pub open spec fn listed_from(s: ScannerState, n: int, p: int, i: int) -> bool {
    0 <= i < n && s.open[i] && open_count(s.open, i) == p && s.listed(n)[p] == s.services[i]
}

/// Whether position `p` of the list of the first `n` services holds a service of the table.
pub open spec fn has_origin(s: ScannerState, n: int, p: int) -> bool {
    exists|i: int| #[trigger] listed_from(s, n, p, i)
}

/// The list of open services is a selection from the table that keeps the table's order:
/// every entry of the list is a service that is marked open, two marked services stand in the
/// list as they stand in the table, and none stands there twice.
pub proof fn lemma_open_services_keep_order(s: ScannerState)
    requires
        s.open.len() == s.services.len(),
    ensures
        forall|p: int|
            0 <= p < s.open_services().len() ==> #[trigger] has_origin(
                s,
                s.services.len() as int,
                p,
            ),
        forall|i: int, j: int|
            0 <= i < j < s.services.len() && s.open[i] && s.open[j] ==> #[trigger] open_count(
                s.open,
                i,
            ) < #[trigger] open_count(s.open, j),
{
    let n = s.services.len() as int;
    lemma_listed_in_table_order(s, n);
    assert forall|i: int, j: int|
        0 <= i < j < n && s.open[i] && s.open[j] implies #[trigger] open_count(s.open, i)
        < #[trigger] open_count(s.open, j) by {
        lemma_listed_in_table_order(s, j);
        assert(open_count(s.open, i + 1) == open_count(s.open, i) + 1);
        assert(open_count(s.open, i + 1) <= open_count(s.open, j));
    }
    assert forall|p: int| 0 <= p < s.open_services().len() implies #[trigger] has_origin(
        s,
        n,
        p,
    ) by {
        lemma_listed_origin(s, n, p);
    }
}

/// Every entry of the list of the first `n` services comes from a marked service among them.
proof fn lemma_listed_origin(s: ScannerState, n: int, p: int)
    requires
        0 <= n <= s.services.len(),
        s.open.len() == s.services.len(),
        0 <= p < s.listed(n).len(),
    ensures
        exists|i: int| #[trigger] listed_from(s, n, p, i),
    decreases n,
{
    lemma_listed_in_table_order(s, n);
    if n > 0 {
        lemma_listed_in_table_order(s, n - 1);
        if p < s.listed(n - 1).len() {
            lemma_listed_origin(s, n - 1, p);
            let i = choose|i: int| #[trigger] listed_from(s, n - 1, p, i);
            assert(s.listed(n)[p] == s.services[i]);
            assert(listed_from(s, n, p, i));
        } else {
            assert(s.open[n - 1]);
            assert(s.listed(n)[p] == s.services[n - 1]);
            assert(listed_from(s, n, p, n - 1));
        }
    }
}

} // verus!
