//! The announcements that are repeated while an interception is switched on.
use vstd::prelude::*;
use super::addr::EthernetAddress;
use super::arp::{
    arp_broadcast, attack_gateway_v4_reply, attack_gateway_v4_request, attack_network_v4_reply,
    attack_network_v4_request, claim_by_reply, claim_by_request, ArpResponses,
};
use super::cidr::Ipv4Addr;

verus! {

/// The number of clock ticks that make one interval.
pub const TICKS_PER_INTERVAL: usize = 100;

/// The number of intervals after which the announcements are repeated.
pub const INTERVALS_PER_ROUND: usize = 10;

/// Which interceptions are switched on, as mathematical values.
pub struct AttackFields {
    /// Whether the gateway's address is claimed.
    pub gateway_active: bool,
    /// Whether every neighbor's address is claimed.
    pub network_active: bool,
    /// The gateway's address, if it is known.
    pub gateway: Option<Ipv4Addr>,
    /// The number of intervals since the last round.
    pub interval_count: usize,
}

/// Which interceptions are switched on, and when their announcements were last sent.
pub struct AttackState {
    gateway_active: bool,
    network_active: bool,
    gateway: Option<Ipv4Addr>,
    interval_count: usize,
}

impl View for AttackState {
    type V = AttackFields;

    closed spec fn view(&self) -> AttackFields {
        AttackFields {
            gateway_active: self.gateway_active,
            network_active: self.network_active,
            gateway: self.gateway,
            interval_count: self.interval_count,
        }
    }
}

/// What a round asks for: three groups of frames, each sent in order.
pub struct AttackRound {
    /// The frames that claim the gateway's address.
    pub gateway: Vec<Vec<u8>>,
    /// The requests that claim the neighbors' addresses.
    pub network_requests: Vec<Vec<u8>>,
    /// The unasked replies that claim the neighbors' addresses.
    pub network_replies: Vec<Vec<u8>>,
    /// Whether the claim on the neighbors was switched off for want of neighbors.
    pub network_attack_stopped: bool,
}

/// The number of intervals since the last round once the clock shows `ticks`: one more at
/// each full interval of the clock.
pub open spec fn intervals_at(f: AttackFields, ticks: usize) -> int {
    if ticks % TICKS_PER_INTERVAL == 0 {
        f.interval_count + 1
    } else {
        f.interval_count as int
    }
}

/// Whether a round is due once the clock shows `ticks`.
pub open spec fn round_due(f: AttackFields, ticks: usize) -> bool {
    intervals_at(f, ticks) >= INTERVALS_PER_ROUND
}

/// The frames that claim the gateway's address: a request and an unasked reply, where the
/// claim is switched on and the gateway is known.
pub open spec fn gateway_frames(f: AttackFields, own: Seq<u8>) -> Seq<Seq<u8>> {
    if f.gateway_active && f.gateway is Some {
        seq![
            arp_broadcast(own, claim_by_request(own, f.gateway.unwrap())),
            arp_broadcast(own, claim_by_reply(own, f.gateway.unwrap())),
        ]
    } else {
        Seq::empty()
    }
}

/// The requests that claim the neighbors' addresses, one for each neighbor in rising order
/// of the addresses, where the claim is switched on.
pub open spec fn network_request_frames(
    f: AttackFields,
    own: Seq<u8>,
    neighbors: Seq<(Ipv4Addr, EthernetAddress)>,
) -> Seq<Seq<u8>> {
    if f.network_active {
        Seq::new(
            neighbors.len(),
            |i: int| arp_broadcast(own, claim_by_request(own, neighbors[i].0)),
        )
    } else {
        Seq::empty()
    }
}

/// The unasked replies that claim the neighbors' addresses, one for each neighbor in rising
/// order of the addresses, where the claim is switched on.
pub open spec fn network_reply_frames(
    f: AttackFields,
    own: Seq<u8>,
    neighbors: Seq<(Ipv4Addr, EthernetAddress)>,
) -> Seq<Seq<u8>> {
    if f.network_active {
        Seq::new(neighbors.len(), |i: int| arp_broadcast(own, claim_by_reply(own, neighbors[i].0)))
    } else {
        Seq::empty()
    }
}

/// Whether a list of frames holds exactly the given frames, in order.
pub open spec fn holds(frames: Seq<Vec<u8>>, expected: Seq<Seq<u8>>) -> bool {
    &&& frames.len() == expected.len()
    &&& forall|i: int| 0 <= i < frames.len() ==> (#[trigger] frames[i])@ == expected[i]
}

impl AttackState {
    #[verifier::type_invariant]
    spec fn counted(&self) -> bool {
        self.interval_count < usize::MAX
    }

    /// Nothing is switched on, no gateway is known, and the first round is due at once.
    pub fn new() -> (r: Self)
        ensures
            !r@.gateway_active,
            !r@.network_active,
            r@.gateway is None,
            r@.interval_count == usize::MAX - 1,
    {
        AttackState {
            gateway_active: false,
            network_active: false,
            gateway: None,
            interval_count: usize::MAX - 1,
        }
    }

    /// Takes note of the gateway's address, or of its being unknown.
    pub fn set_gateway(&mut self, gateway: Option<Ipv4Addr>)
        ensures
            final(self)@.gateway == gateway,
            final(self)@.gateway_active == old(self)@.gateway_active,
            final(self)@.network_active == old(self)@.network_active,
            final(self)@.interval_count == old(self)@.interval_count,
    {
        proof {
            use_type_invariant(&*self);
        }
        self.gateway = gateway;
    }

    /// Switches the claim on the gateway's address on if it is off, and off if it is on.
    /// Returns whether it is on now.
    pub fn toggle_gateway_attack(&mut self) -> (on: bool)
        ensures
            on == !old(self)@.gateway_active,
            final(self)@.gateway_active == on,
            final(self)@.network_active == old(self)@.network_active,
            final(self)@.gateway == old(self)@.gateway,
            final(self)@.interval_count == old(self)@.interval_count,
    {
        proof {
            use_type_invariant(&*self);
        }
        self.gateway_active = !self.gateway_active;
        self.gateway_active
    }

    /// Switches the claim on the neighbors' addresses on if it is off, and off if it is on.
    /// Returns whether it is on now.
    pub fn toggle_network_attack(&mut self) -> (on: bool)
        ensures
            on == !old(self)@.network_active,
            final(self)@.network_active == on,
            final(self)@.gateway_active == old(self)@.gateway_active,
            final(self)@.gateway == old(self)@.gateway,
            final(self)@.interval_count == old(self)@.interval_count,
    {
        proof {
            use_type_invariant(&*self);
        }
        self.network_active = !self.network_active;
        self.network_active
    }

    /// Whether the claim on the gateway's address is switched on.
    pub fn gateway_attack_active(&self) -> (r: bool)
        ensures
            r == self@.gateway_active,
    {
        self.gateway_active
    }

    /// Whether the claim on the neighbors' addresses is switched on.
    pub fn network_attack_active(&self) -> (r: bool)
        ensures
            r == self@.network_active,
    {
        self.network_active
    }

    /// Takes note of the clock and, when a round is due, gives its frames. A round is due
    /// when ten intervals have gone by since the last one; it starts the count anew. A round
    /// that finds the claim on the neighbors switched on and no neighbor switches it off.
    pub fn fire_attacks(&mut self, ticks: usize, eth_addr: &EthernetAddress, neighbors: &ArpResponses) -> (round:
        AttackRound)
        ensures
            final(self)@.gateway == old(self)@.gateway,
            final(self)@.gateway_active == old(self)@.gateway_active,
            !round_due(old(self)@, ticks) ==> {
                &&& round.gateway@.len() == 0
                &&& round.network_requests@.len() == 0
                &&& round.network_replies@.len() == 0
                &&& !round.network_attack_stopped
                &&& final(self)@.interval_count == intervals_at(old(self)@, ticks)
                &&& final(self)@.network_active == old(self)@.network_active
            },
            round_due(old(self)@, ticks) ==> {
                &&& final(self)@.interval_count == 0
                &&& round.network_attack_stopped == (old(self)@.network_active && neighbors@.len()
                    == 0)
                &&& final(self)@.network_active == (old(self)@.network_active && neighbors@.len()
                    > 0)
                &&& holds(round.gateway@, gateway_frames(old(self)@, eth_addr@))
                &&& holds(
                    round.network_requests@,
                    network_request_frames(old(self)@, eth_addr@, neighbors@),
                )
                &&& holds(
                    round.network_replies@,
                    network_reply_frames(old(self)@, eth_addr@, neighbors@),
                )
            },
    {
        proof {
            use_type_invariant(&*self);
        }
        let mut round = AttackRound {
            gateway: Vec::new(),
            network_requests: Vec::new(),
            network_replies: Vec::new(),
            network_attack_stopped: false,
        };
        let count = if ticks % TICKS_PER_INTERVAL == 0 {
            self.interval_count + 1
        } else {
            self.interval_count
        };
        if count < INTERVALS_PER_ROUND {
            self.interval_count = count;
            return round;
        }
        self.interval_count = 0;
        if self.gateway_active {
            if let Some(gateway) = self.gateway {
                round.gateway.push(attack_gateway_v4_request(eth_addr, gateway));
                round.gateway.push(attack_gateway_v4_reply(eth_addr, gateway));
            }
        }
        if self.network_active {
            if neighbors.is_empty() {
                self.network_active = false;
                round.network_attack_stopped = true;
            } else {
                round.network_requests = attack_network_v4_request(eth_addr, neighbors);
                round.network_replies = attack_network_v4_reply(eth_addr, neighbors);
            }
        }
        round
    }
}

} // verus!
