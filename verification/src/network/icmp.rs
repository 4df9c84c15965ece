//! Echo probing: whether a neighbor answers, and how long the answer takes.
use vstd::prelude::*;
use super::addr::EthernetAddress;
use super::cidr::Ipv4Addr;
use super::arp::ArpResponses;
use super::table::{int_of, shorter};
use super::text::{ipv4_text, make_paren_line, paren_line, push_ipv4, push_span, span_text, StringableVec};
use super::time::{add_millis, gap, is_more_than_since, later, millis_between, more_than_since};
use super::wire::{
    be_i64, be_i64_octets, echo_layout, echo_reply_ident_of, echo_request_of,
    emit_echo_request,
    lemma_be_i64_round_trip, parse_echo_reply, read_i64, write_i64, EchoReply,
};

verus! {

/// A neighbor that answered, and the round-trip time of the answer in milliseconds.
#[derive(Clone, Copy, Debug, PartialEq, Eq)]
pub struct IcmpResponse(pub Ipv4Addr, pub u64);

/// The neighbors that answered, in the order in which they were probed.
pub type IcmpResponses = Vec<IcmpResponse>;

/// The number of echo requests that a probe sends at most.
pub const ECHO_REQUESTS: u16 = 4;

/// The least span between two echo requests, in milliseconds.
pub const ECHO_SPACING: u16 = 10;

/// The span after which a probe that has sent all its requests gives up, in milliseconds.
pub const ECHO_TIMEOUT: u16 = 500;

/// The length of the data of an echo request.
pub const ECHO_DATA_LEN: usize = 40;

/// The longest packet that is read as an echo reply.
pub const ECHO_PACKET_MAX: usize = 0xFFFF;

/// The data of an echo request sent at `now`: the time in eight octets, then 32 octets `0xff`.
pub open spec fn echo_data(now: i64) -> Seq<u8> {
    be_i64_octets(now) + Seq::new(32, |i: int| 0xffu8)
}

/// Where a probe stands.
pub enum EchoVerdict {
    /// No answer yet: wait, poll and take the next step.
    Pending,
    /// An answer came after this many milliseconds.
    Reply(u64),
    /// All requests are sent and the time is up.
    NoReply,
}

/// What one step of a probe asks for.
pub struct EchoStep {
    /// The identifier to bind the endpoint to, if it is not bound yet.
    pub bind: Option<u16>,
    /// The echo request to send, if one is due.
    pub send: Option<Vec<u8>>,
    /// Where the probe stands after the step.
    pub verdict: EchoVerdict,
}

/// A probe of one address.
pub struct EchoProbe {
    ident: u16,
    start: i64,
    send_at: i64,
    seq_no: u16,
}

/// A probe as mathematical values.
pub struct EchoProbeState {
    /// The identifier that tells this probe's echoes from others.
    pub ident: u16,
    /// When the probe began.
    pub start: i64,
    /// When the next request is due.
    pub send_at: i64,
    /// The number of requests sent.
    pub seq_no: u16,
}

impl View for EchoProbe {
    type V = EchoProbeState;

    closed spec fn view(&self) -> EchoProbeState {
        EchoProbeState {
            ident: self.ident,
            start: self.start,
            send_at: self.send_at,
            seq_no: self.seq_no,
        }
    }
}

/// When the next request is due once the endpoint's state is known: now, if the endpoint has
/// yet to be bound.
pub open spec fn due_at(s: EchoProbeState, now: i64, is_open: bool) -> i64 {
    if is_open {
        s.send_at
    } else {
        now
    }
}

/// Whether a step sends a request: the endpoint takes one, fewer than four are sent, and the
/// next is due. After a request the next one is due a spacing later.
pub open spec fn sends(s: EchoProbeState, now: i64, is_open: bool, can_send: bool) -> bool {
    can_send && s.seq_no < ECHO_REQUESTS && due_at(s, now, is_open) <= now
}

/// The probe after a step.
pub open spec fn stepped(s: EchoProbeState, now: i64, is_open: bool, can_send: bool) -> EchoProbeState {
    if sends(s, now, is_open, can_send) {
        EchoProbeState {
            ident: s.ident,
            start: s.start,
            send_at: later(now, ECHO_SPACING),
            seq_no: (s.seq_no + 1) as u16,
        }
    } else {
        EchoProbeState {
            ident: s.ident,
            start: s.start,
            send_at: due_at(s, now, is_open),
            seq_no: s.seq_no,
        }
    }
}

/// Whether a reply answers the probe: it bears the probe's identifier and carries a time.
pub open spec fn answers(s: EchoProbeState, reply: Option<(u16, Seq<u8>)>) -> bool {
    reply matches Some(r) && r.0 == s.ident && r.1.len() >= 8
}

/// Where the probe stands after a step at `now` in which `reply` came in: a reply that
/// answers the probe ends it with the span between now and the time that the reply carries;
/// without one the probe ends once all four requests are sent and more than the timeout has
/// passed since its start.
pub open spec fn verdict_of(
    s: EchoProbeState,
    now: i64,
    is_open: bool,
    can_send: bool,
    reply: Option<(u16, Seq<u8>)>,
) -> EchoVerdict {
    if answers(s, reply) {
        EchoVerdict::Reply(gap(now, be_i64(reply.unwrap().1) as i64) as u64)
    } else if stepped(s, now, is_open, can_send).seq_no == ECHO_REQUESTS && more_than_since(
        ECHO_TIMEOUT,
        now,
        s.start,
    ) {
        EchoVerdict::NoReply
    } else {
        EchoVerdict::Pending
    }
}

/// The echo reply that a received packet holds, as far as a probe reads it: its identifier
/// and its data. A packet longer than `ECHO_PACKET_MAX` is not read. The identifier of a reply
/// is the one that stands at octet 4 of the packet.
pub open spec fn reply_in(packet: Seq<u8>) -> Option<(u16, Seq<u8>)> {
    if packet.len() > ECHO_PACKET_MAX {
        None
    } else {
        match echo_reply_ident_of(packet) {
            Some(ident) => Some((ident, packet.skip(8))),
            None => None,
        }
    }
}

/// Builds the data of an echo request sent at `now`.
fn build_echo_data(now: i64) -> (data: Vec<u8>)
    ensures
        data@ == echo_data(now),
        data@.len() == ECHO_DATA_LEN,
{
    let mut data: Vec<u8> = Vec::new();
    while data.len() < ECHO_DATA_LEN
        invariant
            data@.len() <= ECHO_DATA_LEN,
            forall|i: int| 0 <= i < data@.len() ==> data@[i] == 0xff,
        decreases ECHO_DATA_LEN - data@.len(),
    {
        data.push(0xff);
    }
    write_i64(&mut data, now);
    proof {
        lemma_be_i64_round_trip(now, Seq::empty());
        assert(data@ =~= echo_data(now));
    }
    data
}

impl EchoProbe {
    /// Takes one step at the time `now`. `is_open` and `can_send` say whether the endpoint is
    /// bound and whether it takes a packet to send; `reply` is the echo reply that was
    /// received, if any.
    pub fn decide(&mut self, now: i64, is_open: bool, can_send: bool, reply: Option<&EchoReply>) -> (step:
        EchoStep)
        ensures
            final(self)@ == stepped(old(self)@, now, is_open, can_send),
            step.bind == if is_open {
                None
            } else {
                Some(old(self)@.ident)
            },
            step.send is Some == sends(old(self)@, now, is_open, can_send),
            step.send matches Some(packet) ==> packet@ == echo_request_of(
                old(self)@.ident,
                old(self)@.seq_no,
                echo_data(now),
            ) && echo_layout(packet@, 8, old(self)@.ident, old(self)@.seq_no, echo_data(now)),
            step.verdict == verdict_of(
                old(self)@,
                now,
                is_open,
                can_send,
                match reply {
                    Some(r) => Some((r.ident, r.data@)),
                    None => None,
                },
            ),
    {
        let mut bind: Option<u16> = None;
        if !is_open {
            bind = Some(self.ident);
            self.send_at = now;
        }
        let mut send: Option<Vec<u8>> = None;
        if can_send && self.seq_no < ECHO_REQUESTS && self.send_at <= now {
            let data = build_echo_data(now);
            send = Some(emit_echo_request(self.ident, self.seq_no, data.as_slice()));
            self.seq_no = self.seq_no + 1;
            self.send_at = add_millis(now, ECHO_SPACING);
        }
        let mut answered: Option<u64> = None;
        if let Some(r) = reply {
            if r.ident == self.ident && r.data.len() >= 8 {
                let sent = read_i64(r.data.as_slice());
                answered = Some(millis_between(now, sent));
            }
        }
        let verdict = match answered {
            Some(rtt) => EchoVerdict::Reply(rtt),
            None => if self.seq_no == ECHO_REQUESTS && is_more_than_since(
                ECHO_TIMEOUT,
                now,
                self.start,
            ) {
                EchoVerdict::NoReply
            } else {
                EchoVerdict::Pending
            },
        };
        EchoStep { bind, send, verdict }
    }

    /// Takes one step at the time `now`, reading `received`, the packet that the endpoint
    /// gave, if any, as an echo reply.
    pub fn step(&mut self, now: i64, is_open: bool, can_send: bool, received: Option<&[u8]>) -> (step:
        EchoStep)
        ensures
            final(self)@ == stepped(old(self)@, now, is_open, can_send),
            step.bind == if is_open {
                None
            } else {
                Some(old(self)@.ident)
            },
            step.send is Some == sends(old(self)@, now, is_open, can_send),
            step.send matches Some(packet) ==> packet@ == echo_request_of(
                old(self)@.ident,
                old(self)@.seq_no,
                echo_data(now),
            ) && echo_layout(packet@, 8, old(self)@.ident, old(self)@.seq_no, echo_data(now)),
            step.verdict == verdict_of(
                old(self)@,
                now,
                is_open,
                can_send,
                match received {
                    Some(packet) => reply_in(packet@),
                    None => None,
                },
            ),
    {
        let reply = match received {
            Some(packet) => if packet.len() > ECHO_PACKET_MAX {
                None
            } else {
                parse_echo_reply(packet)
            },
            None => None,
        };
        self.decide(now, is_open, can_send, reply.as_ref())
    }
}

/// Starts a probe at the time `now`, with the identifier `ident` for its echoes.
pub fn probe_v4(ident: u16, now: i64) -> (probe: EchoProbe)
    ensures
        probe@ == (EchoProbeState { ident, start: now, send_at: 0, seq_no: 0 }),
{
    EchoProbe { ident, start: now, send_at: 0, seq_no: 0 }
}

/// The answers of the first `n` neighbors: for each neighbor whose probe had an answer, in the
/// order of the neighbors, its address and the round-trip time. `outcomes[i]` is what the
/// probe of the neighbor at position `i` gave.
pub open spec fn responders(
    addrs: Seq<(Ipv4Addr, EthernetAddress)>,
    outcomes: Seq<Option<u64>>,
    n: int,
) -> Seq<IcmpResponse>
    decreases n,
{
    if n <= 0 {
        Seq::empty()
    } else {
        let before = responders(addrs, outcomes, n - 1);
        match outcomes[n - 1] {
            Some(rtt) => before.push(IcmpResponse(addrs[n - 1].0, rtt)),
            None => before,
        }
    }
}

/// Gathers the answers of a round of probes, one probe per neighbor in the order of the
/// neighbors: `outcomes[i]` is the round-trip time of the neighbor at position `i`, or `None`
/// where it did not answer. Neighbors and outcomes beyond the shorter of the two are left out.
pub fn scan_v4(addrs: &ArpResponses, outcomes: &Vec<Option<u64>>) -> (found: IcmpResponses)
    ensures
        found@ == responders(
            addrs@,
            outcomes@,
            shorter(addrs@.len(), outcomes@.len()),
        ),
{
    let mut found: Vec<IcmpResponse> = Vec::new();
    let all = addrs.entries();
    let n = if addrs.len() <= outcomes.len() {
        addrs.len()
    } else {
        outcomes.len()
    };
    let mut i: usize = 0;
    while i < n
        invariant
            i <= n,
            n <= addrs@.len(),
            n <= outcomes@.len(),
            all@ == addrs@,
            found@ == responders(addrs@, outcomes@, int_of(i)),
        decreases n - i,
    {
        if let Some(rtt) = outcomes[i] {
            found.push(IcmpResponse(all[i].0, rtt));
        }
        i += 1;
    }
    found
}

impl StringableVec for IcmpResponses {
    /// One line per answer: the address, then the round-trip time in parentheses.
    open spec fn lines(&self) -> Seq<Seq<char>> {
        Seq::new(self@.len(), |i: int| paren_line(ipv4_text(self@[i].0), span_text(self@[i].1)))
    }

    fn to_string_vec(&self) -> (v: Vec<String>) {
        let mut v: Vec<String> = Vec::new();
        let n = self.len();
        let mut i: usize = 0;
        while i < n
            invariant
                i <= n,
                n == self@.len(),
                v@.len() == i,
                forall|k: int| 0 <= k < i ==> (#[trigger] v@[k])@ == self.lines()[k],
            decreases n - i,
        {
            let answer = self[i];
            let mut head = String::new();
            push_ipv4(&mut head, answer.0);
            let mut inner = String::new();
            push_span(&mut inner, answer.1);
            assert(head@ =~= ipv4_text(answer.0));
            assert(inner@ =~= span_text(answer.1));
            v.push(make_paren_line(head, inner.as_str()));
            i += 1;
        }
        v
    }
}

/// What a probe comes to. A reply that brings back the data of a request sent at `sent` ends
/// the probe with the span between `sent` and now, which is never negative. Without a reply
/// the probe ends exactly when all four requests are sent and more than the timeout has passed
/// since its start. No more than four requests are ever sent, and two requests lie a spacing
/// apart at least.
pub proof fn lemma_probe_verdicts(
    s: EchoProbeState,
    now: i64,
    is_open: bool,
    can_send: bool,
    sent: i64,
    then: i64,
    then_can_send: bool,
)
    ensures
        verdict_of(s, now, is_open, can_send, Some((s.ident, echo_data(sent))))
            == EchoVerdict::Reply(gap(now, sent) as u64),
        gap(now, sent) <= u64::MAX,
        verdict_of(s, now, is_open, can_send, None) == EchoVerdict::NoReply <==> stepped(
            s,
            now,
            is_open,
            can_send,
        ).seq_no == ECHO_REQUESTS && now - ECHO_TIMEOUT > s.start,
        verdict_of(s, now, is_open, can_send, None) != EchoVerdict::NoReply ==> verdict_of(
            s,
            now,
            is_open,
            can_send,
            None,
        ) == EchoVerdict::Pending,
        s.seq_no <= ECHO_REQUESTS ==> stepped(s, now, is_open, can_send).seq_no <= ECHO_REQUESTS,
        sends(s, now, is_open, can_send) ==> s.seq_no < ECHO_REQUESTS,
        sends(s, now, is_open, can_send) && now + ECHO_SPACING <= i64::MAX && sends(
            stepped(s, now, is_open, can_send),
            then,
            true,
            then_can_send,
        ) ==> then - now >= ECHO_SPACING,
{
    lemma_be_i64_round_trip(sent, Seq::new(32, |i: int| 0xffu8));
}

} // verus!
