//! The datagram scan: a port is taken for open when anything comes back from it in time.
use vstd::prelude::*;
use super::arp::ArpResponses;
use super::ports::{addresses, Service, Sweep, MAX_SERVICES};

verus! {

/// Starts a datagram scan of every neighbor in `addrs`, in rising order of their addresses,
/// for the services of `services`. Its sockets are watched with [`Sweep::observe_udp`], which
/// says when to send a socket's one empty probe.
pub fn probe_addresses(addrs: &ArpResponses, services: Vec<Service>) -> (sweep: Sweep)
    requires
        services@.len() <= MAX_SERVICES,
    ensures
        sweep@.wf(),
        sweep@.targets == addresses(addrs@),
        sweep@.current == 0,
        sweep@.results.len() == 0,
        sweep@.scanner.idle(),
        sweep@.scanner.services == services@,
        sweep@.scanner.next == 0,
        sweep@.scanner.batches == 0,
        forall|i: int| 0 <= i < sweep@.scanner.open.len() ==> !sweep@.scanner.open[i],
{
    Sweep::new(addrs, services)
}

} // verus!
