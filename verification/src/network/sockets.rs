//! The replies of the mirror service: what comes in goes back with its octets in reverse
//! order, but for the last one, which stays where it is.
use vstd::prelude::*;

verus! {

/// The port of the mirror service.
pub const MIRROR_PORT: u16 = 15;

/// Data with all octets but the last in reverse order.
pub open spec fn mirrored(data: Seq<u8>) -> Seq<u8> {
    data.drop_last().reverse().push(data.last())
}

/// The prefix of a reply over a connection: the text `tcp: `.
pub open spec fn stream_prefix() -> Seq<u8> {
    seq![0x74u8, 0x63, 0x70, 0x3a, 0x20]
}

/// The reply to a datagram.
pub fn udp_reply(data: &[u8]) -> (reply: Vec<u8>)
    requires
        data@.len() > 0,
    ensures
        reply@ == mirrored(data@),
{
    let mut reply: Vec<u8> = Vec::new();
    let last = data.len() - 1;
    let mut i: usize = 0;
    while i < last
        invariant
            i <= last,
            last == data@.len() - 1,
            reply@.len() == i,
            forall|k: int| 0 <= k < i ==> reply@[k] == data@[last - 1 - k],
        decreases last - i,
    {
        reply.push(data[last - 1 - i]);
        i += 1;
    }
    reply.push(data[last]);
    assert(reply@ =~= mirrored(data@));
    reply
}

/// The reply to data received over a connection: the prefix, then the data mirrored; none to
/// no data.
pub fn tcp_reply(data: &[u8]) -> (reply: Option<Vec<u8>>)
    ensures
        data@.len() == 0 ==> reply is None,
        data@.len() > 0 ==> (reply matches Some(r) && r@ == stream_prefix() + mirrored(data@)),
{
    if data.len() == 0 {
        return None;
    }
    let mut reply: Vec<u8> = Vec::new();
    reply.push(0x74);
    reply.push(0x63);
    reply.push(0x70);
    reply.push(0x3a);
    reply.push(0x20);
    let mut body = udp_reply(data);
    reply.append(&mut body);
    assert(reply@ =~= stream_prefix() + mirrored(data@));
    Some(reply)
}

} // verus!
