//! The live input bus: pointer events from the host, queued until the run
//! loop drains them.
use vstd::prelude::*;
use std::collections::VecDeque;

verus! {

/// One pointer event from the host. Coordinates are IEEE-754
/// single-precision bit patterns.
#[derive(Debug, Clone)]
pub struct LiveInputPacket {
    pub phase: String,
    pub pointer_id: u32,
    pub px_bits: u32,
    pub py_bits: u32,
    pub host_width: Option<u32>,
    pub host_height: Option<u32>,
    pub flip_y: Option<bool>,
    pub button: Option<u32>,
    pub buttons: Option<u32>,
    pub source: Option<String>,
}

/// Queued input events, oldest first.
#[derive(Debug)]
pub struct InputBus {
    pub queue: VecDeque<LiveInputPacket>,
}

impl InputBus {
    /// An empty queue.
    pub fn new() -> (b: Self)
        ensures
            b.queue@.len() == 0,
    {
        InputBus { queue: VecDeque::new() }
    }
}

/// Queues an event.
pub fn enqueue_live_input(bus: &mut InputBus, packet: LiveInputPacket)
    ensures
        final(bus).queue@ == old(bus).queue@.push(packet),
{
    bus.queue.push_back(packet);
}

/// Takes up to `limit` (at least one) of the oldest events.
pub fn drain_live_input(bus: &mut InputBus, limit: usize) -> (out: Vec<LiveInputPacket>)
    ensures
        ({
            let take: int = if limit == 0 { 1 } else { limit as int };
            let n: int = if take < old(bus).queue@.len() { take } else { old(bus).queue@.len() as int };
            &&& out@ == old(bus).queue@.take(n)
            &&& final(bus).queue@ == old(bus).queue@.skip(n)
        }),
{
    let take = if limit == 0 { 1 } else { limit };
    let ghost q0 = bus.queue@;
    let mut out: Vec<LiveInputPacket> = Vec::new();
    while out.len() < take
        invariant
            out@.len() <= take,
            out@.len() <= q0.len(),
            out@ == q0.take(out@.len() as int),
            bus.queue@ == q0.skip(out@.len() as int),
        decreases take - out@.len(),
    {
        let p = match bus.queue.pop_front() {
            Some(p) => p,
            None => break,
        };
        out.push(p);
        assert(out@ =~= q0.take(out@.len() as int));
        assert(bus.queue@ =~= q0.skip(out@.len() as int));
    }
    out
}

/// Drops every queued event.
pub fn clear_live_input(bus: &mut InputBus)
    ensures
        final(bus).queue@.len() == 0,
{
    bus.queue.clear();
}

} // verus!
