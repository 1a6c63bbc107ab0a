//! The live frame bus: a bounded queue of presented frames between the
//! runtime and the host's viewer. A full queue makes the publisher wait;
//! after waiting long enough it drops the oldest frame.
use vstd::prelude::*;
use std::collections::VecDeque;

verus! {

/// How many frames the queue holds.
pub const LIVE_FRAME_QUEUE_CAPACITY: usize = 32;

/// How many times a publisher waits for room before dropping a frame.
pub const LIVE_FRAME_QUEUE_WAIT_ROUNDS: usize = 32;

/// How long, in milliseconds, a publisher waits each round.
pub const LIVE_FRAME_QUEUE_WAIT_MS: u64 = 2;

/// One presented frame.
#[derive(Debug, Clone)]
pub struct LiveFramePacket {
    pub frame_index: u32,
    pub width: u32,
    pub height: u32,
    pub rgba: Vec<u8>,
    pub source: String,
    pub reason: String,
    pub reused_previous: bool,
}

/// The frame sink the viewer installed, if any, and how many frames were
/// dropped since.
#[derive(Debug)]
pub struct FrameBus {
    /// Queued frames, oldest first.
    pub sink: Option<VecDeque<LiveFramePacket>>,
    pub dropped: u64,
}

impl FrameBus {
    /// No sink installed.
    pub fn new() -> (b: Self)
        ensures
            b.sink is None,
            b.dropped == 0,
    {
        FrameBus { sink: None, dropped: 0 }
    }

    /// The queued frames (none without a sink).
    pub open spec fn frames(&self) -> Seq<LiveFramePacket> {
        match self.sink {
            Some(q) => q@,
            None => Seq::empty(),
        }
    }

    /// The queue never holds more than its capacity.
    pub open spec fn bus_wf(&self) -> bool {
        self.frames().len() <= LIVE_FRAME_QUEUE_CAPACITY
    }
}

/// Installs (or, with `None`, removes) the frame sink: the drop count is
/// reset and the new sink starts empty.
pub fn install_live_frame_sink(bus: &mut FrameBus, sink: Option<VecDeque<LiveFramePacket>>)
    ensures
        final(bus).dropped == 0,
        final(bus).sink is Some == sink is Some,
        final(bus).frames().len() == 0,
        final(bus).bus_wf(),
{
    bus.dropped = 0;
    bus.sink = match sink {
        Some(mut q) => {
            q.clear();
            Some(q)
        },
        None => None,
    };
}

/// Takes the oldest queued frame.
pub fn take_live_frame(bus: &mut FrameBus) -> (r: Option<LiveFramePacket>)
    ensures
        final(bus).dropped == old(bus).dropped,
        final(bus).sink is Some == old(bus).sink is Some,
        old(bus).frames().len() == 0 ==> r is None && final(bus).frames() == old(bus).frames(),
        old(bus).frames().len() > 0 ==> r == Some(old(bus).frames()[0])
            && final(bus).frames() == old(bus).frames().drop_first(),
{
    match &mut bus.sink {
        Some(q) => {
            let r = q.pop_front();
            proof {
                assert(old(bus).frames().drop_first() =~= old(bus).frames().subrange(1, old(bus).frames().len() as int));
            }
            r
        },
        None => None,
    }
}

/// How many frames are queued (zero without a sink).
pub fn live_frame_queue_depth(bus: &FrameBus) -> (n: usize)
    ensures
        n == bus.frames().len(),
{
    match &bus.sink {
        Some(q) => q.len(),
        None => 0,
    }
}

/// Appends a frame; with `force_drop_oldest` and a full queue the oldest
/// frame is dropped first and counted.
pub fn push_packet(queue: &mut VecDeque<LiveFramePacket>, dropped: &mut u64, packet: LiveFramePacket, force_drop_oldest: bool)
    ensures
        ({
            let drop = force_drop_oldest && old(queue)@.len() >= LIVE_FRAME_QUEUE_CAPACITY && old(queue)@.len() > 0;
            &&& final(queue)@ == (if drop { old(queue)@.drop_first() } else { old(queue)@ }).push(packet)
            &&& *final(dropped) == if drop {
                if *old(dropped) == u64::MAX {
                    u64::MAX
                } else {
                    (*old(dropped) + 1) as u64
                }
            } else {
                *old(dropped)
            }
        }),
{
    if force_drop_oldest && queue.len() >= LIVE_FRAME_QUEUE_CAPACITY && queue.len() > 0 {
        let _ = queue.pop_front();
        proof {
            assert(old(queue)@.drop_first() =~= old(queue)@.subrange(1, old(queue)@.len() as int));
        }
        *dropped = dropped.saturating_add(1);
    }
    queue.push_back(packet);
}

/// Publishes a frame if the queue has room. Without a sink the frame is
/// discarded; with a full queue it is handed back so that the caller can
/// wait and try again.
pub fn try_publish_live_frame(bus: &mut FrameBus, packet: LiveFramePacket) -> (r: Option<LiveFramePacket>)
    requires
        old(bus).bus_wf(),
    ensures
        final(bus).bus_wf(),
        final(bus).dropped == old(bus).dropped,
        final(bus).sink is Some == old(bus).sink is Some,
        old(bus).sink is None ==> r is None && final(bus).frames() == old(bus).frames(),
        old(bus).sink is Some && old(bus).frames().len() < LIVE_FRAME_QUEUE_CAPACITY ==> r is None
            && final(bus).frames() == old(bus).frames().push(packet),
        old(bus).sink is Some && old(bus).frames().len() >= LIVE_FRAME_QUEUE_CAPACITY ==> r == Some(packet)
            && final(bus).frames() == old(bus).frames(),
{
    match &mut bus.sink {
        Some(q) => {
            if q.len() < LIVE_FRAME_QUEUE_CAPACITY {
                q.push_back(packet);
                None
            } else {
                Some(packet)
            }
        },
        None => None,
    }
}

/// Publishes a frame after waiting has not made room: the oldest frame is
/// dropped (and counted) when the queue is full. Without a sink the frame
/// is discarded.
pub fn force_publish_live_frame(bus: &mut FrameBus, packet: LiveFramePacket)
    requires
        old(bus).bus_wf(),
    ensures
        final(bus).bus_wf(),
        final(bus).sink is Some == old(bus).sink is Some,
        old(bus).sink is None ==> final(bus).frames() == old(bus).frames() && final(bus).dropped == old(bus).dropped,
        old(bus).sink is Some ==> {
            let drop = old(bus).frames().len() >= LIVE_FRAME_QUEUE_CAPACITY;
            &&& final(bus).frames() == (if drop {
                old(bus).frames().drop_first()
            } else {
                old(bus).frames()
            }).push(packet)
            &&& final(bus).dropped == if drop {
                if old(bus).dropped == u64::MAX {
                    u64::MAX
                } else {
                    (old(bus).dropped + 1) as u64
                }
            } else {
                old(bus).dropped
            }
        },
{
    match &mut bus.sink {
        Some(q) => {
            push_packet(q, &mut bus.dropped, packet, true);
        },
        None => {},
    }
}

} // verus!
