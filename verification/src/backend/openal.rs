//! OpenAL emulation state: error slots, buffer and source names, and the
//! buffer queue of each source.
use vstd::prelude::*;
use std::collections::HashMap;
use vstd::bytes::spec_u32_to_le_bytes;
use crate::error::{CoreError, CoreResult};
use crate::text::{hex_padded, push_char, push_hex, str_eq};
use super::{
    span_mapped, write_span, BackendOpenAlBufferState, BackendOpenAlSourceState, BackendOpenAlState, MemoryArm32Backend,
    RegionView,
};
use super::guest_access::write_error_message;
use super::heap::{alloc_error, alloc_outcome, guest_alloc_effect, sat_add};
use super::guest_strings::{labels_view, lemma_labels_view_insert};

verus! {

pub const AL_NO_ERROR: u32 = 0;
pub const ALC_NO_ERROR: u32 = 0;
pub const AL_INVALID_NAME: u32 = 0xA001;
pub const AL_PITCH: u32 = 0x1003;
pub const AL_POSITION: u32 = 0x1004;
pub const AL_VELOCITY: u32 = 0x1006;
pub const AL_GAIN: u32 = 0x100A;
pub const AL_FORMAT_MONO8: u32 = 0x1100;
pub const AL_FORMAT_MONO16: u32 = 0x1101;
pub const AL_FORMAT_STEREO8: u32 = 0x1102;
pub const AL_FORMAT_STEREO16: u32 = 0x1103;
pub const AL_INITIAL: u32 = 0x1011;
pub const AL_PLAYING: u32 = 0x1012;
pub const AL_PAUSED: u32 = 0x1013;
pub const AL_STOPPED: u32 = 0x1014;

/// The IEEE-754 single-precision bit pattern of `1.0`.
pub const F32_ONE_BITS: u32 = 0x3f80_0000;

/// The name of an OpenAL sample format.
pub open spec fn spec_format_name(format: u32) -> Seq<char> {
    if format == AL_FORMAT_MONO8 {
        "AL_FORMAT_MONO8"@
    } else if format == AL_FORMAT_MONO16 {
        "AL_FORMAT_MONO16"@
    } else if format == AL_FORMAT_STEREO8 {
        "AL_FORMAT_STEREO8"@
    } else if format == AL_FORMAT_STEREO16 {
        "AL_FORMAT_STEREO16"@
    } else {
        "AL_FORMAT_UNKNOWN"@
    }
}

/// The name of an OpenAL source state.
pub open spec fn spec_state_name(state: u32) -> Seq<char> {
    if state == AL_INITIAL {
        "AL_INITIAL"@
    } else if state == AL_PLAYING {
        "AL_PLAYING"@
    } else if state == AL_PAUSED {
        "AL_PAUSED"@
    } else if state == AL_STOPPED {
        "AL_STOPPED"@
    } else {
        "AL_STATE_UNKNOWN"@
    }
}

/// The processed buffers are the oldest queued ones.
pub open spec fn source_wf(s: BackendOpenAlSourceState) -> bool {
    &&& s.processed_buffers@.len() <= s.queued_buffers@.len()
    &&& s.processed_buffers@ == s.queued_buffers@.take(s.processed_buffers@.len() as int)
}

/// Every source keeps its processed buffers a prefix of its queue.
pub open spec fn openal_wf(o: BackendOpenAlState) -> bool {
    forall|k: u32| #[trigger] o.sources@.contains_key(k) ==> source_wf(o.sources@[k])
}

/// The processed list after playback catches up: a stopped source has
/// processed its whole queue, a playing one the next queued buffer.
pub open spec fn promoted(queued: Seq<u32>, processed: Seq<u32>, state: u32) -> Seq<u32> {
    if state == AL_STOPPED && processed.len() < queued.len() {
        processed + queued.subrange(processed.len() as int, queued.len() as int)
    } else if state == AL_PLAYING && processed.len() < queued.len() {
        processed.push(queued[processed.len() as int])
    } else {
        processed
    }
}

/// Catching up with playback: a playing source whose queue runs ahead of
/// its processed list has processed exactly one more buffer, the next one
/// queued; a stopped source has processed its whole queue; any other state
/// leaves the processed list as it was.
pub proof fn lemma_promoted_progress(queued: Seq<u32>, processed: Seq<u32>, state: u32)
    requires
        processed.len() <= queued.len(),
        processed == queued.take(processed.len() as int),
    ensures
        state == AL_PLAYING && processed.len() < queued.len() ==> promoted(queued, processed, state) == queued.take(
            processed.len() + 1int,
        ),
        state == AL_STOPPED ==> promoted(queued, processed, state) == queued,
        state != AL_PLAYING && state != AL_STOPPED ==> promoted(queued, processed, state) == processed,
        promoted(queued, processed, state) == queued.take(promoted(queued, processed, state).len() as int),
{
    let p = promoted(queued, processed, state);
    if state == AL_PLAYING && processed.len() < queued.len() {
        assert(p =~= queued.take(processed.len() + 1int));
    } else if state == AL_STOPPED && processed.len() < queued.len() {
        assert(p =~= queued);
    } else if state == AL_STOPPED {
        assert(processed =~= queued);
    }
    assert(p =~= queued.take(p.len() as int));
}

/// `b` is `a` with a new queue, processed list and state; every parameter
/// is kept.
pub open spec fn source_updated(
    a: BackendOpenAlSourceState,
    b: BackendOpenAlSourceState,
    queued: Seq<u32>,
    processed: Seq<u32>,
    state: u32,
) -> bool {
    &&& b.queued_buffers@ == queued
    &&& b.processed_buffers@ == processed
    &&& b.state == state
    &&& b.ints == a.ints
    &&& b.float_bits == a.float_bits
    &&& b.vector_bits == a.vector_bits
}

/// The names handed out for `n` new objects when the next free name is
/// `next`: names start at 1 and stop growing at `u32::MAX`.
pub open spec fn gen_ids(next: u32, n: nat) -> Seq<u32>
    decreases n,
{
    if n == 0 {
        Seq::empty()
    } else {
        let id: u32 = if next == 0 { 1 } else { next };
        seq![id] + gen_ids(sat_add(id, 1), (n - 1) as nat)
    }
}

/// The next free name after handing out `n` names from `next`.
pub open spec fn gen_next(next: u32, n: nat) -> u32
    decreases n,
{
    if n == 0 {
        next
    } else {
        let id: u32 = if next == 0 { 1 } else { next };
        gen_next(sat_add(id, 1), (n - 1) as nat)
    }
}

/// Storing `words` one after another from `addr` (the address wrapping
/// around) into `s`, logging each store in `log`: the memory and log
/// reached, and the address of the first store that found no mapped word.
pub open spec fn write_words(s: Seq<RegionView>, log: Seq<(u32, usize)>, addr: u32, words: Seq<u32>) -> (
    Seq<RegionView>,
    Seq<(u32, usize)>,
    Option<u32>,
)
    decreases words.len(),
{
    if words.len() == 0 {
        (s, log, None)
    } else if !span_mapped(s, addr, 4) {
        (s, log, Some(addr))
    } else {
        write_words(
            write_span(s, addr, spec_u32_to_le_bytes(words[0])),
            log.push((addr, 4usize)),
            addr.wrapping_add(4),
            words.drop_first(),
        )
    }
}

/// `b1` is `b0` after a zeroed 32-byte handle tagged `tag` was allocated
/// at `p` and labelled `label` (the OpenAL state aside).
pub open spec fn handle_created(
    b0: MemoryArm32Backend,
    b1: MemoryArm32Backend,
    p: u32,
    tag: Seq<char>,
    label: Seq<char>,
) -> bool {
    exists|mid: MemoryArm32Backend|
        #[trigger] guest_alloc_effect(b0, mid, 32, true, tag, p) && b1.runtime.heap == mid.runtime.heap && b1.mem()
            == mid.mem() && b1.diag.writes == mid.diag.writes && labels_view(b1.diag.object_labels@) == labels_view(
            mid.diag.object_labels@,
        ).insert(p, label) && b1.cpu == mid.cpu && b1.profile == mid.profile
}

/// Bytes as two-digit hex pairs separated by spaces.
pub open spec fn hex_pairs(b: Seq<u8>) -> Seq<char>
    decreases b.len(),
{
    if b.len() == 0 {
        Seq::empty()
    } else if b.len() == 1 {
        hex_padded(b[0] as nat, 2)
    } else {
        hex_pairs(b.drop_last()) + " "@ + hex_padded(b.last() as nat, 2)
    }
}

/// The first 24 bytes as hex pairs.
pub open spec fn spec_hex_preview(b: Seq<u8>) -> Seq<char> {
    hex_pairs(b.take(if b.len() < 24 { b.len() as int } else { 24 }))
}

/// A byte as printable ASCII, `.` for anything else.
pub open spec fn ascii_or_dot(b: u8) -> char {
    if 0x20 <= b <= 0x7e {
        b as char
    } else {
        '.'
    }
}

/// The first 48 bytes as printable ASCII, `.` for anything else.
pub open spec fn spec_ascii_preview(b: Seq<u8>) -> Seq<char> {
    b.take(if b.len() < 48 { b.len() as int } else { 48 }).map_values(|x: u8| ascii_or_dot(x))
}

/// Selectors of the Objective-C audio engines the runtime watches.
pub open spec fn is_audio_selector(s: Seq<char>) -> bool {
    s == "sharedEngine"@ || s == "sharedManager"@ || s == "soundEngine"@ || s == "asynchLoadProgress"@ || s
        == "playSound:channelGroupId:pitch:pan:gain:loop:"@ || s == "initWithContentsOfURL:error:"@ || s
        == "initWithData:error:"@ || s == "prepareToPlay"@ || s == "play"@ || s == "pause"@ || s == "stop"@ || s
        == "playing"@ || s == "setVolume:"@ || s == "volume"@ || s == "setNumberOfLoops:"@ || s == "numberOfLoops"@
        || s == "preloadBackgroundMusic:"@ || s == "playBackgroundMusic:"@ || s == "playBackgroundMusic:loop:"@ || s
        == "stopBackgroundMusic"@ || s == "pauseBackgroundMusic"@ || s == "resumeBackgroundMusic"@ || s
        == "setBackgroundMusicVolume:"@ || s == "preloadEffect:"@ || s == "playEffect:"@ || s == "playEffect:loop:"@
        || s == "playEffect:pitch:pan:gain:"@ || s == "stopEffect:"@ || s == "unloadEffect:"@ || s
        == "setEffectsVolume:"@
}

/// A buffer with no data.
pub open spec fn buffer_is_empty(b: BackendOpenAlBufferState) -> bool {
    b.format == 0 && b.frequency == 0 && b.byte_len == 0 && b.preview@.len() == 0
}

/// A freshly generated source: initial state, empty queue, gain and pitch
/// 1.0, position and velocity at the origin.
pub open spec fn source_is_fresh(s: BackendOpenAlSourceState) -> bool {
    &&& s.state == AL_INITIAL
    &&& s.queued_buffers@.len() == 0
    &&& s.processed_buffers@.len() == 0
    &&& s.ints@.len() == 0
    &&& s.float_bits@ == map![AL_GAIN => F32_ONE_BITS, AL_PITCH => F32_ONE_BITS]
    &&& s.vector_bits@.dom() == set![AL_POSITION, AL_VELOCITY]
    &&& s.vector_bits@[AL_POSITION]@ == seq![0u32, 0u32, 0u32]
    &&& s.vector_bits@[AL_VELOCITY]@ == seq![0u32, 0u32, 0u32]
}

impl Default for BackendOpenAlSourceState {
    /// A source with no parameters and no buffers, in the initial state.
    fn default() -> (s: Self)
        ensures
            s.ints@.len() == 0,
            s.float_bits@.len() == 0,
            s.vector_bits@.len() == 0,
            s.queued_buffers@.len() == 0,
            s.processed_buffers@.len() == 0,
            s.state == AL_INITIAL,
    {
        BackendOpenAlSourceState {
            ints: HashMap::new(),
            float_bits: HashMap::new(),
            vector_bits: HashMap::new(),
            queued_buffers: Vec::new(),
            processed_buffers: Vec::new(),
            state: AL_INITIAL,
        }
    }
}

/// A source in its initial state with gain and pitch 1.0 and position and
/// velocity at the origin.
pub fn fresh_source() -> (s: BackendOpenAlSourceState)
    ensures
        source_is_fresh(s),
        source_wf(s),
{
    let mut float_bits: HashMap<u32, u32> = HashMap::new();
    float_bits.insert(AL_GAIN, F32_ONE_BITS);
    float_bits.insert(AL_PITCH, F32_ONE_BITS);
    let mut vector_bits: HashMap<u32, Vec<u32>> = HashMap::new();
    vector_bits.insert(AL_POSITION, vec![0u32, 0u32, 0u32]);
    vector_bits.insert(AL_VELOCITY, vec![0u32, 0u32, 0u32]);
    let s = BackendOpenAlSourceState {
        ints: HashMap::new(),
        float_bits,
        vector_bits,
        queued_buffers: Vec::new(),
        processed_buffers: Vec::new(),
        state: AL_INITIAL,
    };
    proof {
        assert(s.float_bits@ =~= map![AL_GAIN => F32_ONE_BITS, AL_PITCH => F32_ONE_BITS]);
        assert(s.vector_bits@.dom() =~= set![AL_POSITION, AL_VELOCITY]);
        assert(s.processed_buffers@ =~= s.queued_buffers@.take(0));
    }
    s
}

/// Brings a source's processed list up to date with its playback state.
pub fn openal_promote_processed(source: &mut BackendOpenAlSourceState)
    requires
        source_wf(*old(source)),
    ensures
        source_wf(*final(source)),
        source_updated(
            *old(source),
            *final(source),
            old(source).queued_buffers@,
            promoted(old(source).queued_buffers@, old(source).processed_buffers@, old(source).state),
            old(source).state,
        ),
{
    let ghost q = source.queued_buffers@;
    let ghost p0 = source.processed_buffers@;
    if source.state == AL_STOPPED {
        while source.processed_buffers.len() < source.queued_buffers.len()
            invariant
                source.queued_buffers@ == q,
                p0.len() <= source.processed_buffers@.len() <= q.len(),
                source.processed_buffers@ == q.take(source.processed_buffers@.len() as int),
                p0 == q.take(p0.len() as int),
                source.state == old(source).state,
                source.ints == old(source).ints,
                source.float_bits == old(source).float_bits,
                source.vector_bits == old(source).vector_bits,
            decreases q.len() - source.processed_buffers@.len(),
        {
            let id = source.queued_buffers[source.processed_buffers.len()];
            source.processed_buffers.push(id);
            assert(source.processed_buffers@ =~= q.take(source.processed_buffers@.len() as int));
        }
        proof {
            if p0.len() < q.len() {
                assert(source.processed_buffers@ =~= p0 + q.subrange(p0.len() as int, q.len() as int));
            }
        }
        return;
    }
    if source.state == AL_PLAYING && source.processed_buffers.len() < source.queued_buffers.len() {
        let id = source.queued_buffers[source.processed_buffers.len()];
        source.processed_buffers.push(id);
        assert(source.processed_buffers@ =~= q.take(source.processed_buffers@.len() as int));
    }
}

impl BackendOpenAlState {
    /// No device, context, buffers or sources; names start at 1.
    pub fn new() -> (o: Self)
        ensures
            o.device_ptr == 0,
            o.context_ptr == 0,
            o.current_context == 0,
            o.next_buffer_id == 1,
            o.next_source_id == 1,
            o.last_al_error == AL_NO_ERROR,
            o.last_alc_error == ALC_NO_ERROR,
            o.distance_model == 0,
            o.listener_float_bits@.len() == 0,
            o.listener_vector_bits@.len() == 0,
            o.buffers@.len() == 0,
            o.sources@.len() == 0,
            openal_wf(o),
    {
        BackendOpenAlState {
            device_ptr: 0,
            context_ptr: 0,
            current_context: 0,
            next_buffer_id: 1,
            next_source_id: 1,
            last_al_error: AL_NO_ERROR,
            last_alc_error: ALC_NO_ERROR,
            distance_model: 0,
            listener_float_bits: HashMap::new(),
            listener_vector_bits: HashMap::new(),
            buffers: HashMap::new(),
            sources: HashMap::new(),
        }
    }
}

impl MemoryArm32Backend {
    /// The name of an OpenAL sample format.
    pub fn openal_format_name(format: u32) -> (s: &'static str)
        ensures
            s@ == spec_format_name(format),
    {
        if format == AL_FORMAT_MONO8 {
            "AL_FORMAT_MONO8"
        } else if format == AL_FORMAT_MONO16 {
            "AL_FORMAT_MONO16"
        } else if format == AL_FORMAT_STEREO8 {
            "AL_FORMAT_STEREO8"
        } else if format == AL_FORMAT_STEREO16 {
            "AL_FORMAT_STEREO16"
        } else {
            "AL_FORMAT_UNKNOWN"
        }
    }

    /// The name of an OpenAL source state.
    pub fn openal_state_name(state: u32) -> (s: &'static str)
        ensures
            s@ == spec_state_name(state),
    {
        if state == AL_INITIAL {
            "AL_INITIAL"
        } else if state == AL_PLAYING {
            "AL_PLAYING"
        } else if state == AL_PAUSED {
            "AL_PAUSED"
        } else if state == AL_STOPPED {
            "AL_STOPPED"
        } else {
            "AL_STATE_UNKNOWN"
        }
    }

    /// Records an AL error; `AL_NO_ERROR` leaves the recorded one in place.
    pub fn openal_set_al_error(&mut self, err: u32)
        ensures
            final(self).runtime.openal == (BackendOpenAlState {
                last_al_error: if err != AL_NO_ERROR {
                    err
                } else {
                    old(self).runtime.openal.last_al_error
                },
                ..old(self).runtime.openal
            }),
            final(self).runtime.heap == old(self).runtime.heap,
            final(self).runtime.ui_network == old(self).runtime.ui_network,
            final(self).address_space == old(self).address_space,
            final(self).diag == old(self).diag,
            final(self).cpu == old(self).cpu,
    {
        if err != AL_NO_ERROR {
            self.runtime.openal.last_al_error = err;
        }
    }

    /// Returns the recorded AL error and clears it.
    pub fn openal_take_al_error(&mut self) -> (err: u32)
        ensures
            err == old(self).runtime.openal.last_al_error,
            final(self).runtime.openal == (BackendOpenAlState {
                last_al_error: AL_NO_ERROR,
                ..old(self).runtime.openal
            }),
            final(self).runtime.heap == old(self).runtime.heap,
            final(self).address_space == old(self).address_space,
            final(self).diag == old(self).diag,
            final(self).cpu == old(self).cpu,
    {
        let err = self.runtime.openal.last_al_error;
        self.runtime.openal.last_al_error = AL_NO_ERROR;
        err
    }

    /// Records an ALC error; `ALC_NO_ERROR` leaves the recorded one in place.
    pub fn openal_set_alc_error(&mut self, err: u32)
        ensures
            final(self).runtime.openal == (BackendOpenAlState {
                last_alc_error: if err != ALC_NO_ERROR {
                    err
                } else {
                    old(self).runtime.openal.last_alc_error
                },
                ..old(self).runtime.openal
            }),
            final(self).runtime.heap == old(self).runtime.heap,
            final(self).address_space == old(self).address_space,
            final(self).diag == old(self).diag,
            final(self).cpu == old(self).cpu,
    {
        if err != ALC_NO_ERROR {
            self.runtime.openal.last_alc_error = err;
        }
    }

    /// Returns the recorded ALC error and clears it.
    pub fn openal_take_alc_error(&mut self) -> (err: u32)
        ensures
            err == old(self).runtime.openal.last_alc_error,
            final(self).runtime.openal == (BackendOpenAlState {
                last_alc_error: ALC_NO_ERROR,
                ..old(self).runtime.openal
            }),
            final(self).runtime.heap == old(self).runtime.heap,
            final(self).address_space == old(self).address_space,
            final(self).diag == old(self).diag,
            final(self).cpu == old(self).cpu,
    {
        let err = self.runtime.openal.last_alc_error;
        self.runtime.openal.last_alc_error = ALC_NO_ERROR;
        err
    }

    /// Appends `ids` to the queue of source `source_id`; a source in its
    /// initial state with a non-empty queue becomes stopped. Fails for an
    /// unknown source.
    pub fn openal_queue_buffers(&mut self, source_id: u32, ids: &[u32]) -> (ok: bool)
        requires
            openal_wf(old(self).runtime.openal),
        ensures
            openal_wf(final(self).runtime.openal),
            ok == old(self).runtime.openal.sources@.contains_key(source_id),
            !ok ==> final(self).runtime.openal == old(self).runtime.openal,
            ok ==> {
                let s0 = old(self).runtime.openal.sources@[source_id];
                let q = s0.queued_buffers@ + ids@;
                &&& final(self).runtime.openal.sources@.dom() == old(self).runtime.openal.sources@.dom()
                &&& forall|k: u32|
                    k != source_id && #[trigger] old(self).runtime.openal.sources@.contains_key(k)
                        ==> final(self).runtime.openal.sources@[k] == old(self).runtime.openal.sources@[k]
                &&& source_updated(
                    s0,
                    final(self).runtime.openal.sources@[source_id],
                    q,
                    s0.processed_buffers@,
                    if s0.state == AL_INITIAL && q.len() > 0 {
                        AL_STOPPED
                    } else {
                        s0.state
                    },
                )
                &&& final(self).runtime.openal == (BackendOpenAlState {
                    sources: final(self).runtime.openal.sources,
                    ..old(self).runtime.openal
                })
            },
            final(self).runtime.heap == old(self).runtime.heap,
            final(self).address_space == old(self).address_space,
            final(self).diag == old(self).diag,
            final(self).cpu == old(self).cpu,
    {
        if !self.runtime.openal.sources.contains_key(&source_id) {
            return false;
        }
        let mut source = match self.runtime.openal.sources.remove(&source_id) {
            Some(s) => s,
            None => return false,
        };
        let ghost s0 = source;
        let mut i: usize = 0;
        while i < ids.len()
            invariant
                i <= ids@.len(),
                source.queued_buffers@ == s0.queued_buffers@ + ids@.take(i as int),
                source.processed_buffers@ == s0.processed_buffers@,
                source.state == s0.state,
                source.ints == s0.ints,
                source.float_bits == s0.float_bits,
                source.vector_bits == s0.vector_bits,
            decreases ids@.len() - i,
        {
            source.queued_buffers.push(ids[i]);
            assert(source.queued_buffers@ =~= s0.queued_buffers@ + ids@.take(i + 1));
            i = i + 1;
        }
        assert(ids@.take(ids@.len() as int) =~= ids@);
        if source.state == AL_INITIAL && source.queued_buffers.len() > 0 {
            source.state = AL_STOPPED;
        }
        proof {
            let q = source.queued_buffers@;
            let p = source.processed_buffers@;
            assert(source_wf(s0));
            assert(p =~= q.take(p.len() as int));
        }
        self.runtime.openal.sources.insert(source_id, source);
        proof {
            let m0 = old(self).runtime.openal.sources@;
            let m1 = self.runtime.openal.sources@;
            assert(m1.dom() =~= m0.dom());
            assert forall|k: u32| #[trigger] m1.contains_key(k) implies source_wf(m1[k]) by {
                if k != source_id {
                    assert(m0.contains_key(k));
                }
            }
        }
        true
    }

    /// Takes up to `count` processed buffers off the front of the queue of
    /// source `source_id`, after bringing its processed list up to date; a
    /// playing source whose queue runs empty stops. `None` for an unknown
    /// source.
    pub fn openal_unqueue_buffers(&mut self, source_id: u32, count: u32) -> (r: Option<Vec<u32>>)
        requires
            openal_wf(old(self).runtime.openal),
        ensures
            openal_wf(final(self).runtime.openal),
            r is Some == old(self).runtime.openal.sources@.contains_key(source_id),
            r is None ==> final(self).runtime.openal == old(self).runtime.openal,
            r matches Some(ids) ==> {
                let s0 = old(self).runtime.openal.sources@[source_id];
                let q = s0.queued_buffers@;
                let p0 = s0.processed_buffers@.len() as int;
                &&& s0.state == AL_PLAYING && p0 < q.len() ==> ids@ == q.take(
                    if count < p0 + 1 {
                        count as int
                    } else {
                        p0 + 1
                    },
                )
                &&& s0.state == AL_STOPPED ==> ids@ == q.take(if count < q.len() { count as int } else { q.len() as int })
            },
            r matches Some(ids) ==> {
                let s0 = old(self).runtime.openal.sources@[source_id];
                let q = s0.queued_buffers@;
                let p = promoted(q, s0.processed_buffers@, s0.state);
                let n: int = if count < p.len() { count as int } else { p.len() as int };
                let q1 = q.skip(n);
                &&& ids@ == q.take(n)
                &&& final(self).runtime.openal.sources@.dom() == old(self).runtime.openal.sources@.dom()
                &&& forall|k: u32|
                    k != source_id && #[trigger] old(self).runtime.openal.sources@.contains_key(k)
                        ==> final(self).runtime.openal.sources@[k] == old(self).runtime.openal.sources@[k]
                &&& source_updated(
                    s0,
                    final(self).runtime.openal.sources@[source_id],
                    q1,
                    p.skip(n),
                    if q1.len() == 0 && s0.state == AL_PLAYING {
                        AL_STOPPED
                    } else {
                        s0.state
                    },
                )
                &&& final(self).runtime.openal == (BackendOpenAlState {
                    sources: final(self).runtime.openal.sources,
                    ..old(self).runtime.openal
                })
            },
            final(self).runtime.heap == old(self).runtime.heap,
            final(self).address_space == old(self).address_space,
            final(self).diag == old(self).diag,
            final(self).cpu == old(self).cpu,
    {
        if !self.runtime.openal.sources.contains_key(&source_id) {
            return None;
        }
        let mut source = match self.runtime.openal.sources.remove(&source_id) {
            Some(s) => s,
            None => return None,
        };
        let ghost s0 = source;
        proof {
            assert(source_wf(s0));
        }
        openal_promote_processed(&mut source);
        proof {
            lemma_promoted_progress(s0.queued_buffers@, s0.processed_buffers@, s0.state);
        }
        let ghost q = s0.queued_buffers@;
        let ghost p = source.processed_buffers@;
        let mut ids: Vec<u32> = Vec::new();
        let mut i: u32 = 0;
        while i < count
            invariant
                i <= count,
                ids@.len() == i,
                i <= p.len(),
                p.len() <= q.len(),
                p == q.take(p.len() as int),
                ids@ == q.take(i as int),
                source.queued_buffers@ == q.skip(i as int),
                source.processed_buffers@ == p.skip(i as int),
                source.state == s0.state,
                source.ints == s0.ints,
                source.float_bits == s0.float_bits,
                source.vector_bits == s0.vector_bits,
            decreases count - i,
        {
            if source.processed_buffers.len() == 0 {
                break;
            }
            let id = source.processed_buffers.remove(0);
            if source.queued_buffers.len() == 0 {
                break;
            }
            let front = source.queued_buffers.remove(0);
            if front != id {
                break;
            }
            ids.push(id);
            proof {
                assert(p[i as int] == q[i as int]);
                assert(ids@ =~= q.take(i + 1));
                assert(source.queued_buffers@ =~= q.skip(i + 1));
                assert(source.processed_buffers@ =~= p.skip(i + 1));
            }
            i = i + 1;
        }
        if source.queued_buffers.len() == 0 && source.state == AL_PLAYING {
            source.state = AL_STOPPED;
        }
        proof {
            let n = i as int;
            assert(source.queued_buffers@ =~= q.skip(n));
            assert(source.processed_buffers@ =~= p.skip(n));
            assert(source.processed_buffers@ =~= source.queued_buffers@.take(source.processed_buffers@.len() as int));
        }
        self.runtime.openal.sources.insert(source_id, source);
        proof {
            let m0 = old(self).runtime.openal.sources@;
            let m1 = self.runtime.openal.sources@;
            assert(m1.dom() =~= m0.dom());
            assert forall|k: u32| #[trigger] m1.contains_key(k) implies source_wf(m1[k]) by {
                if k != source_id {
                    assert(m0.contains_key(k));
                }
            }
        }
        Some(ids)
    }

    /// Stores `words` one after another from `addr`, logging each store;
    /// stops with an error at the first word that is not mapped.
    pub fn write_u32_words(&mut self, addr: u32, words: &Vec<u32>) -> (r: CoreResult<()>)
        requires
            old(self).wf(),
        ensures
            final(self).wf(),
            ({
                let (m, log, failed) = write_words(old(self).mem(), old(self).diag.writes@, addr, words@);
                &&& final(self).mem() == m
                &&& final(self).diag.writes@ == log
                &&& match failed {
                    None => r is Ok,
                    Some(a) => r is Err && r->Err_0 is Backend && r->Err_0.spec_message() == write_error_message(
                        m,
                        a,
                        4,
                    ),
                }
            }),
            final(self).runtime == old(self).runtime,
            final(self).cpu == old(self).cpu,
            final(self).execution == old(self).execution,
            final(self).profile == old(self).profile,
            final(self).tuning == old(self).tuning,
            final(self).diag.object_labels == old(self).diag.object_labels,
            final(self).diag.symbol_labels == old(self).diag.symbol_labels,
            final(self).address_space.trampoline_addr == old(self).address_space.trampoline_addr,
            final(self).address_space.trampoline_size == old(self).address_space.trampoline_size,
    {
        let mut i: usize = 0;
        let mut at = addr;
        assert(words@.skip(0) =~= words@);
        while i < words.len()
            invariant
                self.wf(),
                i <= words@.len(),
                write_words(old(self).mem(), old(self).diag.writes@, addr, words@) == write_words(
                    self.mem(),
                    self.diag.writes@,
                    at,
                    words@.skip(i as int),
                ),
                self.runtime == old(self).runtime,
                self.cpu == old(self).cpu,
                self.execution == old(self).execution,
                self.profile == old(self).profile,
                self.tuning == old(self).tuning,
                self.diag.object_labels == old(self).diag.object_labels,
                self.diag.symbol_labels == old(self).diag.symbol_labels,
                self.address_space.trampoline_addr == old(self).address_space.trampoline_addr,
                self.address_space.trampoline_size == old(self).address_space.trampoline_size,
            decreases words@.len() - i,
        {
            proof {
                assert(words@.skip(i as int).drop_first() =~= words@.skip(i + 1));
                assert(words@.skip(i as int)[0] == words@[i as int]);
            }
            match self.write_u32_le(at, words[i]) {
                Ok(()) => {},
                Err(e) => return Err(e),
            }
            at = at.wrapping_add(4);
            i = i + 1;
        }
        Ok(())
    }

    /// `glGenBuffers`-style: names `count` new empty buffers, stores the
    /// names at `out_ptr` and returns them.
    pub fn openal_gen_buffers(&mut self, count: u32, out_ptr: u32) -> (r: CoreResult<Vec<u32>>)
        requires
            old(self).wf(),
        ensures
            final(self).wf(),
            ({
                let o0 = old(self).runtime.openal;
                let o1 = final(self).runtime.openal;
                let ids = gen_ids(o0.next_buffer_id, count as nat);
                let (m, log, failed) = write_words(old(self).mem(), old(self).diag.writes@, out_ptr, ids);
                &&& o1.next_buffer_id == gen_next(o0.next_buffer_id, count as nat)
                &&& forall|k: u32| #[trigger] o1.buffers@.contains_key(k) <==> o0.buffers@.contains_key(k) || ids.contains(k)
                &&& forall|k: u32| #[trigger] ids.contains(k) ==> buffer_is_empty(o1.buffers@[k])
                &&& forall|k: u32| !ids.contains(k) && #[trigger] o0.buffers@.contains_key(k) ==> o1.buffers@[k] == o0.buffers@[k]
                &&& o1.sources == o0.sources
                &&& o1.last_al_error == if failed is None { AL_NO_ERROR } else { o0.last_al_error }
                &&& final(self).mem() == m
                &&& final(self).diag.writes@ == log
                &&& match failed {
                    None => r matches Ok(v) && v@ == ids,
                    Some(a) => r is Err && r->Err_0 is Backend && r->Err_0.spec_message() == write_error_message(
                        m,
                        a,
                        4,
                    ),
                }
            }),
            final(self).runtime.heap == old(self).runtime.heap,
            final(self).runtime.ui_network == old(self).runtime.ui_network,
            final(self).cpu == old(self).cpu,
            final(self).profile == old(self).profile,
            final(self).diag.object_labels == old(self).diag.object_labels,
    {
        let mut ids: Vec<u32> = Vec::new();
        let mut i: u32 = 0;
        let ghost o0 = self.runtime.openal;
        while i < count
            invariant
                i <= count,
                ids@ == gen_ids(o0.next_buffer_id, i as nat),
                self.runtime.openal.next_buffer_id == gen_next(o0.next_buffer_id, i as nat),
                forall|k: u32| #[trigger] self.runtime.openal.buffers@.contains_key(k) <==> o0.buffers@.contains_key(k) || ids@.contains(k),
                forall|k: u32| #[trigger] ids@.contains(k) ==> buffer_is_empty(self.runtime.openal.buffers@[k]),
                forall|k: u32| !ids@.contains(k) && #[trigger] o0.buffers@.contains_key(k) ==> self.runtime.openal.buffers@[k] == o0.buffers@[k],
                self.runtime.openal.sources == o0.sources,
                self.runtime.openal.last_al_error == o0.last_al_error,
                o0 == old(self).runtime.openal,
                *self == (MemoryArm32Backend { runtime: self.runtime, ..*old(self) }),
                self.runtime == (super::BackendRuntimeState { openal: self.runtime.openal, ..old(self).runtime }),
            decreases count - i,
        {
            proof {
                lemma_gen_step(o0.next_buffer_id, i as nat);
            }
            let next = self.runtime.openal.next_buffer_id;
            let id = if next == 0 { 1 } else { next };
            self.runtime.openal.next_buffer_id = id.saturating_add(1);
            self.runtime.openal.buffers.insert(
                id,
                BackendOpenAlBufferState { format: 0, frequency: 0, byte_len: 0, preview: Vec::new() },
            );
            let ghost ids0 = ids@;
            ids.push(id);
            proof {
                lemma_push_contains(ids0, id);
            }
            i = i + 1;
        }
        match self.write_u32_words(out_ptr, &ids) {
            Ok(()) => {},
            Err(e) => return Err(e),
        }
        self.runtime.openal.last_al_error = AL_NO_ERROR;
        Ok(ids)
    }

    /// Names `count` fresh sources, stores the names at `out_ptr` and
    /// returns them.
    pub fn openal_gen_sources(&mut self, count: u32, out_ptr: u32) -> (r: CoreResult<Vec<u32>>)
        requires
            old(self).wf(),
            openal_wf(old(self).runtime.openal),
        ensures
            final(self).wf(),
            openal_wf(final(self).runtime.openal),
            ({
                let o0 = old(self).runtime.openal;
                let o1 = final(self).runtime.openal;
                let ids = gen_ids(o0.next_source_id, count as nat);
                let (m, log, failed) = write_words(old(self).mem(), old(self).diag.writes@, out_ptr, ids);
                &&& o1.next_source_id == gen_next(o0.next_source_id, count as nat)
                &&& forall|k: u32| #[trigger] o1.sources@.contains_key(k) <==> o0.sources@.contains_key(k) || ids.contains(k)
                &&& forall|k: u32| #[trigger] ids.contains(k) ==> source_is_fresh(o1.sources@[k])
                &&& forall|k: u32| !ids.contains(k) && #[trigger] o0.sources@.contains_key(k) ==> o1.sources@[k] == o0.sources@[k]
                &&& o1.buffers == o0.buffers
                &&& o1.last_al_error == if failed is None { AL_NO_ERROR } else { o0.last_al_error }
                &&& final(self).mem() == m
                &&& final(self).diag.writes@ == log
                &&& match failed {
                    None => r matches Ok(v) && v@ == ids,
                    Some(a) => r is Err && r->Err_0 is Backend && r->Err_0.spec_message() == write_error_message(
                        m,
                        a,
                        4,
                    ),
                }
            }),
            final(self).runtime.heap == old(self).runtime.heap,
            final(self).runtime.ui_network == old(self).runtime.ui_network,
            final(self).cpu == old(self).cpu,
            final(self).profile == old(self).profile,
            final(self).diag.object_labels == old(self).diag.object_labels,
    {
        let mut ids: Vec<u32> = Vec::new();
        let mut i: u32 = 0;
        let ghost o0 = self.runtime.openal;
        while i < count
            invariant
                i <= count,
                ids@ == gen_ids(o0.next_source_id, i as nat),
                self.runtime.openal.next_source_id == gen_next(o0.next_source_id, i as nat),
                forall|k: u32| #[trigger] self.runtime.openal.sources@.contains_key(k) <==> o0.sources@.contains_key(k) || ids@.contains(k),
                forall|k: u32| #[trigger] ids@.contains(k) ==> source_is_fresh(self.runtime.openal.sources@[k]),
                forall|k: u32| !ids@.contains(k) && #[trigger] o0.sources@.contains_key(k) ==> self.runtime.openal.sources@[k] == o0.sources@[k],
                openal_wf(self.runtime.openal),
                self.runtime.openal.buffers == o0.buffers,
                self.runtime.openal.last_al_error == o0.last_al_error,
                o0 == old(self).runtime.openal,
                *self == (MemoryArm32Backend { runtime: self.runtime, ..*old(self) }),
                self.runtime == (super::BackendRuntimeState { openal: self.runtime.openal, ..old(self).runtime }),
            decreases count - i,
        {
            proof {
                lemma_gen_step(o0.next_source_id, i as nat);
            }
            let next = self.runtime.openal.next_source_id;
            let id = if next == 0 { 1 } else { next };
            self.runtime.openal.next_source_id = id.saturating_add(1);
            self.runtime.openal.sources.insert(id, fresh_source());
            let ghost ids0 = ids@;
            ids.push(id);
            proof {
                lemma_push_contains(ids0, id);
            }
            i = i + 1;
        }
        match self.write_u32_words(out_ptr, &ids) {
            Ok(()) => {},
            Err(e) => return Err(e),
        }
        self.runtime.openal.last_al_error = AL_NO_ERROR;
        Ok(ids)
    }

    /// A zeroed 32-byte heap block standing for an OpenAL object, tagged
    /// `openal.<tag>`.
    pub fn openal_alloc_handle(&mut self, tag: &str) -> (r: CoreResult<u32>)
        requires
            old(self).wf(),
            old(self).runtime.heap.heap_wf(),
        ensures
            final(self).wf(),
            final(self).runtime.heap.heap_wf(),
            r is Ok <==> alloc_outcome(*old(self), 32) is Some,
            r matches Ok(p) ==> guest_alloc_effect(*old(self), *final(self), 32, true, "openal."@ + tag@, p),
            r is Err ==> *final(self) == *old(self) && r->Err_0 is Backend && r->Err_0.spec_message() == alloc_error(
                *old(self),
                32,
            ),
    {
        let mut t = String::from_str("openal.");
        t.append(tag);
        self.alloc_synthetic_heap_block(32, true, t)
    }

    /// The synthetic OpenAL device, created (a zeroed heap handle labelled
    /// `OpenAL.device.synthetic#0`, clearing the ALC error) on first use.
    pub fn openal_device_handle(&mut self) -> (r: CoreResult<u32>)
        requires
            old(self).wf(),
            old(self).runtime.heap.heap_wf(),
        ensures
            final(self).wf(),
            final(self).runtime.heap.heap_wf(),
            old(self).runtime.openal.device_ptr != 0 ==> r == Ok::<u32, CoreError>(old(self).runtime.openal.device_ptr)
                && *final(self) == *old(self),
            old(self).runtime.openal.device_ptr == 0 ==> (r is Ok <==> alloc_outcome(*old(self), 32) is Some),
            old(self).runtime.openal.device_ptr == 0 && r is Err ==> *final(self) == *old(self),
            old(self).runtime.openal.device_ptr == 0 ==> (r matches Ok(p) ==> handle_created(
                *old(self),
                *final(self),
                p,
                "openal."@ + "device"@,
                "OpenAL.device.synthetic#0"@,
            ) && final(self).runtime.openal == (BackendOpenAlState {
                device_ptr: p,
                last_alc_error: ALC_NO_ERROR,
                ..old(self).runtime.openal
            })),
    {
        if self.runtime.openal.device_ptr == 0 {
            let ptr = match self.openal_alloc_handle("device") {
                Ok(p) => p,
                Err(e) => return Err(e),
            };
            let ghost mid = *self;
            self.runtime.openal.device_ptr = ptr;
            let ghost m0 = self.diag.object_labels@;
            let label = String::from_str("OpenAL.device.synthetic#0");
            proof {
                lemma_labels_view_insert(m0, ptr, label);
            }
            self.diag.object_labels.insert(ptr, label);
            self.runtime.openal.last_alc_error = ALC_NO_ERROR;
            proof {
                assert(guest_alloc_effect(*old(self), mid, 32, true, "openal."@ + "device"@, ptr));
            }
        }
        Ok(self.runtime.openal.device_ptr)
    }

    /// The synthetic OpenAL context, created (a zeroed heap handle labelled
    /// `OpenAL.context.synthetic#0`, clearing the ALC error) on first use.
    pub fn openal_context_handle(&mut self) -> (r: CoreResult<u32>)
        requires
            old(self).wf(),
            old(self).runtime.heap.heap_wf(),
        ensures
            final(self).wf(),
            final(self).runtime.heap.heap_wf(),
            old(self).runtime.openal.context_ptr != 0 ==> r == Ok::<u32, CoreError>(old(self).runtime.openal.context_ptr)
                && *final(self) == *old(self),
            old(self).runtime.openal.context_ptr == 0 ==> (r is Ok <==> alloc_outcome(*old(self), 32) is Some),
            old(self).runtime.openal.context_ptr == 0 && r is Err ==> *final(self) == *old(self),
            old(self).runtime.openal.context_ptr == 0 ==> (r matches Ok(p) ==> handle_created(
                *old(self),
                *final(self),
                p,
                "openal."@ + "context"@,
                "OpenAL.context.synthetic#0"@,
            ) && final(self).runtime.openal == (BackendOpenAlState {
                context_ptr: p,
                last_alc_error: ALC_NO_ERROR,
                ..old(self).runtime.openal
            })),
    {
        if self.runtime.openal.context_ptr == 0 {
            let ptr = match self.openal_alloc_handle("context") {
                Ok(p) => p,
                Err(e) => return Err(e),
            };
            let ghost mid = *self;
            self.runtime.openal.context_ptr = ptr;
            let ghost m0 = self.diag.object_labels@;
            let label = String::from_str("OpenAL.context.synthetic#0");
            proof {
                lemma_labels_view_insert(m0, ptr, label);
            }
            self.diag.object_labels.insert(ptr, label);
            self.runtime.openal.last_alc_error = ALC_NO_ERROR;
            proof {
                assert(guest_alloc_effect(*old(self), mid, 32, true, "openal."@ + "context"@, ptr));
            }
        }
        Ok(self.runtime.openal.context_ptr)
    }

    /// Whether `class_name` is the AVFoundation audio player class.
    pub fn audio_is_objc_player_class(class_name: &str) -> (b: bool)
        ensures
            b == (class_name@ == "AVAudioPlayer"@),
    {
        str_eq(class_name, "AVAudioPlayer")
    }

    /// Whether `class_name` is one of the cocos2d / ObjectAL audio engines.
    pub fn audio_is_objc_engine_class(class_name: &str) -> (b: bool)
        ensures
            b == (class_name@ == "SimpleAudioEngine"@ || class_name@ == "CDAudioManager"@ || class_name@
                == "CDSoundEngine"@ || class_name@ == "OALSimpleAudio"@),
    {
        str_eq(class_name, "SimpleAudioEngine") || str_eq(class_name, "CDAudioManager") || str_eq(
            class_name,
            "CDSoundEngine",
        ) || str_eq(class_name, "OALSimpleAudio")
    }

    /// Whether `class_name` is an audio player or audio engine class.
    pub fn audio_is_objc_audio_class(class_name: &str) -> (b: bool)
        ensures
            b == (class_name@ == "AVAudioPlayer"@ || class_name@ == "SimpleAudioEngine"@ || class_name@
                == "CDAudioManager"@ || class_name@ == "CDSoundEngine"@ || class_name@ == "OALSimpleAudio"@),
    {
        Self::audio_is_objc_player_class(class_name) || Self::audio_is_objc_engine_class(class_name)
    }

    /// Whether `selector` is one of the audio selectors the runtime watches.
    pub fn audio_is_objc_audio_selector(selector: &str) -> (b: bool)
        ensures
            b == is_audio_selector(selector@),
    {
        str_eq(selector, "sharedEngine") || str_eq(selector, "sharedManager") || str_eq(selector, "soundEngine")
            || str_eq(selector, "asynchLoadProgress") || str_eq(
            selector,
            "playSound:channelGroupId:pitch:pan:gain:loop:",
        ) || str_eq(selector, "initWithContentsOfURL:error:") || str_eq(selector, "initWithData:error:") || str_eq(
            selector,
            "prepareToPlay",
        ) || str_eq(selector, "play") || str_eq(selector, "pause") || str_eq(selector, "stop") || str_eq(
            selector,
            "playing",
        ) || str_eq(selector, "setVolume:") || str_eq(selector, "volume") || str_eq(selector, "setNumberOfLoops:")
            || str_eq(selector, "numberOfLoops") || str_eq(selector, "preloadBackgroundMusic:") || str_eq(
            selector,
            "playBackgroundMusic:",
        ) || str_eq(selector, "playBackgroundMusic:loop:") || str_eq(selector, "stopBackgroundMusic") || str_eq(
            selector,
            "pauseBackgroundMusic",
        ) || str_eq(selector, "resumeBackgroundMusic") || str_eq(selector, "setBackgroundMusicVolume:") || str_eq(
            selector,
            "preloadEffect:",
        ) || str_eq(selector, "playEffect:") || str_eq(selector, "playEffect:loop:") || str_eq(
            selector,
            "playEffect:pitch:pan:gain:",
        ) || str_eq(selector, "stopEffect:") || str_eq(selector, "unloadEffect:") || str_eq(
            selector,
            "setEffectsVolume:",
        )
    }

    /// The first 24 bytes as space-separated two-digit hex pairs.
    pub fn audio_hex_preview(bytes: &[u8]) -> (s: String)
        ensures
            s@ == spec_hex_preview(bytes@),
    {
        let n: usize = if bytes.len() < 24 { bytes.len() } else { 24 };
        let mut s = String::new();
        let mut i: usize = 0;
        while i < n
            invariant
                i <= n,
                n <= bytes@.len(),
                s@ == hex_pairs(bytes@.take(i as int)),
            decreases n - i,
        {
            proof {
                assert(bytes@.take(i + 1).drop_last() =~= bytes@.take(i as int));
            }
            if i > 0 {
                s.append(" ");
            } else {
                proof {
                    assert(hex_pairs(bytes@.take(0)) =~= Seq::<char>::empty());
                }
            }
            push_hex(&mut s, bytes[i] as u64, 2);
            i = i + 1;
        }
        s
    }

    /// The first 48 bytes as printable ASCII, `.` for anything else.
    pub fn audio_ascii_preview(bytes: &[u8]) -> (s: String)
        ensures
            s@ == spec_ascii_preview(bytes@),
    {
        let n: usize = if bytes.len() < 48 { bytes.len() } else { 48 };
        let mut s = String::new();
        let mut i: usize = 0;
        while i < n
            invariant
                i <= n,
                n <= bytes@.len(),
                s@ == bytes@.take(i as int).map_values(|x: u8| ascii_or_dot(x)),
            decreases n - i,
        {
            let b = bytes[i];
            if 0x20 <= b && b <= 0x7e {
                push_char(&mut s, b as char);
            } else {
                push_char(&mut s, '.');
            }
            proof {
                assert(bytes@.take(i + 1).map_values(|x: u8| ascii_or_dot(x)) =~= bytes@.take(i as int).map_values(
                    |x: u8| ascii_or_dot(x),
                ).push(ascii_or_dot(b)));
            }
            i = i + 1;
        }
        s
    }
}

/// What a sequence with one more element contains.
pub proof fn lemma_push_contains(s: Seq<u32>, x: u32)
    ensures
        forall|k: u32| #[trigger] s.push(x).contains(k) <==> s.contains(k) || k == x,
{
    assert forall|k: u32| #[trigger] s.push(x).contains(k) <==> s.contains(k) || k == x by {
        if s.push(x).contains(k) {
            let j = choose|j: int| 0 <= j < s.push(x).len() && s.push(x)[j] == k;
            if j < s.len() {
                assert(s[j] == k);
            }
        }
        if s.contains(k) {
            let j = choose|j: int| 0 <= j < s.len() && s[j] == k;
            assert(s.push(x)[j] == k);
        }
        if k == x {
            assert(s.push(x)[s.len() as int] == k);
        }
    }
}

/// Handing out one more name extends the names handed out so far.
proof fn lemma_gen_step(next: u32, n: nat)
    ensures
        gen_ids(next, n + 1) == gen_ids(next, n).push(
            if gen_next(next, n) == 0 {
                1u32
            } else {
                gen_next(next, n)
            },
        ),
        gen_next(next, n + 1) == sat_add(
            if gen_next(next, n) == 0 {
                1u32
            } else {
                gen_next(next, n)
            },
            1,
        ),
    decreases n,
{
    let id: u32 = if next == 0 { 1 } else { next };
    assert(gen_next(next, n + 1) == gen_next(sat_add(id, 1), n));
    if n > 0 {
        assert(gen_next(next, n) == gen_next(sat_add(id, 1), (n - 1) as nat));
        lemma_gen_step(sat_add(id, 1), (n - 1) as nat);
        assert(gen_ids(next, n + 1) =~= seq![id] + gen_ids(sat_add(id, 1), n));
    } else {
        assert(gen_ids(next, 1) =~= seq![id] + gen_ids(sat_add(id, 1), 0));
    }
}

/// Generated names count up one by one: `n` new objects get the names
/// that follow the next free name (1 when none was handed out yet), none
/// of them is 0, no name is handed out twice, and the next free name then
/// follows the last one given.
pub proof fn lemma_gen_ids_consecutive(next: u32, n: nat)
    requires
        (if next == 0 {
            1
        } else {
            next as int
        }) + n <= u32::MAX,
    ensures
        gen_ids(next, n).len() == n,
        forall|i: int|
            0 <= i < n ==> #[trigger] gen_ids(next, n)[i] == (if next == 0 {
                1
            } else {
                next as int
            }) + i,
        forall|i: int| 0 <= i < n ==> #[trigger] gen_ids(next, n)[i] != 0,
        forall|i: int, j: int| 0 <= i < j < n ==> gen_ids(next, n)[i] != gen_ids(next, n)[j],
        n > 0 ==> gen_next(next, n) == (if next == 0 {
            1
        } else {
            next as int
        }) + n,
    decreases n,
{
    if n > 0 {
        let id: u32 = if next == 0 {
            1
        } else {
            next
        };
        assert(sat_add(id, 1) == id + 1);
        lemma_gen_ids_consecutive(sat_add(id, 1), (n - 1) as nat);
        let rest = gen_ids(sat_add(id, 1), (n - 1) as nat);
        assert(gen_ids(next, n) == seq![id] + rest);
        assert forall|i: int|
            0 <= i < n implies #[trigger] gen_ids(next, n)[i] == id + i by {
            if i > 0 {
                assert(gen_ids(next, n)[i] == rest[i - 1]);
            }
        }
    }
}

} // verus!
